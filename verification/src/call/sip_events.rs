//! What the events of the SIP stack do to the calls.

use crate::call::action;
use crate::call::action::{hangup_action, Action};
use crate::call::calls;
use crate::call::calls::SipCallInfo;
use crate::call::coordinator;
use crate::call::coordinator::{brief_diagnostics, BridgeCoordinator};
use crate::call::failures;
use crate::call::failures::classify_failure_reasons;
use crate::ids::{CallId, Snowflake};
use crate::routing;
use crate::routing::{OutboundCallDiagnostics, OutboundCallLegFailure, OutboundCallStatus};
use crate::table;
use crate::text;
use crate::text::{decimal_of, from_chars, push_chars, push_str, signed_decimal_of, to_chars};
use crate::time::Instant;
use crate::transport::sip::fork_group;
use crate::transport::sip::fork_group::ForkGroups;
use crate::transport::sip::types::{DigestAuthParams, SipEvent};
use vstd::prelude::*;

verus! {

broadcast use action::group_actions;

/// The number that an extension stands for, if it is one.
pub fn extension_number(extension: &str) -> (n: Option<u32>)
    ensures
        match n {
            Some(k) => text::parse_unsigned(extension@, u32::MAX as nat) == Some(k as nat),
            None => text::parse_unsigned(extension@, u32::MAX as nat) is None,
        },
{
    text::parse_u32(&to_chars(extension))
}

/// A report for a call that is an outbound one.
pub open spec fn report_if_tracked(
    calls: calls::CallsView,
    call: CallId,
    status: OutboundCallStatus,
) -> Seq<action::ActionView> {
    match calls.tracking_of(call) {
        Some(tracking_id) => seq![action::ActionView::Report { tracking_id, status }],
        None => seq![],
    }
}

/// What takes the bridge of a channel down.
pub open spec fn destroy(channel_id: Snowflake, connection: u64) -> Seq<action::ActionView> {
    seq![
        action::ActionView::CleanupPort { channel_id },
        action::ActionView::TeardownRings { channel_id },
        action::ActionView::Disconnect { connection },
    ]
}

/// What drops the legs of an outbound call: each is forgotten, so that its end
/// is not taken for a failure, and hung up.
pub open spec fn drop_legs(legs: Seq<CallId>) -> Seq<action::ActionView>
    decreases legs.len(),
{
    if legs.len() == 0 {
        seq![]
    } else {
        drop_legs(legs.drop_last()) + seq![
            action::ActionView::ForgetOutbound { call_id: legs.last() },
            action::hangup(legs.last()),
        ]
    }
}

impl coordinator::CoordView {
    /// The state after a call came in.
    pub open spec fn call_came_in(self, call: CallId) -> coordinator::CoordView {
        coordinator::CoordView {
            calls: self.calls.numbered().with(
                call,
                calls::CallView::fresh(self.calls.next_instance),
            ),
            ..self
        }
    }

    /// Whether a call is a fax call.
    pub open spec fn is_fax(self, call: CallId) -> bool {
        self.fax.sessions.contains_key(call.raw)
    }

    /// The channel of a call, if it is connected to one.
    pub open spec fn channel_of(self, call: CallId) -> Option<Snowflake> {
        if self.calls.calls.contains_key(call.raw) {
            self.calls.calls[call.raw].channel_id
        } else {
            None
        }
    }

    /// The state after a call ended. A fax call is kept until its session has
    /// come to its end.
    pub open spec fn call_ended(self, call: CallId) -> coordinator::CoordView {
        if self.is_fax(call) {
            coordinator::CoordView { fax: self.fax.without(call), ..self }
        } else {
            coordinator::CoordView {
                calls: self.calls.without(call),
                bridges: match self.channel_of(call) {
                    Some(channel) => self.bridges.left(channel, call),
                    None => self.bridges,
                },
                ..self
            }
        }
    }

    /// What the end of a voice call does to the bridge of its channel.
    pub open spec fn leaving(self, call: CallId) -> Seq<action::ActionView> {
        match self.channel_of(call) {
            Some(channel) => if self.bridges.has(channel) && self.bridges.last_leaves(
                channel,
                call,
            ) {
                destroy(channel, self.bridges.bridges[channel.raw].connection)
            } else {
                seq![]
            },
            None => seq![],
        }
    }

    /// What the end of a call asks for. The backend is not told of the end of a
    /// fax call.
    pub open spec fn ending(self, call: CallId) -> Seq<action::ActionView> {
        let head = report_if_tracked(self.calls, call, OutboundCallStatus::Ended) + seq![
            action::ActionView::UnregisterCallChannel { call_id: call },
            action::ActionView::StopLoop { call_id: call },
        ];
        if self.is_fax(call) {
            let session = self.fax.sessions[call.raw].session;
            head + seq![
                action::ActionView::CancelFax { session },
                action::ActionView::RemoveFaxPort { call_id: call },
                action::ActionView::FinishFax { call_id: call, session },
            ]
        } else {
            head + seq![
                action::ActionView::CallEnded { sip_call_id: text::signed_decimal(call.raw as int) },
            ] + self.leaving(call)
        }
    }

    /// The failure of a leg, as it is stored.
    pub open spec fn failure_of(call: Option<CallId>, reason: Seq<char>) -> routing::LegFailureView {
        routing::LegFailureView {
            sip_call_id: match call {
                Some(id) => Some(text::signed_decimal(id.raw as int)),
                None => None,
            },
            detail: reason,
        }
    }

    /// The state after a leg failed; `all_failed` if it was the last one.
    pub open spec fn leg_failed(
        self,
        id: Seq<char>,
        call: Option<CallId>,
        reason: Seq<char>,
        all_failed: bool,
    ) -> coordinator::CoordView {
        let outbound = self.outbound.with_failure(id, Self::failure_of(call, reason));
        coordinator::CoordView {
            outbound: if all_failed {
                outbound.without_request(id).without_failures(id)
            } else {
                outbound
            },
            ..self
        }
    }

    /// The report after the last leg failed.
    pub open spec fn failing(
        self,
        id: Seq<char>,
        call: Option<CallId>,
        reason: Seq<char>,
        now: Instant,
    ) -> action::ActionView {
        let all = self.outbound.failures_of(id).push(Self::failure_of(call, reason));
        action::ActionView::Diagnose {
            tracking_id: id,
            status: OutboundCallStatus::Failed(failures::most_telling(all)),
            diagnostics: routing::DiagnosticsView {
                phase: "sip_dial"@,
                detail: Some("all outbound SIP legs failed"@),
                elapsed_ms: self.outbound.elapsed_ms(id, now),
                registration: None,
                leg_failures: all,
            },
        }
    }

    /// Whether a T.38 offer belongs to the fax session of its call.
    pub open spec fn takes_t38(self, call: CallId) -> bool {
        self.is_fax(call) && self.calls.is_current(call, self.fax.sessions[call.raw].instance_id)
    }
}

/// Appends what drops one leg.
fn drop_leg(actions: &mut Vec<Action>, leg: CallId)
    ensures
        action::action_views(final(actions)@) == action::action_views(old(actions)@) + seq![
            action::ActionView::ForgetOutbound { call_id: leg },
            action::hangup(leg),
        ],
{
    let ghost before = action::action_views(actions@);
    actions.push(Action::ForgetOutbound { call_id: leg });
    actions.push(hangup_action(leg));
    assert(action::action_views(actions@) =~= before + seq![
        action::ActionView::ForgetOutbound { call_id: leg },
        action::hangup(leg),
    ]);
}

/// What drops the legs of an outbound call.
pub fn drop_leg_actions(legs: &Vec<CallId>) -> (actions: Vec<Action>)
    ensures
        action::action_views(actions@) == drop_legs(legs@),
{
    let mut actions: Vec<Action> = Vec::new();
    for i in 0..legs.len()
        invariant
            action::action_views(actions@) == drop_legs(legs@.take(i as int)),
    {
        assert(legs@.take(i + 1).drop_last() =~= legs@.take(i as int));
        drop_leg(&mut actions, legs[i]);
    }
    assert(legs@.take(legs@.len() as int) =~= legs@);
    actions
}

/// "SIP leg {call} received {code} {text}".
pub open spec fn ringing_detail(call: CallId, code: u16, words: Seq<char>) -> Seq<char> {
    "SIP leg "@ + text::signed_decimal(call.raw as int) + " received "@ + text::decimal(
        code as nat,
    ) + " "@ + words
}

/// What an incoming call starts: the sound of its extension, or its routing.
pub open spec fn incoming_start(
    state: coordinator::CoordView,
    call_id: CallId,
    digest_auth: DigestAuthParams,
    extension: String,
    sound: Option<String>,
) -> action::ActionView {
    match sound {
        Some(name) => action::ActionView::StartExtensionSound {
            call_id,
            instance_id: state.calls.next_instance,
            sound_name: name@,
        },
        None => action::ActionView::StartIncoming {
            call_id,
            instance_id: state.calls.next_instance,
            digest_auth: digest_auth@,
            extension: extension@,
        },
    }
}

/// What an answer of a leg asks for. The first answer of a call wins, and the
/// other legs are dropped, in some order; a later one is dropped itself.
pub open spec fn answer_effect(
    forks: fork_group::ForksView,
    tracking_id: Seq<char>,
    call_id: CallId,
    actions: Seq<action::ActionView>,
) -> bool {
    if forks.answer_wins(tracking_id) {
        exists|legs: Seq<CallId>|
            table::enumerates(
                fork_group::raw_ids(legs),
                forks.rivals(tracking_id, call_id.raw),
            ) && actions == #[trigger] drop_legs(legs) + seq![
                action::ActionView::Report { tracking_id, status: OutboundCallStatus::Answered },
                action::ActionView::StartAnswered { tracking_id, call_id },
            ]
    } else {
        actions == drop_legs(seq![call_id])
    }
}

/// The report that a leg rings.
pub open spec fn ringing(
    tracking_id: Seq<char>,
    call: CallId,
    code: u16,
    words: Seq<char>,
) -> action::ActionView {
    action::ActionView::Diagnose {
        tracking_id,
        status: OutboundCallStatus::Ringing,
        diagnostics: coordinator::brief("sip_ringing"@, ringing_detail(call, code, words), None),
    }
}

/// What a T.38 offer asks for.
pub open spec fn t38_answer(
    state: coordinator::CoordView,
    call_id: CallId,
    remote_ip: Seq<char>,
    remote_port: u16,
    local_port: u16,
) -> action::ActionView {
    if state.takes_t38(call_id) {
        action::ActionView::SwitchToT38 {
            call_id,
            session: state.fax.sessions[call_id.raw].session,
            remote_ip,
            remote_port,
            local_port,
        }
    } else {
        action::hangup(call_id)
    }
}

impl BridgeCoordinator {
    /// A call came in. If its extension has a sound of its own, `sound` names
    /// it and it is played; else the call is routed.
    pub fn on_incoming_call(
        &mut self,
        call_id: CallId,
        digest_auth: DigestAuthParams,
        extension: String,
        sound: Option<String>,
    ) -> (actions: Vec<Action>)
        ensures
            final(self)@ == old(self)@.call_came_in(call_id),
            action::action_views(actions@) == seq![
                incoming_start(old(self)@, call_id, digest_auth, extension, sound),
            ],
    {
        let instance_id = self.sip_calls.next_call_instance_id();
        self.sip_calls.insert(
            call_id,
            SipCallInfo {
                instance_id,
                channel_id: None,
                _user_id: None,
                _guild_id: None,
                tracking_id: None,
            },
        );
        let mut actions: Vec<Action> = Vec::new();
        match sound {
            Some(sound_name) => actions.push(
                Action::StartExtensionSound { call_id, instance_id, sound_name },
            ),
            None => actions.push(
                Action::StartIncoming { call_id, instance_id, digest_auth, extension },
            ),
        }
        actions
    }

    /// A call ended. The bridge of its channel goes with the last call on it.
    pub fn on_call_ended(&mut self, call_id: CallId) -> (actions: Vec<Action>)
        ensures
            final(self)@ == old(self)@.call_ended(call_id),
            action::action_views(actions@) == old(self)@.ending(call_id),
    {
        let ghost before = self@;
        let mut actions: Vec<Action> = Vec::new();
        if let Some(tracking_id) = self.sip_calls.tracking_id(call_id) {
            actions.push(Action::Report { tracking_id, status: OutboundCallStatus::Ended });
        }
        actions.push(Action::UnregisterCallChannel { call_id });
        actions.push(Action::StopLoop { call_id });
        if let Some(entry) = self.fax_sessions.remove(call_id) {
            actions.push(Action::CancelFax { session: entry.session });
            actions.push(Action::RemoveFaxPort { call_id });
            actions.push(Action::FinishFax { call_id, session: entry.session });
            assert(action::action_views(actions@) =~= before.ending(call_id));
            return actions;
        }
        assert(self@.fax.sessions =~= before.fax.sessions);
        actions.push(Action::CallEnded { sip_call_id: call_id.to_text() });
        let channel = match self.sip_calls.remove(call_id) {
            Some(info) => info.channel_id,
            None => None,
        };
        if let Some(channel_id) = channel {
            if let Some(bridge) = self.bridges.leave(channel_id, call_id) {
                actions.push(Action::CleanupPort { channel_id });
                actions.push(Action::TeardownRings { channel_id });
                actions.push(Action::Disconnect { connection: bridge.discord_connection });
            }
        }
        assert(action::action_views(actions@) =~= before.ending(call_id));
        actions
    }

    /// The session of a fax call that ended has come to its end.
    pub fn on_fax_finished(&mut self, call_id: CallId)
        ensures
            final(self)@ == (coordinator::CoordView {
                calls: old(self)@.calls.without(call_id),
                ..old(self)@
            }),
    {
        let _ = self.sip_calls.remove(call_id);
    }

    /// No sound came from a call for too long: it is hung up. If none ever came,
    /// that is reported.
    pub fn on_call_timeout(&self, call_id: CallId, rx_count: u64) -> (actions: Vec<Action>)
        ensures
            action::action_views(actions@) == (if rx_count == 0 {
                report_if_tracked(self@.calls, call_id, OutboundCallStatus::NoAudio)
            } else {
                Seq::empty()
            }) + seq![action::hangup(call_id)],
    {
        let mut actions: Vec<Action> = Vec::new();
        if rx_count == 0 {
            if let Some(tracking_id) = self.sip_calls.tracking_id(call_id) {
                actions.push(Action::Report { tracking_id, status: OutboundCallStatus::NoAudio });
            }
        }
        actions.push(hangup_action(call_id));
        assert(action::action_views(actions@) =~= (if rx_count == 0 {
            report_if_tracked(self@.calls, call_id, OutboundCallStatus::NoAudio)
        } else {
            Seq::empty()
        }) + seq![action::hangup(call_id)]);
        actions
    }

    /// A leg of an outbound call was answered. The first answer wins: the other
    /// legs are dropped, and their order is not stated. A later answer, or one
    /// of a cancelled call, is hung up.
    pub fn on_outbound_answered(
        &mut self,
        forks: &mut ForkGroups,
        tracking_id: String,
        call_id: CallId,
        now: Instant,
    ) -> (actions: Vec<Action>)
        requires
            old(forks)@.wf(),
        ensures
            final(forks)@.wf(),
            final(forks)@ == old(forks)@.resolve(tracking_id@, now),
            final(self)@ == (coordinator::CoordView {
                outbound: old(self)@.outbound.without_failures(tracking_id@),
                ..old(self)@
            }),
            answer_effect(
                old(forks)@,
                tracking_id@,
                call_id,
                action::action_views(actions@),
            ),
    {
        let _ = self.outbound.take_failures(tracking_id.as_str());
        match fork_group::mark_answered(forks, tracking_id.as_str(), call_id, now) {
            Some(siblings) => {
                let mut actions = drop_leg_actions(&siblings);
                let ghost dropped = action::action_views(actions@);
                actions.push(
                    Action::Report {
                        tracking_id: tracking_id.clone(),
                        status: OutboundCallStatus::Answered,
                    },
                );
                actions.push(Action::StartAnswered { tracking_id, call_id });
                assert(action::action_views(actions@) =~= drop_legs(siblings@) + seq![
                    action::ActionView::Report {
                        tracking_id: tracking_id@,
                        status: OutboundCallStatus::Answered,
                    },
                    action::ActionView::StartAnswered { tracking_id: tracking_id@, call_id },
                ]);
                actions
            },
            None => {
                let mut actions: Vec<Action> = Vec::new();
                drop_leg(&mut actions, call_id);
                assert(seq![call_id].drop_last() =~= Seq::<CallId>::empty());
                assert(drop_legs(seq![call_id].drop_last()) =~= Seq::<action::ActionView>::empty());
                assert(action::action_views(actions@) =~= drop_legs(seq![call_id]));
                actions
            },
        }
    }

    /// A leg of an outbound call rings.
    pub fn on_outbound_ringing(
        tracking_id: String,
        call_id: CallId,
        status_code: u16,
        status_text: String,
    ) -> (actions: Vec<Action>)
        ensures
            action::action_views(actions@) == seq![
                ringing(tracking_id@, call_id, status_code, status_text@),
            ],
    {
        let mut detail = to_chars("SIP leg ");
        push_chars(&mut detail, &signed_decimal_of(call_id.raw));
        push_str(&mut detail, " received ");
        push_chars(&mut detail, &decimal_of(status_code as u64));
        push_str(&mut detail, " ");
        push_str(&mut detail, status_text.as_str());
        let mut actions: Vec<Action> = Vec::new();
        actions.push(
            Action::Diagnose {
                tracking_id,
                status: OutboundCallStatus::Ringing,
                diagnostics: brief_diagnostics("sip_ringing", from_chars(&detail), None),
            },
        );
        actions
    }

    /// A leg of an outbound call failed. Only when all legs have failed the
    /// call has. A leg without a call could not be started at all.
    pub fn on_outbound_failed(
        &mut self,
        forks: &mut ForkGroups,
        tracking_id: String,
        failed_call_id: Option<CallId>,
        reason: String,
        now: Instant,
    ) -> (actions: Vec<Action>)
        requires
            old(forks)@.wf(),
        ensures
            final(forks)@.wf(),
            ({
                let all_failed = match failed_call_id {
                    Some(call) => old(forks)@.failure_resolves(tracking_id@, call.raw),
                    None => true,
                };
                &&& final(forks)@ == (match failed_call_id {
                    Some(call) => old(forks)@.mark_failed(tracking_id@, call.raw, now),
                    None => old(forks)@,
                })
                &&& final(self)@ == old(self)@.leg_failed(
                    tracking_id@,
                    failed_call_id,
                    reason@,
                    all_failed,
                )
                &&& action::action_views(actions@) == (if all_failed {
                    seq![old(self)@.failing(tracking_id@, failed_call_id, reason@, now)]
                } else {
                    Seq::empty()
                })
            }),
    {
        let ghost before = self@;
        let sip_call_id = match failed_call_id {
            Some(call) => Some(call.to_text()),
            None => None,
        };
        let ghost why = reason@;
        self.outbound.push_failure(
            tracking_id.as_str(),
            OutboundCallLegFailure { sip_call_id, detail: reason },
        );
        let all_failed = match failed_call_id {
            Some(call) => fork_group::mark_failed(forks, tracking_id.as_str(), call, now),
            None => true,
        };
        let mut actions: Vec<Action> = Vec::new();
        if all_failed {
            let elapsed_ms = match self.outbound.take_request(tracking_id.as_str()) {
                Some(request) => Some(request.created_at.elapsed_millis(now)),
                None => None,
            };
            let leg_failures = self.outbound.take_failures(tracking_id.as_str());
            let status = OutboundCallStatus::Failed(classify_failure_reasons(&leg_failures));
            actions.push(
                Action::Diagnose {
                    tracking_id,
                    status,
                    diagnostics: OutboundCallDiagnostics {
                        phase: "sip_dial".to_owned(),
                        detail: Some("all outbound SIP legs failed".to_owned()),
                        elapsed_ms,
                        registration: None,
                        leg_failures,
                    },
                },
            );
        }
        actions
    }

    /// The remote side of a call offered T.38. Without a fax session for this
    /// instance of the call there is nothing to do with it.
    pub fn on_t38_offered(
        &self,
        call_id: CallId,
        remote_ip: String,
        remote_port: u16,
        local_port: u16,
    ) -> (actions: Vec<Action>)
        ensures
            action::action_views(actions@) == seq![
                t38_answer(self@, call_id, remote_ip@, remote_port, local_port),
            ],
    {
        let mut actions: Vec<Action> = Vec::new();
        match self.fax_sessions.get(call_id) {
            Some(entry) => {
                if calls::call_is_current(&self.sip_calls, call_id, entry.instance_id) {
                    actions.push(
                        Action::SwitchToT38 {
                            call_id,
                            session: entry.session,
                            remote_ip,
                            remote_port,
                            local_port,
                        },
                    );
                    return actions;
                }
            },
            None => {},
        }
        actions.push(hangup_action(call_id));
        actions
    }
}

/// What an event of the SIP stack does: the state and the forks after it, and
/// what is to be done.
pub open spec fn event_effect(
    event: SipEvent,
    sound: Option<String>,
    before: coordinator::CoordView,
    after: coordinator::CoordView,
    forks: fork_group::ForksView,
    forks_after: fork_group::ForksView,
    actions: Seq<action::ActionView>,
    now: Instant,
) -> bool {
    match event {
        SipEvent::IncomingCall { call_id, digest_auth, extension, source_ip } => {
            &&& after == before.call_came_in(call_id)
            &&& forks_after == forks
            &&& actions == seq![incoming_start(before, call_id, digest_auth, extension, sound)]
        },
        SipEvent::CallEnded { call_id } => {
            &&& after == before.call_ended(call_id)
            &&& forks_after == forks
            &&& actions == before.ending(call_id)
        },
        SipEvent::CallTimeout { call_id, rx_count } => {
            &&& after == before
            &&& forks_after == forks
            &&& actions == (if rx_count == 0 {
                report_if_tracked(before.calls, call_id, OutboundCallStatus::NoAudio)
            } else {
                Seq::empty()
            }) + seq![action::hangup(call_id)]
        },
        SipEvent::OutboundCallAnswered { tracking_id, call_id } => {
            &&& after == (coordinator::CoordView {
                outbound: before.outbound.without_failures(tracking_id@),
                ..before
            })
            &&& forks_after == forks.resolve(tracking_id@, now)
            &&& answer_effect(forks, tracking_id@, call_id, actions)
        },
        SipEvent::OutboundCallRinging { tracking_id, call_id, status_code, status_text } => {
            &&& after == before
            &&& forks_after == forks
            &&& actions == seq![ringing(tracking_id@, call_id, status_code, status_text@)]
        },
        SipEvent::OutboundCallFailed { tracking_id, failed_call_id, reason } => {
            let all_failed = match failed_call_id {
                Some(call) => forks.failure_resolves(tracking_id@, call.raw),
                None => true,
            };
            &&& after == before.leg_failed(tracking_id@, failed_call_id, reason@, all_failed)
            &&& forks_after == (match failed_call_id {
                Some(call) => forks.mark_failed(tracking_id@, call.raw, now),
                None => forks,
            })
            &&& actions == (if all_failed {
                seq![before.failing(tracking_id@, failed_call_id, reason@, now)]
            } else {
                Seq::empty()
            })
        },
        SipEvent::T38Offered { call_id, remote_ip, remote_port, local_port } => {
            &&& after == before
            &&& forks_after == forks
            &&& actions == seq![
                t38_answer(before, call_id, remote_ip@, remote_port, local_port),
            ]
        },
    }
}

impl BridgeCoordinator {
    /// An event of the SIP stack. For an incoming call, `sound` names the sound
    /// of its extension, if it has one.
    pub fn on_sip_event(
        &mut self,
        forks: &mut ForkGroups,
        event: SipEvent,
        sound: Option<String>,
        now: Instant,
    ) -> (actions: Vec<Action>)
        requires
            old(forks)@.wf(),
        ensures
            final(forks)@.wf(),
            event_effect(
                event,
                sound,
                old(self)@,
                final(self)@,
                old(forks)@,
                final(forks)@,
                action::action_views(actions@),
                now,
            ),
    {
        match event {
            SipEvent::IncomingCall { call_id, digest_auth, extension, source_ip: _ } => {
                self.on_incoming_call(call_id, digest_auth, extension, sound)
            },
            SipEvent::CallEnded { call_id } => self.on_call_ended(call_id),
            SipEvent::CallTimeout { call_id, rx_count } => self.on_call_timeout(call_id, rx_count),
            SipEvent::OutboundCallAnswered { tracking_id, call_id } => self.on_outbound_answered(
                forks,
                tracking_id,
                call_id,
                now,
            ),
            SipEvent::OutboundCallRinging { tracking_id, call_id, status_code, status_text } => {
                BridgeCoordinator::on_outbound_ringing(
                    tracking_id,
                    call_id,
                    status_code,
                    status_text,
                )
            },
            SipEvent::OutboundCallFailed { tracking_id, failed_call_id, reason } => {
                self.on_outbound_failed(forks, tracking_id, failed_call_id, reason, now)
            },
            SipEvent::T38Offered { call_id, remote_ip, remote_port, local_port } => {
                self.on_t38_offered(call_id, remote_ip, remote_port, local_port)
            },
        }
    }
}

// Laws

/// The end of a call touches no other call, and no bridge but that of its own
/// channel.
pub proof fn law_call_end_is_local(
    state: coordinator::CoordView,
    call: CallId,
    other: CallId,
    channel: Snowflake,
)
    requires
        other != call,
        state.channel_of(call) != Some(channel),
    ensures
        state.call_ended(call).calls.calls.contains_key(other.raw)
            == state.calls.calls.contains_key(other.raw),
        state.calls.calls.contains_key(other.raw) ==> state.call_ended(call).calls.calls[other.raw]
            == state.calls.calls[other.raw],
        state.call_ended(call).is_fax(other) == state.is_fax(other),
        state.call_ended(call).bridges.has(channel) == state.bridges.has(channel),
        state.bridges.has(channel) ==> state.call_ended(call).bridges.bridges[channel.raw]
            == state.bridges.bridges[channel.raw],
{
    assert(other.raw != call.raw);
    if let Some(own) = state.channel_of(call) {
        assert(own.raw != channel.raw);
    }
}

/// After a voice call ended, nothing of it is left.
pub proof fn law_ended_call_is_gone(state: coordinator::CoordView, call: CallId, instance: u64)
    requires
        !state.is_fax(call),
    ensures
        !state.call_ended(call).calls.is_current(call, instance),
        state.channel_of(call) matches Some(channel) ==> (state.call_ended(call).bridges.has(channel)
            ==> !state.call_ended(call).bridges.bridges[channel.raw].calls.contains(call.raw)),
{
}

/// The last caller who leaves takes the bridge of the channel down: the bridge
/// is gone and its connection is given up. As long as others are on the bridge,
/// it and its connection stay.
pub proof fn law_last_caller_takes_bridge_down(
    state: coordinator::CoordView,
    call: CallId,
    channel: Snowflake,
    k: int,
)
    requires
        !state.is_fax(call),
        state.channel_of(call) == Some(channel),
        state.bridges.has(channel),
    ensures
        ({
            let after = state.call_ended(call).bridges;
            let actions = state.ending(call);
            let connection = state.bridges.bridges[channel.raw].connection;
            if state.bridges.last_leaves(channel, call) {
                &&& !after.has(channel)
                &&& actions.last() == (action::ActionView::Disconnect { connection })
            } else {
                &&& after.has(channel)
                &&& after.bridges[channel.raw].connection == connection
                &&& 0 <= k < actions.len() ==> !(actions[k] is Disconnect)
            }
        }),
{
}

/// A call that came in is current, in an instance of its own.
pub proof fn law_new_call_is_current(state: coordinator::CoordView, call: CallId, stale: u64)
    requires
        stale != state.calls.next_instance,
    ensures
        state.call_came_in(call).calls.is_current(call, state.calls.next_instance),
        !state.call_came_in(call).calls.is_current(call, stale),
{
}

} // verus!
