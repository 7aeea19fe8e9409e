//! Outbound calls: the commands of the backend and the answered call.

use crate::call::action;
use crate::call::action::{hangup_action, push_actions, Action};
use crate::call::bridges;
use crate::call::bridges::{ChannelBridge, PendingBridgeLease};
use crate::call::calls;
use crate::call::calls::{
    call_is_current, remove_call_if_current, take_outbound_call_legs, SipCallInfo,
};
use crate::call::coordinator;
use crate::call::coordinator::{brief_diagnostics, BridgeCoordinator};
use crate::call::sip_events;
use crate::call::sip_events::drop_leg_actions;
use crate::call::sounds;
use crate::ids::{CallId, Snowflake};
use crate::routing;
use crate::routing::{
    OutboundCallDiagnostics, OutboundCallFailureReason, OutboundCallRequest, OutboundCallStatus,
    RegistrationDiagnostics,
};
use crate::services::registrar;
use crate::services::registrar::{Registrar, SipTransport, SourceAddr};
use crate::table;
use crate::table::set_to_vec;
use crate::text;
use crate::text::{
    after_prefix, decimal_of, find_char, from_chars, push_chars, push_str, signed_decimal_of,
    slice_of, to_chars,
};
use crate::time;
use crate::time::Instant;
use crate::transport::sip::fork_group;
use crate::transport::sip::fork_group::ForkGroups;
use crate::transport::sip::register_handler;
use crate::transport::sip::register_handler::uri_over_transport;
use crate::transport::sip::types;
use crate::transport::sip::types::SipCommand;
use std::collections::HashSet;
use vstd::prelude::*;

verus! {

broadcast use {action::group_actions, vstd::std_specs::hash::group_hash_axioms};

/// The calls of a set of numbers, each once.
fn call_list(set: &HashSet<i32>) -> (list: Vec<CallId>)
    ensures
        table::enumerates(fork_group::raw_ids(list@), set@),
{
    let raw = set_to_vec(set);
    let mut list: Vec<CallId> = Vec::new();
    for i in 0..raw.len()
        invariant
            fork_group::raw_ids(list@) == raw@.take(i as int),
    {
        let ghost before = list@;
        list.push(CallId { raw: raw[i] });
        assert(fork_group::raw_ids(list@) =~= fork_group::raw_ids(before).push(raw@[i as int]));
        assert(raw@.take(i + 1) =~= raw@.take(i as int).push(raw@[i as int]));
    }
    assert(raw@.take(raw@.len() as int) =~= raw@);
    list
}

/// The user of a Contact URI: what stands between the scheme and the first `@`.
/// A URI of another scheme does not tell it.
pub open spec fn contact_user(uri: Seq<char>, fallback: Seq<char>) -> Seq<char> {
    if text::starts_with(uri, "sip:"@) {
        let rest = uri.skip("sip:"@.len() as int);
        rest.take(text::next_char(rest, '@', 0))
    } else if text::starts_with(uri, "sips:"@) {
        let rest = uri.skip("sips:"@.len() as int);
        rest.take(text::next_char(rest, '@', 0))
    } else {
        fallback
    }
}

/// The user of a Contact URI, `fallback` where it does not tell it.
pub fn contact_user_of(uri: &str, fallback: &str) -> (user: Vec<char>)
    ensures
        user@ == contact_user(uri@, fallback@),
{
    let chars = to_chars(uri);
    let rest = match after_prefix(&chars, "sip:") {
        Some(rest) => rest,
        None => match after_prefix(&chars, "sips:") {
            Some(rest) => rest,
            None => {
                return to_chars(fallback);
            },
        },
    };
    let end = find_char(&rest, '@', 0);
    let user = slice_of(&rest, 0, end);
    assert(user@ =~= rest@.take(end as int));
    user
}

/// The URI that is dialed for a phone: its user at the address that its
/// registration came from, over the same transport.
pub open spec fn dial_uri(route: registrar::ContactRoute, fallback: Seq<char>) -> Seq<char> {
    register_handler::transport_uri(
        contact_user(route.uri, fallback) + "@"@ + registrar::addr_text(route.source_addr),
        route.transport,
    )
}

/// The command that dials a phone.
pub open spec fn dial(
    request: routing::OutboundRequestView,
    route: registrar::ContactRoute,
    fork_total: nat,
) -> action::ActionView {
    action::ActionView::Sip {
        command: types::SipCommandView::MakeOutboundCall {
            tracking_id: request.call_id,
            sip_uri: dial_uri(route, request.discord_username),
            caller_display_name: Some(request.caller_username),
            fork_total,
        },
    }
}

/// The milliseconds since a request was made.
pub open spec fn request_age(request: routing::OutboundRequestView, now: Instant) -> Option<u64> {
    Some(time::millis_between(request.created_at, now) as u64)
}

/// A report on an outbound call that failed inside the bridge.
pub open spec fn internal_failure(
    request: routing::OutboundRequestView,
    phase: Seq<char>,
    detail: Seq<char>,
    now: Instant,
) -> action::ActionView {
    action::ActionView::Diagnose {
        tracking_id: request.call_id,
        status: OutboundCallStatus::Failed(OutboundCallFailureReason::Internal),
        diagnostics: coordinator::brief(phase, detail, request_age(request, now)),
    }
}

fn internal_failure_action(
    request: &OutboundCallRequest,
    phase: &str,
    detail: String,
    now: Instant,
) -> (a: Action)
    ensures
        a@ == internal_failure(request@, phase@, detail@, now),
{
    let elapsed_ms = Some(request.created_at.elapsed_millis(now));
    Action::Diagnose {
        tracking_id: request.call_id.clone(),
        status: OutboundCallStatus::Failed(OutboundCallFailureReason::Internal),
        diagnostics: brief_diagnostics(phase, detail, elapsed_ms),
    }
}

/// A registrar snapshot in the model, if there is one.
pub open spec fn opt_registration(r: Option<RegistrationDiagnostics>) -> Option<
    routing::RegistrationDiagnosticsView,
> {
    match r {
        Some(d) => Some(d@),
        None => None,
    }
}

/// A report on an outbound call with a registrar snapshot.
pub open spec fn report_with_registration(
    request: routing::OutboundRequestView,
    status: OutboundCallStatus,
    phase: Seq<char>,
    detail: Seq<char>,
    registration: Option<routing::RegistrationDiagnosticsView>,
    now: Instant,
) -> action::ActionView {
    action::ActionView::Diagnose {
        tracking_id: request.call_id,
        status,
        diagnostics: routing::DiagnosticsView {
            registration,
            ..coordinator::brief(phase, detail, request_age(request, now))
        },
    }
}

fn report_with_registration_action(
    request: &OutboundCallRequest,
    status: OutboundCallStatus,
    phase: &str,
    detail: String,
    registration: Option<RegistrationDiagnostics>,
    now: Instant,
) -> (a: Action)
    ensures
        a@ == report_with_registration(
            request@,
            status,
            phase@,
            detail@,
            opt_registration(registration),
            now,
        ),
{
    let elapsed_ms = Some(request.created_at.elapsed_millis(now));
    let brief = brief_diagnostics(phase, detail, elapsed_ms);
    Action::Diagnose {
        tracking_id: request.call_id.clone(),
        status,
        diagnostics: OutboundCallDiagnostics { registration, ..brief },
    }
}

/// What starting an outbound call asks for: all phones are dialed at once.
pub open spec fn starting(
    request: routing::OutboundRequestView,
    routes: Seq<registrar::ContactRoute>,
    registration: Option<routing::RegistrationDiagnosticsView>,
    now: Instant,
) -> Seq<action::ActionView> {
    if routes.len() == 0 {
        seq![
            report_with_registration(
                request,
                OutboundCallStatus::Unavailable,
                "registration_lookup"@,
                "no active SIP contacts on this bridge"@,
                registration,
                now,
            ),
        ]
    } else {
        routes.map_values(|route: registrar::ContactRoute| dial(request, route, routes.len()))
            + seq![
            report_with_registration(
                request,
                OutboundCallStatus::Dialing,
                "sip_dial"@,
                "queued "@ + text::decimal(routes.len()) + " outbound SIP leg(s)"@,
                registration,
                now,
            ),
        ]
    }
}

impl coordinator::CoordView {
    /// The state after an outbound call was started.
    pub open spec fn outbound_started(
        self,
        request: routing::OutboundRequestView,
        routes: Seq<registrar::ContactRoute>,
    ) -> coordinator::CoordView {
        if routes.len() == 0 {
            self
        } else {
            coordinator::CoordView { outbound: self.outbound.with_request(request), ..self }
        }
    }

    /// The state after an outbound call was cancelled.
    pub open spec fn outbound_cancelled(self, id: Seq<char>) -> coordinator::CoordView {
        coordinator::CoordView {
            outbound: self.outbound.without_request(id).without_failures(id),
            ..self
        }
    }

    /// The state after the request of an answered call was taken.
    pub open spec fn request_taken(self, id: Seq<char>) -> coordinator::CoordView {
        coordinator::CoordView { outbound: self.outbound.without_request(id), ..self }
    }

    /// The call of an answered request, as it is put in.
    pub open spec fn answered_call(self, guild: Snowflake, tracking_id: Seq<char>) -> calls::CallView {
        calls::CallView {
            guild_id: Some(guild),
            tracking_id: Some(tracking_id),
            ..calls::CallView::fresh(self.calls.next_instance)
        }
    }

    /// Whether a channel stands in the way of an answered outbound call: its
    /// guild has a bridge, to whatever channel, or the channel is pending.
    pub open spec fn outbound_conflict(
        self,
        guild: Snowflake,
        channel: Snowflake,
        conflict: Option<Snowflake>,
    ) -> bool {
        match conflict {
            Some(existing) => {
                ||| self.bridges.conflicts(guild, None, existing.raw)
                ||| !self.bridges.has_conflict(guild, None) && self.bridges.is_pending(channel)
                    && existing == channel
            },
            None => !self.bridges.has_conflict(guild, None) && !self.bridges.is_pending(channel),
        }
    }

    /// The state after an answered request was looked at.
    pub open spec fn outbound_begun(
        self,
        tracking_id: Seq<char>,
        call: CallId,
        guild: Snowflake,
        channel: Snowflake,
        conflict: Option<Snowflake>,
    ) -> coordinator::CoordView {
        let numbered = self.calls.numbered();
        if conflict is Some {
            coordinator::CoordView { calls: numbered.without(call), ..self }
        } else {
            coordinator::CoordView {
                calls: numbered.with(call, self.answered_call(guild, tracking_id)),
                bridges: self.bridges.leased(channel),
                ..self
            }
        }
    }

    /// The state after Discord was connected for an answered call.
    pub open spec fn outbound_connected(
        self,
        request: routing::OutboundRequestView,
        call: CallId,
        instance: u64,
        guild: Snowflake,
        channel: Snowflake,
        connection: Option<u64>,
        now: Instant,
    ) -> coordinator::CoordView {
        let released = self.bridges.released(channel);
        match connection {
            Some(key) => if self.calls.is_current(call, instance) {
                coordinator::CoordView {
                    calls: self.calls.with(
                        call,
                        calls::CallView {
                            channel_id: Some(channel),
                            guild_id: Some(guild),
                            ..self.calls.calls[call.raw]
                        },
                    ),
                    bridges: released.with(
                        channel,
                        bridges::BridgeView::fresh(guild, key, call, request.bot_token, now),
                    ),
                    ..self
                }
            } else {
                coordinator::CoordView { bridges: released, ..self }
            },
            None => coordinator::CoordView {
                calls: self.calls.without_current(call, instance),
                bridges: released,
                ..self
            },
        }
    }
}

/// What a conflict of an answered outbound call asks for.
pub open spec fn conflict_detail(existing: Snowflake, channel: Snowflake) -> Seq<char> {
    "guild already active on channel "@ + text::decimal(existing.raw as nat) + "; requested "@
        + text::decimal(channel.raw as nat)
}

/// The name of the bridge of a channel.
pub open spec fn bridge_name(channel: Snowflake) -> Seq<char> {
    "bridge_"@ + text::decimal(channel.raw as nat)
}

/// The name of the bridge of a channel.
pub fn bridge_id(channel_id: Snowflake) -> (name: String)
    ensures
        name@ == bridge_name(channel_id),
{
    let mut out = to_chars("bridge_");
    push_chars(&mut out, &decimal_of(channel_id.raw));
    from_chars(&out)
}

/// What an answered request with valid ids asks for.
pub open spec fn beginning(
    request: routing::OutboundRequestView,
    call: CallId,
    guild: Snowflake,
    channel: Snowflake,
    conflict: Option<Snowflake>,
    connecting: Option<Seq<i16>>,
    now: Instant,
) -> Seq<action::ActionView> {
    sounds::connecting_loop(call, connecting) + (match conflict {
        Some(existing) => seq![
            internal_failure(
                request,
                "discord_preflight"@,
                conflict_detail(existing, channel),
                now,
            ),
            action::hangup(call),
        ],
        None => seq![
            action::ActionView::Connect {
                bridge_id: bridge_name(channel),
                guild_id: guild,
                channel_id: channel,
            },
        ],
    })
}

/// What an answered request with an invalid id asks for.
pub open spec fn invalid_request(
    request: routing::OutboundRequestView,
    call: CallId,
    what: Seq<char>,
    error: Seq<char>,
    now: Instant,
) -> Seq<action::ActionView> {
    seq![
        internal_failure(request, "request_validation"@, what + error, now),
        action::hangup(call),
    ]
}

/// "SIP call {call} connected to Discord channel {channel}".
pub open spec fn connected_detail(call: CallId, channel: Snowflake) -> Seq<char> {
    "SIP call "@ + text::signed_decimal(call.raw as int) + " connected to Discord channel "@
        + text::decimal(channel.raw as nat)
}

/// What the outcome of the connection asks for.
pub open spec fn connecting_ended(
    calls: calls::CallsView,
    request: routing::OutboundRequestView,
    call: CallId,
    instance: u64,
    channel: Snowflake,
    outcome: Result<u64, Seq<char>>,
    join: Option<Seq<i16>>,
    now: Instant,
) -> Seq<action::ActionView> {
    (match outcome {
        Ok(connection) => if calls.is_current(call, instance) {
            seq![
                action::ActionView::SetupRings { channel_id: channel },
                action::ActionView::RegisterCallChannel { call_id: call, channel_id: channel },
                action::ActionView::Diagnose {
                    tracking_id: request.call_id,
                    status: OutboundCallStatus::Connected,
                    diagnostics: coordinator::brief(
                        "discord_connected"@,
                        connected_detail(call, channel),
                        request_age(request, now),
                    ),
                },
                action::ActionView::ForgetOutbound { call_id: call },
            ] + sounds::join_sound(call, join)
        } else {
            seq![action::ActionView::Disconnect { connection }]
        },
        Err(error) => if calls.is_current(call, instance) {
            seq![
                internal_failure(request, "discord_connect"@, error, now),
                action::hangup(call),
            ]
        } else {
            seq![]
        },
    }) + seq![action::ActionView::WakeWaiters { channel_id: channel }]
}

/// An answered outbound call that waits for Discord.
#[derive(Debug)]
pub struct AnsweredCall {
    pub request: OutboundCallRequest,
    pub call_id: CallId,
    pub instance_id: u64,
    pub guild_id: Snowflake,
    pub lease: PendingBridgeLease,
}

/// The start of an answered outbound call.
#[derive(Debug)]
pub struct AnsweredStart {
    pub actions: Vec<Action>,
    /// The channel that stood in the way.
    pub conflict: Option<Snowflake>,
    /// What waits for Discord, if nothing stood in the way.
    pub waiting: Option<AnsweredCall>,
}

/// The contents of a result with an error text.
pub open spec fn outcome_view(outcome: Result<u64, String>) -> Result<u64, Seq<char>> {
    match outcome {
        Ok(connection) => Ok(connection),
        Err(error) => Err(error@),
    }
}

impl BridgeCoordinator {
    /// The backend cancels an outbound call: all its legs are dropped, in an
    /// order that is not stated.
    pub fn on_outbound_cancel(&mut self, forks: &mut ForkGroups, id: &str, now: Instant) -> (actions:
        Vec<Action>)
        requires
            old(forks)@.wf(),
        ensures
            final(forks)@.wf(),
            final(forks)@ == old(forks)@.resolve(id@, now),
            final(self)@ == old(self)@.outbound_cancelled(id@),
            exists|legs: Seq<CallId>|
                table::enumerates(
                    fork_group::raw_ids(legs),
                    old(forks)@.live_legs(id@) + old(self)@.calls.legs_of(id@),
                ) && action::action_views(actions@) == #[trigger] sip_events::drop_legs(legs),
    {
        let _ = self.outbound.take_request(id);
        let _ = self.outbound.take_failures(id);
        let legs = take_outbound_call_legs(id, &self.sip_calls, forks, now);
        let list = call_list(&legs);
        drop_leg_actions(&list)
    }

    /// The backend asks for a user's phones to be called. `contacts` are the
    /// phones, and `registration` a registrar snapshot.
    pub fn start_outbound(
        &mut self,
        request: OutboundCallRequest,
        contacts: &Vec<(String, SourceAddr, SipTransport)>,
        registration: Option<RegistrationDiagnostics>,
        now: Instant,
    ) -> (actions: Vec<Action>)
        ensures
            final(self)@ == old(self)@.outbound_started(
                request@,
                registrar::route_views(contacts@),
            ),
            action::action_views(actions@) == starting(
                request@,
                registrar::route_views(contacts@),
                opt_registration(registration),
                now,
            ),
    {
        let ghost routes = registrar::route_views(contacts@);
        let mut actions: Vec<Action> = Vec::new();
        let fork_total: usize = contacts.len();
        if fork_total == 0 {
            actions.push(
                report_with_registration_action(
                    &request,
                    OutboundCallStatus::Unavailable,
                    "registration_lookup",
                    "no active SIP contacts on this bridge".to_owned(),
                    registration,
                    now,
                ),
            );
            return actions;
        }
        self.outbound.insert_request(request.clone());
        let ghost dials = routes.map_values(
            |route: registrar::ContactRoute| dial(request@, route, routes.len()),
        );
        for i in 0..contacts.len()
            invariant
                routes == registrar::route_views(contacts@),
                fork_total == contacts@.len(),
                dials == routes.map_values(
                    |route: registrar::ContactRoute| dial(request@, route, routes.len()),
                ),
                action::action_views(actions@) == dials.take(i as int),
        {
            let mut authority = contact_user_of(
                contacts[i].0.as_str(),
                request.discord_username.as_str(),
            );
            push_str(&mut authority, "@");
            push_str(&mut authority, contacts[i].1.to_text().as_str());
            let uri = uri_over_transport(&authority, contacts[i].2);
            assert(routes[i as int] == registrar::route_view(contacts@[i as int]));
            assert(authority@ =~= contact_user(
                routes[i as int].uri,
                request.discord_username@,
            ) + "@"@ + registrar::addr_text(routes[i as int].source_addr));
            actions.push(
                Action::Sip {
                    command: SipCommand::MakeOutboundCall {
                        tracking_id: request.call_id.clone(),
                        sip_uri: from_chars(&uri),
                        caller_display_name: Some(request.caller_username.clone()),
                        fork_total,
                    },
                },
            );
            assert(dials.take(i + 1) =~= dials.take(i as int).push(dials[i as int]));
        }
        assert(dials.take(dials.len() as int) =~= dials);
        let mut detail = to_chars("queued ");
        push_chars(&mut detail, &decimal_of(fork_total as u64));
        push_str(&mut detail, " outbound SIP leg(s)");
        actions.push(
            report_with_registration_action(
                &request,
                OutboundCallStatus::Dialing,
                "sip_dial",
                from_chars(&detail),
                registration,
                now,
            ),
        );
        assert(action::action_views(actions@) =~= starting(
            request@,
            routes,
            opt_registration(registration),
            now,
        ));
        actions
    }

    /// The backend asks for a user's phones to be called. Without a registrar
    /// there are none.
    pub fn on_outbound_start(
        &mut self,
        request: OutboundCallRequest,
        registrar: Option<&Registrar>,
        now: Instant,
    ) -> (actions: Vec<Action>)
        ensures
            registrar is None ==> final(self)@ == old(self)@ && action::action_views(actions@)
                == starting(request@, Seq::empty(), None, now),
            registrar matches Some(r) ==> ({
                let routes = r@.active(request@.discord_user_id, now).map_values(
                    |reg: registrar::RegistrationView| registrar::route_of(reg),
                );
                &&& final(self)@ == old(self)@.outbound_started(request@, routes)
                &&& exists|order: Seq<Seq<char>>|
                    table::enumerates(order, r@.registrations.dom()) && action::action_views(
                        actions@,
                    ) == starting(
                        request@,
                        routes,
                        Some(#[trigger] r@.diagnostics(order, request@.discord_user_id, now)),
                        now,
                    )
            }),
    {
        match registrar {
            Some(registrar) => {
                let contacts = registrar.get_contacts_for_discord_user_id(
                    request.discord_user_id.as_str(),
                    now,
                );
                let registration = registrar.diagnostics_for_discord_user_id(
                    request.discord_user_id.as_str(),
                    now,
                );
                self.start_outbound(request, &contacts, Some(registration), now)
            },
            None => {
                let contacts: Vec<(String, SourceAddr, SipTransport)> = Vec::new();
                assert(registrar::route_views(contacts@) =~= Seq::<
                    registrar::ContactRoute,
                >::empty());
                self.start_outbound(request, &contacts, None, now)
            },
        }
    }

    /// Takes the request of an answered outbound call. Without one the call is
    /// hung up.
    pub fn take_answered_request(&mut self, tracking_id: &str, call_id: CallId) -> (r: Result<
        OutboundCallRequest,
        Vec<Action>,
    >)
        ensures
            final(self)@ == old(self)@.request_taken(tracking_id@),
            r is Ok <==> old(self)@.outbound.requests.contains_key(tracking_id@),
            r matches Ok(request) ==> request@ == old(self)@.outbound.requests[tracking_id@],
            r matches Err(actions) ==> action::action_views(actions@) == seq![
                action::hangup(call_id),
            ],
    {
        match self.outbound.take_request(tracking_id) {
            Some(request) => Ok(request),
            None => {
                let mut actions: Vec<Action> = Vec::new();
                actions.push(hangup_action(call_id));
                Err(actions)
            },
        }
    }

    /// An answered outbound call whose guild and channel are known: its bridge
    /// is created, unless a bridge of the guild stands in the way.
    pub fn begin_answered(
        &mut self,
        request: OutboundCallRequest,
        tracking_id: String,
        call_id: CallId,
        guild_id: Snowflake,
        channel_id: Snowflake,
        connecting: Option<Vec<i16>>,
        now: Instant,
    ) -> (start: AnsweredStart)
        ensures
            old(self)@.outbound_conflict(guild_id, channel_id, start.conflict),
            final(self)@ == old(self)@.outbound_begun(
                tracking_id@,
                call_id,
                guild_id,
                channel_id,
                start.conflict,
            ),
            action::action_views(start.actions@) == beginning(
                request@,
                call_id,
                guild_id,
                channel_id,
                start.conflict,
                sounds::opt_samples(connecting),
                now,
            ),
            start.waiting is Some <==> start.conflict is None,
            start.waiting matches Some(waiting) ==> {
                &&& waiting.request@ == request@
                &&& waiting.call_id == call_id
                &&& waiting.instance_id == old(self)@.calls.next_instance
                &&& waiting.guild_id == guild_id
                &&& waiting.lease.channel_id == channel_id
            },
    {
        let ghost before = self@;
        let instance_id = self.sip_calls.next_call_instance_id();
        self.sip_calls.insert(
            call_id,
            SipCallInfo {
                instance_id,
                channel_id: None,
                _user_id: None,
                _guild_id: Some(guild_id),
                tracking_id: Some(tracking_id),
            },
        );
        let mut actions = sounds::connecting_loop_actions(call_id, connecting);
        let conflict = match self.bridges.conflicting_channel(guild_id, None) {
            Some(existing) => Some(existing),
            None => if self.bridges.is_pending(channel_id) {
                Some(channel_id)
            } else {
                None
            },
        };
        let lease = match conflict {
            Some(_) => None,
            None => PendingBridgeLease::try_acquire(channel_id, &mut self.bridges),
        };
        match (conflict, lease) {
            (None, Some(lease)) => {
                actions.push(
                    Action::Connect { bridge_id: bridge_id(channel_id), guild_id, channel_id },
                );
                let ghost want = beginning(
                    request@,
                    call_id,
                    guild_id,
                    channel_id,
                    None,
                    sounds::opt_samples(connecting),
                    now,
                );
                assert(action::action_views(actions@) =~= want);
                AnsweredStart {
                    actions,
                    conflict: None,
                    waiting: Some(
                        AnsweredCall { request, call_id, instance_id, guild_id, lease },
                    ),
                }
            },
            (conflict, _) => {
                let existing = match conflict {
                    Some(existing) => existing,
                    None => channel_id,
                };
                let mut detail = to_chars("guild already active on channel ");
                push_chars(&mut detail, &decimal_of(existing.raw));
                push_str(&mut detail, "; requested ");
                push_chars(&mut detail, &decimal_of(channel_id.raw));
                actions.push(
                    internal_failure_action(
                        &request,
                        "discord_preflight",
                        from_chars(&detail),
                        now,
                    ),
                );
                actions.push(hangup_action(call_id));
                let _ = remove_call_if_current(&mut self.sip_calls, call_id, instance_id);
                let ghost want = beginning(
                    request@,
                    call_id,
                    guild_id,
                    channel_id,
                    Some(existing),
                    sounds::opt_samples(connecting),
                    now,
                );
                assert(action::action_views(actions@) =~= want);
                assert(self@.calls.calls =~= before.calls.numbered().without(call_id).calls);
                AnsweredStart { actions, conflict: Some(existing), waiting: None }
            },
        }
    }

    /// An answered outbound call, with the ids of its request as they were
    /// read: an id that is not valid fails the call.
    pub fn on_answered_request(
        &mut self,
        request: OutboundCallRequest,
        tracking_id: String,
        call_id: CallId,
        guild_id: Result<Snowflake, String>,
        channel_id: Result<Snowflake, String>,
        connecting: Option<Vec<i16>>,
        now: Instant,
    ) -> (start: AnsweredStart)
        ensures
            guild_id matches Err(error) ==> final(self)@ == old(self)@ && start.waiting is None
                && start.conflict is None && action::action_views(start.actions@)
                == invalid_request(request@, call_id, "invalid guild_id: "@, error@, now),
            (guild_id is Ok && channel_id is Err) ==> final(self)@ == old(self)@
                && start.waiting is None && start.conflict is None && action::action_views(
                start.actions@,
            ) == invalid_request(
                request@,
                call_id,
                "invalid channel_id: "@,
                channel_id->Err_0@,
                now,
            ),
            (guild_id is Ok && channel_id is Ok) ==> {
                let guild = guild_id->Ok_0;
                let channel = channel_id->Ok_0;
                &&& old(self)@.outbound_conflict(guild, channel, start.conflict)
                &&& final(self)@ == old(self)@.outbound_begun(
                    tracking_id@,
                    call_id,
                    guild,
                    channel,
                    start.conflict,
                )
                &&& action::action_views(start.actions@) == beginning(
                    request@,
                    call_id,
                    guild,
                    channel,
                    start.conflict,
                    sounds::opt_samples(connecting),
                    now,
                )
                &&& start.waiting is Some <==> start.conflict is None
                &&& start.waiting matches Some(waiting) ==> {
                    &&& waiting.request@ == request@
                    &&& waiting.call_id == call_id
                    &&& waiting.instance_id == old(self)@.calls.next_instance
                    &&& waiting.guild_id == guild
                    &&& waiting.lease.channel_id == channel
                }
            },
    {
        let (what, error) = match (guild_id, channel_id) {
            (Ok(guild), Ok(channel)) => {
                return self.begin_answered(
                    request,
                    tracking_id,
                    call_id,
                    guild,
                    channel,
                    connecting,
                    now,
                );
            },
            (Err(error), _) => ("invalid guild_id: ", error),
            (Ok(_), Err(error)) => ("invalid channel_id: ", error),
        };
        let mut detail = to_chars(what);
        push_str(&mut detail, error.as_str());
        let mut actions: Vec<Action> = Vec::new();
        actions.push(
            internal_failure_action(&request, "request_validation", from_chars(&detail), now),
        );
        actions.push(hangup_action(call_id));
        assert(action::action_views(actions@) =~= invalid_request(
            request@,
            call_id,
            what@,
            error@,
            now,
        ));
        AnsweredStart { actions, conflict: None, waiting: None }
    }

    /// The outcome of the connection to Discord for an answered outbound call:
    /// the key of the connection or an error. If the call has ended meanwhile,
    /// a connection is given up and an error is not reported.
    pub fn on_answered_connected(
        &mut self,
        waiting: AnsweredCall,
        outcome: Result<u64, String>,
        join: Option<Vec<i16>>,
        now: Instant,
    ) -> (actions: Vec<Action>)
        ensures
            final(self)@ == old(self)@.outbound_connected(
                waiting.request@,
                waiting.call_id,
                waiting.instance_id,
                waiting.guild_id,
                waiting.lease.channel_id,
                outcome.ok(),
                now,
            ),
            action::action_views(actions@) == connecting_ended(
                old(self)@.calls,
                waiting.request@,
                waiting.call_id,
                waiting.instance_id,
                waiting.lease.channel_id,
                outcome_view(outcome),
                sounds::opt_samples(join),
                now,
            ),
    {
        let ghost before = self@;
        let AnsweredCall { request, call_id, instance_id, guild_id, lease } = waiting;
        let channel_id = lease.channel_id;
        let current = call_is_current(&self.sip_calls, call_id, instance_id);
        let mut actions: Vec<Action> = Vec::new();
        match outcome {
            Ok(connection) => {
                if current {
                    actions.push(Action::SetupRings { channel_id });
                    let mut on_bridge: HashSet<i32> = HashSet::new();
                    on_bridge.insert(call_id.raw);
                    assert(on_bridge@ =~= set![call_id.raw]);
                    let bridge = ChannelBridge {
                        guild_id,
                        discord_connection: connection,
                        sip_calls: on_bridge,
                        bot_token: request.bot_token.clone(),
                        last_call_time: now,
                        created_at: now,
                        reconnect_attempts: 0,
                        last_reconnect_at: None,
                    };
                    self.bridges.insert(channel_id, bridge);
                    match self.sip_calls.remove(call_id) {
                        Some(info) => {
                            let joined = SipCallInfo {
                                channel_id: Some(channel_id),
                                _guild_id: Some(guild_id),
                                ..info
                            };
                            self.sip_calls.insert(call_id, joined);
                        },
                        None => {},
                    }
                    actions.push(Action::RegisterCallChannel { call_id, channel_id });
                    let mut detail = to_chars("SIP call ");
                    push_chars(&mut detail, &signed_decimal_of(call_id.raw));
                    push_str(&mut detail, " connected to Discord channel ");
                    push_chars(&mut detail, &decimal_of(channel_id.raw));
                    let elapsed_ms = Some(request.created_at.elapsed_millis(now));
                    actions.push(
                        Action::Diagnose {
                            tracking_id: request.call_id.clone(),
                            status: OutboundCallStatus::Connected,
                            diagnostics: brief_diagnostics(
                                "discord_connected",
                                from_chars(&detail),
                                elapsed_ms,
                            ),
                        },
                    );
                    actions.push(Action::ForgetOutbound { call_id });
                    push_actions(&mut actions, sounds::play_discord_join(call_id, join));
                } else {
                    actions.push(Action::Disconnect { connection });
                }
            },
            Err(error) => {
                if current {
                    actions.push(internal_failure_action(&request, "discord_connect", error, now));
                    actions.push(hangup_action(call_id));
                    let _ = remove_call_if_current(&mut self.sip_calls, call_id, instance_id);
                }
            },
        }
        actions.push(lease.release(&mut self.bridges));
        let ghost want = connecting_ended(
            before.calls,
            request@,
            call_id,
            instance_id,
            channel_id,
            outcome_view(outcome),
            sounds::opt_samples(join),
            now,
        );
        assert(action::action_views(actions@) =~= want);
        let ghost state = before.outbound_connected(
            request@,
            call_id,
            instance_id,
            guild_id,
            channel_id,
            outcome.ok(),
            now,
        );
        assert(self@.calls.calls =~= state.calls.calls);
        assert(self@.bridges.bridges =~= state.bridges.bridges);
        actions
    }
}

// Laws

/// When Discord is connected too late for a call that has ended, nothing is
/// reported and no command is sent; the connection is given up.
pub proof fn law_late_connection_is_given_up(
    state: coordinator::CoordView,
    request: routing::OutboundRequestView,
    call: CallId,
    instance: u64,
    guild: Snowflake,
    channel: Snowflake,
    outcome: Result<u64, Seq<char>>,
    join: Option<Seq<i16>>,
    now: Instant,
)
    requires
        !state.calls.is_current(call, instance),
    ensures
        ({
            let actions = connecting_ended(
                state.calls,
                request,
                call,
                instance,
                channel,
                outcome,
                join,
                now,
            );
            let after = state.outbound_connected(
                request,
                call,
                instance,
                guild,
                channel,
                outcome.ok(),
                now,
            );
            &&& forall|k: int|
                0 <= k < actions.len() ==> !((#[trigger] actions[k]) is Sip) && !(
                actions[k] is Diagnose)
            &&& outcome matches Ok(connection) ==> actions[0]
                == (action::ActionView::Disconnect { connection })
            &&& after.calls == state.calls
            &&& after.bridges.bridges == state.bridges.bridges
            &&& !after.bridges.is_pending(channel)
        }),
{
}

/// A connected outbound call is on the bridge of its channel before it hears
/// that, and its end is from then on the end of a call, not a failed leg.
pub proof fn law_connected_outbound_call_is_on_its_bridge(
    state: coordinator::CoordView,
    request: routing::OutboundRequestView,
    call: CallId,
    instance: u64,
    guild: Snowflake,
    channel: Snowflake,
    connection: u64,
    join: Option<Seq<i16>>,
    now: Instant,
)
    requires
        state.calls.is_current(call, instance),
    ensures
        ({
            let actions = connecting_ended(
                state.calls,
                request,
                call,
                instance,
                channel,
                Ok(connection),
                join,
                now,
            );
            let after = state.outbound_connected(
                request,
                call,
                instance,
                guild,
                channel,
                Some(connection),
                now,
            );
            &&& after.bridges.has(channel)
            &&& after.bridges.bridges[channel.raw].calls.contains(call.raw)
            &&& after.channel_of(call) == Some(channel)
            &&& after.calls.tracking_of(call) == state.calls.tracking_of(call)
            &&& actions[0] == (action::ActionView::SetupRings { channel_id: channel })
            &&& actions[3] == (action::ActionView::ForgetOutbound { call_id: call })
        }),
{
}

/// An outbound call never takes a guild's bot away from its channel: as long as
/// the guild has a bridge or the channel is pending, no connection is asked for
/// and no bridge is touched.
pub proof fn law_outbound_call_respects_busy_guild(
    state: coordinator::CoordView,
    request: routing::OutboundRequestView,
    tracking_id: Seq<char>,
    call: CallId,
    guild: Snowflake,
    channel: Snowflake,
    conflict: Option<Snowflake>,
    connecting: Option<Seq<i16>>,
    now: Instant,
)
    requires
        state.outbound_conflict(guild, channel, conflict),
        state.bridges.has_conflict(guild, None) || state.bridges.is_pending(channel),
    ensures
        conflict is Some,
        state.outbound_begun(tracking_id, call, guild, channel, conflict).bridges
            == state.bridges,
        ({
            let actions = beginning(request, call, guild, channel, conflict, connecting, now);
            &&& actions.last() == action::hangup(call)
            &&& forall|k: int|
                0 <= k < actions.len() ==> !((#[trigger] actions[k]) is Connect)
        }),
{
}

/// What is asked for and reported on an outbound call does not tell the bot token
/// of its request: with another token it would be the same.
pub proof fn law_reports_do_not_tell_the_token(
    request: routing::OutboundRequestView,
    token: Seq<char>,
    routes: Seq<registrar::ContactRoute>,
    registration: Option<routing::RegistrationDiagnosticsView>,
    calls: calls::CallsView,
    call: CallId,
    instance: u64,
    guild: Snowflake,
    channel: Snowflake,
    conflict: Option<Snowflake>,
    outcome: Result<u64, Seq<char>>,
    what: Seq<char>,
    error: Seq<char>,
    sound: Option<Seq<i16>>,
    now: Instant,
)
    ensures
        ({
            let other = routing::OutboundRequestView { bot_token: token, ..request };
            &&& starting(other, routes, registration, now) == starting(
                request,
                routes,
                registration,
                now,
            )
            &&& invalid_request(other, call, what, error, now) == invalid_request(
                request,
                call,
                what,
                error,
                now,
            )
            &&& beginning(other, call, guild, channel, conflict, sound, now) == beginning(
                request,
                call,
                guild,
                channel,
                conflict,
                sound,
                now,
            )
            &&& connecting_ended(calls, other, call, instance, channel, outcome, sound, now)
                == connecting_ended(calls, request, call, instance, channel, outcome, sound, now)
        }),
{
    let other = routing::OutboundRequestView { bot_token: token, ..request };
    assert(starting(other, routes, registration, now) =~= starting(
        request,
        routes,
        registration,
        now,
    ));
}

} // verus!
