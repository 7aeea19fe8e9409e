//! What the events of the SIP stack do to a call.
//!
//! The laws speak of what the operations are given and of what they give. An event
//! that is handed on by its kind does what the operation for its kind does.

use crate::call::action;
use crate::call::action::Action;
use crate::call::coordinator;
use crate::call::coordinator::BridgeCoordinator;
use crate::call::failures;
use crate::call::outbound_laws;
use crate::ids::CallId;
use crate::routing;
use crate::routing::OutboundCallStatus;
use crate::text;
use crate::time::Instant;
use crate::transport::sip::fork_group;
use crate::transport::sip::fork_group::ForkGroups;
use crate::transport::sip::types;
use crate::transport::sip::types::{DigestAuthParams, SipEvent};
use vstd::prelude::*;

verus! {

/// Whether an action is asked for.
pub open spec fn asks(actions: Seq<action::ActionView>, wanted: action::ActionView) -> bool {
    exists|k: int| 0 <= k < actions.len() && #[trigger] actions[k] == wanted
}

/// Whether a call is the same in two states.
pub open spec fn same_call(
    before: coordinator::CoordView,
    after: coordinator::CoordView,
    call: i32,
) -> bool {
    &&& before.calls.calls.contains_key(call) <==> after.calls.calls.contains_key(call)
    &&& before.calls.calls[call] == after.calls.calls[call]
}

/// Whether the bridge of a channel is the same in two states.
pub open spec fn same_bridge(
    before: coordinator::CoordView,
    after: coordinator::CoordView,
    channel: u64,
) -> bool {
    &&& before.bridges.bridges.contains_key(channel) <==> after.bridges.bridges.contains_key(
        channel,
    )
    &&& before.bridges.bridges[channel] == after.bridges.bridges[channel]
}

// A call comes in

/// Whether a call became known: under a number of its own, without a channel or an
/// outbound request, with one task started that carries that number. No other call
/// changes, and nothing else does.
pub open spec fn became_known(
    before: coordinator::CoordView,
    after: coordinator::CoordView,
    call: CallId,
    digest: types::DigestView,
    extension: Seq<char>,
    sound: Option<String>,
    actions: Seq<action::ActionView>,
    other: i32,
) -> bool {
    let info = after.calls.calls[call.raw];
    &&& after.calls.calls.contains_key(call.raw)
    &&& info.instance_id == before.calls.next_instance
    &&& info.channel_id is None && info.user_id is None && info.guild_id is None
    &&& info.tracking_id is None
    &&& after.calls.next_instance != info.instance_id
    &&& other != call.raw ==> same_call(before, after, other)
    &&& after.bridges == before.bridges
    &&& after.fax == before.fax
    &&& after.outbound == before.outbound
    &&& actions.len() == 1
    &&& sound is None ==> actions[0] == (action::ActionView::StartIncoming {
        call_id: call,
        instance_id: info.instance_id,
        digest_auth: digest,
        extension,
    })
    &&& sound is Some ==> actions[0] == (action::ActionView::StartExtensionSound {
        call_id: call,
        instance_id: info.instance_id,
        sound_name: sound->0@,
    })
}

/// A call that comes in becomes known, and what is started for it carries the
/// number it is known under: the sound of its extension where there is one, else
/// its routing, with the credentials and the extension that it came with.
pub proof fn law_incoming_call_becomes_known(
    via: &mut BridgeCoordinator,
    call: CallId,
    digest: DigestAuthParams,
    extension: String,
    sound: Option<String>,
    actions: Vec<Action>,
    other: i32,
)
    requires
        call_ensures(
            BridgeCoordinator::on_incoming_call,
            (via, call, digest, extension, sound),
            actions,
        ),
    ensures
        became_known(
            old(via)@,
            final(via)@,
            call,
            digest@,
            extension@,
            sound,
            action::action_views(actions@),
            other,
        ),
{
}

/// The same holds of the event, which tells where the call came from too.
pub proof fn law_incoming_call_event(
    via: &mut BridgeCoordinator,
    forks: &mut ForkGroups,
    event: SipEvent,
    sound: Option<String>,
    now: Instant,
    actions: Vec<Action>,
    other: i32,
)
    requires
        call_ensures(
            BridgeCoordinator::on_sip_event,
            (via, forks, event, sound, now),
            actions,
        ),
        event is IncomingCall,
    ensures
        final(forks)@ == old(forks)@,
        event matches SipEvent::IncomingCall { call_id, digest_auth, extension, source_ip }
            ==> became_known(
            old(via)@,
            final(via)@,
            call_id,
            digest_auth@,
            extension@,
            sound,
            action::action_views(actions@),
            other,
        ),
{
}

// A call ends

/// Whether a voice call is gone: it is no longer known, and left the bridge of its
/// channel. With the last call on it the bridge goes too, its port and its buffers
/// are removed, and Discord is left; as long as others are on it they keep it. The
/// backend is told of the end, and so is the one who asked for an outbound call.
pub open spec fn is_gone(
    before: coordinator::CoordView,
    after: coordinator::CoordView,
    call: CallId,
    actions: Seq<action::ActionView>,
    other: i32,
    place: u64,
) -> bool {
    let info = before.calls.calls[call.raw];
    let known = before.calls.calls.contains_key(call.raw);
    let bridged = known && info.channel_id is Some && before.bridges.bridges.contains_key(
        info.channel_id->0.raw,
    );
    let channel = info.channel_id->0;
    let bridge = before.bridges.bridges[channel.raw];
    let others = bridge.calls.remove(call.raw);
    let n: int = if known && info.tracking_id is Some {
        1
    } else {
        0
    };
    &&& !after.calls.calls.contains_key(call.raw)
    &&& other != call.raw ==> same_call(before, after, other)
    &&& after.fax == before.fax
    &&& after.outbound == before.outbound
    &&& after.bridges.pending == before.bridges.pending
    &&& !(bridged && place == channel.raw) ==> same_bridge(before, after, place)
    &&& actions.len() == n + 3 + (if bridged && others =~= Set::<i32>::empty() {
        3int
    } else {
        0int
    })
    &&& actions[n] == (action::ActionView::UnregisterCallChannel { call_id: call })
    &&& actions[n + 1] == (action::ActionView::StopLoop { call_id: call })
    &&& actions[n + 2] == (action::ActionView::CallEnded {
        sip_call_id: text::signed_decimal(call.raw as int),
    })
    &&& known && info.tracking_id is Some ==> actions[0] == (action::ActionView::Report {
        tracking_id: info.tracking_id->0,
        status: OutboundCallStatus::Ended,
    })
    &&& !(known && info.tracking_id is Some) ==> forall|k: int|
        0 <= k < actions.len() ==> !((#[trigger] actions[k]) is Report)
    &&& bridged && others =~= Set::<i32>::empty() ==> {
        &&& !after.bridges.bridges.contains_key(channel.raw)
        &&& actions[n + 3] == (action::ActionView::CleanupPort { channel_id: channel })
        &&& actions[n + 4] == (action::ActionView::TeardownRings { channel_id: channel })
        &&& actions[n + 5] == (action::ActionView::Disconnect { connection: bridge.connection })
    }
    &&& bridged && (exists|c: i32| others.contains(c)) ==> {
        let left = after.bridges.bridges[channel.raw];
        &&& after.bridges.bridges.contains_key(channel.raw)
        &&& left.calls == others
        &&& left.connection == bridge.connection
        &&& left.guild_id == bridge.guild_id
        &&& left.bot_token == bridge.bot_token
        &&& left.created_at == bridge.created_at
        &&& left.last_call_time == bridge.last_call_time
        &&& left.reconnect_attempts == bridge.reconnect_attempts
        &&& left.last_reconnect_at == bridge.last_reconnect_at
    }
    &&& !(bridged && others =~= Set::<i32>::empty()) ==> forall|k: int|
        0 <= k < actions.len() ==> !((#[trigger] actions[k]) is Disconnect)
            && !(actions[k] is TeardownRings) && !(actions[k] is CleanupPort)
}

proof fn lemma_is_gone(
    before: coordinator::CoordView,
    after: coordinator::CoordView,
    call: CallId,
    actions: Seq<action::ActionView>,
    other: i32,
    place: u64,
)
    requires
        !before.fax.sessions.contains_key(call.raw),
        after == before.call_ended(call),
        actions == before.ending(call),
    ensures
        is_gone(before, after, call, actions, other, place),
{
    let known = before.calls.calls.contains_key(call.raw);
    let info = before.calls.calls[call.raw];
    let n: int = if known && info.tracking_id is Some {
        1
    } else {
        0
    };
    assert(actions[n] == (action::ActionView::UnregisterCallChannel { call_id: call }));
    assert(actions[n + 1] == (action::ActionView::StopLoop { call_id: call }));
    assert(actions[n + 2] == (action::ActionView::CallEnded {
        sip_call_id: text::signed_decimal(call.raw as int),
    }));
    if known && info.channel_id is Some {
        let channel = info.channel_id->0;
        let others = before.bridges.bridges[channel.raw].calls.remove(call.raw);
        if before.bridges.bridges.contains_key(channel.raw) && others =~= Set::<i32>::empty() {
            assert(actions[n + 3] == (action::ActionView::CleanupPort { channel_id: channel }));
            assert(actions[n + 4] == (action::ActionView::TeardownRings { channel_id: channel }));
        }
    }
}

/// Whether a fax call is brought to its end: its session is cancelled and no longer
/// of the call, its port is removed, and the session is brought to its end. The
/// call itself is kept for that, and the backend is not told of a voice call.
pub open spec fn fax_is_ending(
    before: coordinator::CoordView,
    after: coordinator::CoordView,
    call: CallId,
    actions: Seq<action::ActionView>,
    other: i32,
) -> bool {
    let session = before.fax.sessions[call.raw].session;
    let tracking = before.calls.calls[call.raw].tracking_id;
    let followed = before.calls.calls.contains_key(call.raw) && tracking is Some;
    let n: int = if followed {
        1
    } else {
        0
    };
    &&& !after.fax.sessions.contains_key(call.raw)
    &&& other != call.raw ==> (after.fax.sessions.contains_key(other)
        <==> before.fax.sessions.contains_key(other)) && after.fax.sessions[other]
        == before.fax.sessions[other]
    &&& after.calls == before.calls
    &&& after.bridges == before.bridges
    &&& after.outbound == before.outbound
    &&& actions.len() == n + 5
    &&& followed ==> actions[0] == (action::ActionView::Report {
        tracking_id: tracking->0,
        status: OutboundCallStatus::Ended,
    })
    &&& actions[n] == (action::ActionView::UnregisterCallChannel { call_id: call })
    &&& actions[n + 1] == (action::ActionView::StopLoop { call_id: call })
    &&& actions[n + 2] == (action::ActionView::CancelFax { session })
    &&& actions[n + 3] == (action::ActionView::RemoveFaxPort { call_id: call })
    &&& actions[n + 4] == (action::ActionView::FinishFax { call_id: call, session })
}

proof fn lemma_fax_is_ending(
    before: coordinator::CoordView,
    after: coordinator::CoordView,
    call: CallId,
    actions: Seq<action::ActionView>,
    other: i32,
)
    requires
        before.fax.sessions.contains_key(call.raw),
        after == before.call_ended(call),
        actions == before.ending(call),
    ensures
        fax_is_ending(before, after, call, actions, other),
{
    let n: int = if before.calls.calls.contains_key(call.raw)
        && before.calls.calls[call.raw].tracking_id is Some {
        1
    } else {
        0
    };
    let session = before.fax.sessions[call.raw].session;
    assert(actions[n] == (action::ActionView::UnregisterCallChannel { call_id: call }));
    assert(actions[n + 1] == (action::ActionView::StopLoop { call_id: call }));
    assert(actions[n + 2] == (action::ActionView::CancelFax { session }));
    assert(actions[n + 3] == (action::ActionView::RemoveFaxPort { call_id: call }));
}

/// A call that ends is gone, with the bridge that it was the last one on; a fax
/// call is brought to its end first.
pub proof fn law_ended_call_leaves_nothing_behind(
    via: &mut BridgeCoordinator,
    call: CallId,
    actions: Vec<Action>,
    other: i32,
    place: u64,
)
    requires
        call_ensures(BridgeCoordinator::on_call_ended, (via, call), actions),
    ensures
        !old(via)@.fax.sessions.contains_key(call.raw) ==> is_gone(
            old(via)@,
            final(via)@,
            call,
            action::action_views(actions@),
            other,
            place,
        ),
        old(via)@.fax.sessions.contains_key(call.raw) ==> fax_is_ending(
            old(via)@,
            final(via)@,
            call,
            action::action_views(actions@),
            other,
        ),
{
    let seen = action::action_views(actions@);
    if old(via)@.fax.sessions.contains_key(call.raw) {
        lemma_fax_is_ending(old(via)@, final(via)@, call, seen, other);
    } else {
        lemma_is_gone(old(via)@, final(via)@, call, seen, other, place);
    }
}

/// The same holds of the event.
pub proof fn law_ended_call_event(
    via: &mut BridgeCoordinator,
    forks: &mut ForkGroups,
    call: CallId,
    sound: Option<String>,
    now: Instant,
    actions: Vec<Action>,
    other: i32,
    place: u64,
)
    requires
        call_ensures(
            BridgeCoordinator::on_sip_event,
            (via, forks, SipEvent::CallEnded { call_id: call }, sound, now),
            actions,
        ),
    ensures
        final(forks)@ == old(forks)@,
        !old(via)@.fax.sessions.contains_key(call.raw) ==> is_gone(
            old(via)@,
            final(via)@,
            call,
            action::action_views(actions@),
            other,
            place,
        ),
        old(via)@.fax.sessions.contains_key(call.raw) ==> fax_is_ending(
            old(via)@,
            final(via)@,
            call,
            action::action_views(actions@),
            other,
        ),
{
    let seen = action::action_views(actions@);
    if old(via)@.fax.sessions.contains_key(call.raw) {
        lemma_fax_is_ending(old(via)@, final(via)@, call, seen, other);
    } else {
        lemma_is_gone(old(via)@, final(via)@, call, seen, other, place);
    }
}

/// A fax call whose session came to its end is no longer known.
pub proof fn law_finished_fax_call_is_gone(via: &mut BridgeCoordinator, call: CallId, other: i32)
    requires
        call_ensures(BridgeCoordinator::on_fax_finished, (via, call), ()),
    ensures
        !final(via)@.calls.calls.contains_key(call.raw),
        other != call.raw ==> same_call(old(via)@, final(via)@, other),
        final(via)@.bridges == old(via)@.bridges,
        final(via)@.fax == old(via)@.fax,
        final(via)@.outbound == old(via)@.outbound,
{
}

/// A call from which no sound comes is hung up. That none ever came is reported to
/// the one who asked for an outbound call.
pub open spec fn timed_out(
    state: coordinator::CoordView,
    call: CallId,
    rx_count: u64,
    actions: Seq<action::ActionView>,
) -> bool {
    let known = state.calls.calls.contains_key(call.raw);
    let tracking = state.calls.calls[call.raw].tracking_id;
    let tells = rx_count == 0 && known && tracking is Some;
    &&& actions.len() == (if tells {
        2int
    } else {
        1int
    })
    &&& actions.last() == (action::ActionView::Sip {
        command: types::SipCommandView::Hangup { call_id: call },
    })
    &&& tells ==> actions[0] == (action::ActionView::Report {
        tracking_id: tracking->0,
        status: OutboundCallStatus::NoAudio,
    })
}

/// A call that times out is hung up, also when the event tells of it.
pub proof fn law_silent_call_is_hung_up(
    via: &mut BridgeCoordinator,
    forks: &mut ForkGroups,
    state: &BridgeCoordinator,
    call: CallId,
    rx_count: u64,
    now: Instant,
    sound: Option<String>,
    actions: Vec<Action>,
    told: Vec<Action>,
)
    requires
        call_ensures(BridgeCoordinator::on_call_timeout, (state, call, rx_count), actions),
        call_ensures(
            BridgeCoordinator::on_sip_event,
            (via, forks, SipEvent::CallTimeout { call_id: call, rx_count }, sound, now),
            told,
        ),
    ensures
        timed_out(state@, call, rx_count, action::action_views(actions@)),
        timed_out(old(via)@, call, rx_count, action::action_views(told@)),
        final(via)@ == old(via)@,
        final(forks)@ == old(forks)@,
{
}

// The legs of an outbound call

/// What is told of a leg that rings: its number, and the code and the words that it
/// received, to the one who asked for the call.
pub open spec fn rings(
    tracking_id: Seq<char>,
    call: CallId,
    code: u16,
    words: Seq<char>,
    actions: Seq<action::ActionView>,
) -> bool {
    &&& actions.len() == 1
    &&& actions[0] matches action::ActionView::Diagnose { tracking_id: id, status, diagnostics }
    &&& id == tracking_id
    &&& status == OutboundCallStatus::Ringing
    &&& diagnostics.phase == "sip_ringing"@
    &&& diagnostics.detail == Some(
        "SIP leg "@ + text::signed_decimal(call.raw as int) + " received "@ + text::decimal(
            code as nat,
        ) + " "@ + words,
    )
    &&& diagnostics.elapsed_ms is None
    &&& diagnostics.registration is None
    &&& diagnostics.leg_failures.len() == 0
}

/// A leg that rings is told of, also when the event tells of it, and nothing
/// changes.
pub proof fn law_ringing_leg_is_told_of(
    via: &mut BridgeCoordinator,
    forks: &mut ForkGroups,
    tracking_id: String,
    call: CallId,
    status_code: u16,
    status_text: String,
    now: Instant,
    sound: Option<String>,
    actions: Vec<Action>,
    told: Vec<Action>,
)
    requires
        call_ensures(
            BridgeCoordinator::on_outbound_ringing,
            (tracking_id, call, status_code, status_text),
            actions,
        ),
        call_ensures(
            BridgeCoordinator::on_sip_event,
            (
                via,
                forks,
                SipEvent::OutboundCallRinging {
                    tracking_id,
                    call_id: call,
                    status_code,
                    status_text,
                },
                sound,
                now,
            ),
            told,
        ),
    ensures
        rings(
            tracking_id@,
            call,
            status_code,
            status_text@,
            action::action_views(actions@),
        ),
        rings(tracking_id@, call, status_code, status_text@, action::action_views(told@)),
        final(via)@ == old(via)@,
        final(forks)@ == old(forks)@,
{
}

/// Whether the failure of a leg ends its call: it could not even be started, or all
/// other legs have failed before, or could not be started.
pub open spec fn ends_the_call(
    forks: fork_group::ForksView,
    tracking_id: Seq<char>,
    leg: Option<CallId>,
) -> bool {
    leg matches Some(call) ==> forks.groups.contains_key(tracking_id)
        && forks.groups[tracking_id].answered is None
        && forks.groups[tracking_id].failed.insert(call.raw).len()
        + forks.groups[tracking_id].initial_failures >= forks.groups[tracking_id].expected_total
}

/// The failure of a leg as it is told.
pub open spec fn told_failure(leg: Option<CallId>, reason: Seq<char>) -> routing::LegFailureView {
    routing::LegFailureView {
        sip_call_id: match leg {
            Some(call) => Some(text::signed_decimal(call.raw as int)),
            None => None,
        },
        detail: reason,
    }
}

/// Whether the failure of a leg was taken in. As long as other legs may answer, it
/// is kept behind those that failed before, and nothing is told. With the last leg
/// the call is over: all failures are told, in their order, and nothing is kept of
/// it. Other calls are not touched.
pub open spec fn failure_taken_in(
    before: coordinator::CoordView,
    after: coordinator::CoordView,
    forks: fork_group::ForksView,
    forks_after: fork_group::ForksView,
    tracking_id: Seq<char>,
    leg: Option<CallId>,
    reason: Seq<char>,
    now: Instant,
    actions: Seq<action::ActionView>,
    other: Seq<char>,
) -> bool {
    let earlier = if before.outbound.failures.contains_key(tracking_id) {
        before.outbound.failures[tracking_id]
    } else {
        Seq::empty()
    };
    let failures = earlier.push(told_failure(leg, reason));
    let over = ends_the_call(forks, tracking_id, leg);
    &&& after.calls == before.calls
    &&& after.bridges == before.bridges
    &&& after.fax == before.fax
    &&& other != tracking_id ==> {
        &&& after.outbound.requests.contains_key(other)
            <==> before.outbound.requests.contains_key(other)
        &&& after.outbound.requests[other] == before.outbound.requests[other]
        &&& after.outbound.failures.contains_key(other)
            <==> before.outbound.failures.contains_key(other)
        &&& after.outbound.failures[other] == before.outbound.failures[other]
        &&& forks_after.groups.contains_key(other) <==> forks.groups.contains_key(other)
        &&& forks_after.groups[other] == forks.groups[other]
        &&& forks_after.resolved.contains_key(other) <==> forks.resolved.contains_key(other)
    }
    &&& !over ==> {
        &&& actions.len() == 0
        &&& after.outbound.requests == before.outbound.requests
        &&& after.outbound.failures.contains_key(tracking_id)
        &&& after.outbound.failures[tracking_id] == failures
        &&& forks.groups.contains_key(tracking_id) && forks.groups[tracking_id].answered is None
            ==> forks_after.groups.contains_key(tracking_id)
            && forks_after.groups[tracking_id].failed.contains((leg->0).raw)
            && !forks_after.groups[tracking_id].siblings.contains((leg->0).raw)
            && forks_after.groups[tracking_id].expected_total
            == forks.groups[tracking_id].expected_total
    }
    &&& over ==> {
        &&& actions.len() == 1
        &&& !after.outbound.requests.contains_key(tracking_id)
        &&& !after.outbound.failures.contains_key(tracking_id)
        &&& leg is Some ==> !forks_after.groups.contains_key(tracking_id)
            && forks_after.resolved.contains_key(tracking_id) && forks_after.resolved[tracking_id]
            == now
        &&& actions[0] is Diagnose
        &&& actions[0]->Diagnose_tracking_id == tracking_id
        &&& actions[0]->Diagnose_status == OutboundCallStatus::Failed(
            failures::most_telling(failures),
        )
        &&& actions[0]->Diagnose_diagnostics.phase == "sip_dial"@
        &&& actions[0]->Diagnose_diagnostics.detail == Some("all outbound SIP legs failed"@)
        &&& actions[0]->Diagnose_diagnostics.leg_failures == failures
        &&& actions[0]->Diagnose_diagnostics.registration is None
        &&& actions[0]->Diagnose_diagnostics.elapsed_ms is Some
            <==> before.outbound.requests.contains_key(tracking_id)
        &&& before.outbound.requests.contains_key(tracking_id)
            && before.outbound.requests[tracking_id].created_at.nanos <= now.nanos
            ==> actions[0]->Diagnose_diagnostics.elapsed_ms->0 == (now.nanos
            - before.outbound.requests[tracking_id].created_at.nanos) / 1_000_000
    }
}

/// The failure of a leg is taken in, also when the event tells of it.
pub proof fn law_failed_legs_are_gathered(
    via: &mut BridgeCoordinator,
    forks: &mut ForkGroups,
    tracking_id: String,
    leg: Option<CallId>,
    reason: String,
    now: Instant,
    actions: Vec<Action>,
    other: Seq<char>,
)
    requires
        call_ensures(
            BridgeCoordinator::on_outbound_failed,
            (via, forks, tracking_id, leg, reason, now),
            actions,
        ),
    ensures
        failure_taken_in(
            old(via)@,
            final(via)@,
            old(forks)@,
            final(forks)@,
            tracking_id@,
            leg,
            reason@,
            now,
            action::action_views(actions@),
            other,
        ),
{
}

/// The same holds of the event.
pub proof fn law_failed_leg_event(
    via: &mut BridgeCoordinator,
    forks: &mut ForkGroups,
    tracking_id: String,
    leg: Option<CallId>,
    reason: String,
    sound: Option<String>,
    now: Instant,
    actions: Vec<Action>,
    other: Seq<char>,
)
    requires
        call_ensures(
            BridgeCoordinator::on_sip_event,
            (
                via,
                forks,
                SipEvent::OutboundCallFailed { tracking_id, failed_call_id: leg, reason },
                sound,
                now,
            ),
            actions,
        ),
    ensures
        failure_taken_in(
            old(via)@,
            final(via)@,
            old(forks)@,
            final(forks)@,
            tracking_id@,
            leg,
            reason@,
            now,
            action::action_views(actions@),
            other,
        ),
{
}

/// The event of an answer does what the first answer does: the leg takes the call,
/// and its rivals are dropped.
pub proof fn law_answer_event(
    via: &mut BridgeCoordinator,
    forks: &mut ForkGroups,
    tracking_id: String,
    call: CallId,
    sound: Option<String>,
    now: Instant,
    actions: Vec<Action>,
    leg: i32,
)
    requires
        call_ensures(
            BridgeCoordinator::on_sip_event,
            (via, forks, SipEvent::OutboundCallAnswered { tracking_id, call_id: call }, sound, now),
            actions,
        ),
        old(forks)@.wf(),
    ensures
        ({
            let seen = action::action_views(actions@);
            let group = old(forks)@.groups[tracking_id@];
            let waited = old(forks)@.groups.contains_key(tracking_id@);
            &&& waited ==> {
                &&& seen.len() >= 2
                &&& seen[seen.len() - 2] == (action::ActionView::Report {
                    tracking_id: tracking_id@,
                    status: OutboundCallStatus::Answered,
                })
                &&& seen.last() == (action::ActionView::StartAnswered {
                    tracking_id: tracking_id@,
                    call_id: call,
                })
                &&& outbound_laws::is_hung_up(seen, leg) <==> group.siblings.contains(leg)
                    && !group.failed.contains(leg) && leg != call.raw
                &&& forall|k: int|
                    0 <= k < seen.len() - 2 ==> (#[trigger] seen[k]) is ForgetOutbound
                        || action::hangs_up(seen[k])
            }
            &&& !waited ==> seen.len() == 2 && (outbound_laws::is_hung_up(seen, leg) <==> leg
                == call.raw)
            &&& !final(forks)@.groups.contains_key(tracking_id@)
            &&& final(forks)@.resolved.contains_key(tracking_id@)
            &&& final(via)@.calls == old(via)@.calls
            &&& final(via)@.bridges == old(via)@.bridges
            &&& final(via)@.outbound.requests == old(via)@.outbound.requests
            &&& !final(via)@.outbound.failures.contains_key(tracking_id@)
        }),
{
    outbound_laws::lemma_answer_effect(
        old(forks)@,
        tracking_id@,
        call,
        action::action_views(actions@),
        leg,
    );
}

// Fax

/// Whether a T.38 offer was taken: by the session that the call has in its present
/// instance, with the address that was offered. Any other offer ends the call.
pub open spec fn offer_taken(
    state: coordinator::CoordView,
    call: CallId,
    remote_ip: Seq<char>,
    remote_port: u16,
    local_port: u16,
    actions: Seq<action::ActionView>,
) -> bool {
    let entry = state.fax.sessions[call.raw];
    let takes = state.fax.sessions.contains_key(call.raw) && state.calls.calls.contains_key(
        call.raw,
    ) && state.calls.calls[call.raw].instance_id == entry.instance_id;
    &&& actions.len() == 1
    &&& takes ==> actions[0] == (action::ActionView::SwitchToT38 {
        call_id: call,
        session: entry.session,
        remote_ip,
        remote_port,
        local_port,
    })
    &&& !takes ==> actions[0] == (action::ActionView::Sip {
        command: types::SipCommandView::Hangup { call_id: call },
    })
}

/// A T.38 offer is taken by the session of its call or ends the call, also when the
/// event tells of it, and nothing changes.
pub proof fn law_t38_offer_goes_to_its_session(
    via: &mut BridgeCoordinator,
    forks: &mut ForkGroups,
    state: &BridgeCoordinator,
    call: CallId,
    remote_ip: String,
    remote_port: u16,
    local_port: u16,
    sound: Option<String>,
    now: Instant,
    actions: Vec<Action>,
    told: Vec<Action>,
)
    requires
        call_ensures(
            BridgeCoordinator::on_t38_offered,
            (state, call, remote_ip, remote_port, local_port),
            actions,
        ),
        call_ensures(
            BridgeCoordinator::on_sip_event,
            (
                via,
                forks,
                SipEvent::T38Offered { call_id: call, remote_ip, remote_port, local_port },
                sound,
                now,
            ),
            told,
        ),
    ensures
        offer_taken(
            state@,
            call,
            remote_ip@,
            remote_port,
            local_port,
            action::action_views(actions@),
        ),
        offer_taken(
            old(via)@,
            call,
            remote_ip@,
            remote_port,
            local_port,
            action::action_views(told@),
        ),
        final(via)@ == old(via)@,
        final(forks)@ == old(forks)@,
{
}

} // verus!
