//! What is told of an outbound call, and what is kept of it meanwhile.
//!
//! The laws speak of what the operations are given and of what they give.

use crate::call::action;
use crate::call::action::{answer_action, hangup_action, push_actions, Action};
use crate::call::bridges::{wait_for_pending_bridge, BridgeWait, Bridges, ChannelBridge};
use crate::call::calls::SipCalls;
use crate::call::coordinator::{brief_diagnostics, BridgeCoordinator, OutboundCalls};
use crate::call::event_laws;
use crate::call::outbound;
use crate::call::outbound::{AnsweredCall, AnsweredStart};
use crate::call::outbound_laws;
use crate::call::sip_events::{drop_leg_actions, extension_number};
use crate::ids::{CallId, Snowflake};
use crate::routing;
use crate::routing::{
    OutboundCallDiagnostics, OutboundCallFailureReason, OutboundCallLegFailure,
    OutboundCallRequest, OutboundCallStatus, RegistrationDiagnostics,
};
use crate::services::registrar;
use crate::services::registrar::{Registrar, SipTransport, SourceAddr};
use crate::table;
use crate::text;
use crate::time::{Duration, Instant};
use crate::transport::sip::types;
use vstd::prelude::*;

verus! {

/// Whether an action tells this of a request, with the milliseconds since it was
/// made.
pub open spec fn tells(
    a: action::ActionView,
    request: routing::OutboundRequestView,
    status: OutboundCallStatus,
    phase: Seq<char>,
    detail: Seq<char>,
    now: Instant,
) -> bool {
    &&& a is Diagnose
    &&& a->Diagnose_tracking_id == request.call_id
    &&& a->Diagnose_status == status
    &&& a->Diagnose_diagnostics.phase == phase
    &&& a->Diagnose_diagnostics.detail == Some(detail)
    &&& a->Diagnose_diagnostics.leg_failures.len() == 0
    &&& a->Diagnose_diagnostics.elapsed_ms is Some
    &&& request.created_at.nanos <= now.nanos ==> a->Diagnose_diagnostics.elapsed_ms->0 == (
    now.nanos - request.created_at.nanos) / 1_000_000
}

/// The start of an outbound call is told with what the registrar knows: that phones
/// are being dialed and how many, or that there are none.
pub proof fn law_start_is_told(
    state: &mut BridgeCoordinator,
    request: OutboundCallRequest,
    contacts: &Vec<(String, SourceAddr, SipTransport)>,
    registration: Option<RegistrationDiagnostics>,
    now: Instant,
    actions: Vec<Action>,
)
    requires
        call_ensures(
            BridgeCoordinator::start_outbound,
            (state, request, contacts, registration, now),
            actions,
        ),
    ensures
        ({
            let last = action::action_views(actions@).last();
            &&& contacts@.len() == 0 ==> tells(
                last,
                request@,
                OutboundCallStatus::Unavailable,
                "registration_lookup"@,
                "no active SIP contacts on this bridge"@,
                now,
            )
            &&& contacts@.len() > 0 ==> tells(
                last,
                request@,
                OutboundCallStatus::Dialing,
                "sip_dial"@,
                "queued "@ + text::decimal(contacts@.len()) + " outbound SIP leg(s)"@,
                now,
            )
            &&& last->Diagnose_diagnostics.registration is Some <==> registration is Some
            &&& registration is Some ==> last->Diagnose_diagnostics.registration->0
                == registration->0@
        }),
{
    let routes = registrar::route_views(contacts@);
    assert(routes.len() == contacts@.len());
}

/// The phones that are called for a request are those of its user, as the registrar
/// knows them; without a registrar there are none, and nothing is kept.
pub proof fn law_phones_of_the_user_are_called(
    state: &mut BridgeCoordinator,
    request: OutboundCallRequest,
    phones: Option<&Registrar>,
    now: Instant,
    actions: Vec<Action>,
    contacts: &Vec<(String, SourceAddr, SipTransport)>,
    k: int,
)
    requires
        call_ensures(
            BridgeCoordinator::on_outbound_start,
            (state, request, phones, now),
            actions,
        ),
        phones matches Some(r) ==> registrar::route_views(contacts@) == r@.active(
            request@.discord_user_id,
            now,
        ).map_values(|reg: registrar::RegistrationView| registrar::route_of(reg)),
    ensures
        ({
            let seen = action::action_views(actions@);
            &&& phones is None ==> seen.len() == 1 && final(state)@ == old(state)@
                && seen[0]->Diagnose_status == OutboundCallStatus::Unavailable
                && seen[0]->Diagnose_diagnostics.registration is None
            &&& phones is Some ==> {
                &&& seen.len() == contacts@.len() + 1
                &&& seen.last()->Diagnose_tracking_id == request.call_id@
                &&& seen.last()->Diagnose_diagnostics.registration is Some
                &&& 0 <= k < contacts@.len() ==> outbound_laws::dials_phone(
                    actions@[k],
                    request,
                    contacts@[k],
                    contacts@.len(),
                )
                &&& contacts@.len() > 0 ==> final(state)@.outbound.requests.contains_key(
                    request.call_id@,
                ) && final(state)@.outbound.requests[request.call_id@] == request@
                &&& contacts@.len() == 0 ==> final(state)@ == old(state)@
            }
        }),
{
    let seen = action::action_views(actions@);
    assert(seen.len() == actions@.len());
    if let Some(r) = phones {
        let routes = registrar::route_views(contacts@);
        assert(routes.len() == contacts@.len());
        let order = choose|order: Seq<Seq<char>>|
            table::enumerates(order, r@.registrations.dom()) && seen == outbound::starting(
                request@,
                routes,
                Some(#[trigger] r@.diagnostics(order, request@.discord_user_id, now)),
                now,
            );
        if 0 <= k < contacts@.len() {
            assert(seen[k] == actions@[k]@);
            assert(routes[k] == registrar::route_view(contacts@[k]));
            assert(seen[k] == outbound::dial(request@, routes[k], routes.len()));
        }
    }
}

/// An answered call whose ids cannot be read is told of, with the id that is wrong,
/// and hung up; so is one whose guild is taken, with both channels.
pub proof fn law_answered_call_that_fails_is_told_of(
    state: &mut BridgeCoordinator,
    request: OutboundCallRequest,
    tracking_id: String,
    call: CallId,
    guild: Result<Snowflake, String>,
    channel: Result<Snowflake, String>,
    connecting: Option<Vec<i16>>,
    now: Instant,
    start: AnsweredStart,
)
    requires
        call_ensures(
            BridgeCoordinator::on_answered_request,
            (state, request, tracking_id, call, guild, channel, connecting, now),
            start,
        ),
        guild is Err || channel is Err || start.conflict is Some,
    ensures
        ({
            let seen = action::action_views(start.actions@);
            let told = seen[seen.len() - 2];
            &&& seen.len() >= 2
            &&& seen.last() == (action::ActionView::Sip {
                command: types::SipCommandView::Hangup { call_id: call },
            })
            &&& guild is Err ==> tells(
                told,
                request@,
                OutboundCallStatus::Failed(OutboundCallFailureReason::Internal),
                "request_validation"@,
                "invalid guild_id: "@ + guild->Err_0@,
                now,
            )
            &&& guild is Ok && channel is Err ==> tells(
                told,
                request@,
                OutboundCallStatus::Failed(OutboundCallFailureReason::Internal),
                "request_validation"@,
                "invalid channel_id: "@ + channel->Err_0@,
                now,
            )
            &&& guild is Ok && channel is Ok ==> tells(
                told,
                request@,
                OutboundCallStatus::Failed(OutboundCallFailureReason::Internal),
                "discord_preflight"@,
                "guild already active on channel "@ + text::decimal(
                    (start.conflict->0).raw as nat,
                ) + "; requested "@ + text::decimal((channel->Ok_0).raw as nat),
                now,
            )
            &&& start.waiting is None
        }),
{
    let seen = action::action_views(start.actions@);
    assert(seen.len() == start.actions@.len());
}

/// An answered call that begins is known under a number of its own, as a call of its
/// request and guild; its channel is taken for it, and the bot is sent there. It
/// hears the connecting loop meanwhile.
pub proof fn law_answered_call_begins(
    state: &mut BridgeCoordinator,
    request: OutboundCallRequest,
    tracking_id: String,
    call: CallId,
    guild: Snowflake,
    channel: Snowflake,
    connecting: Option<Vec<i16>>,
    now: Instant,
    start: AnsweredStart,
    other: i32,
    place: u64,
)
    requires
        call_ensures(
            BridgeCoordinator::begin_answered,
            (state, request, tracking_id, call, guild, channel, connecting, now),
            start,
        ),
    ensures
        ({
            let seen = action::action_views(start.actions@);
            let info = final(state)@.calls.calls[call.raw];
            let free = !old(state)@.bridges.pending.contains(channel.raw) && forall|c: u64|
                old(state)@.bridges.bridges.contains_key(c)
                    ==> #[trigger] old(state)@.bridges.bridges[c].guild_id != guild;
            &&& start.conflict is None <==> free
            &&& other != call.raw ==> event_laws::same_call(old(state)@, final(state)@, other)
            &&& event_laws::same_bridge(old(state)@, final(state)@, place)
            &&& free ==> {
                &&& final(state)@.calls.calls.contains_key(call.raw)
                &&& info.instance_id == old(state)@.calls.next_instance
                &&& info.guild_id == Some(guild)
                &&& info.tracking_id == Some(tracking_id@)
                &&& info.channel_id is None
                &&& info.user_id is None
                &&& final(state)@.bridges.pending.contains(channel.raw)
                &&& seen.last() == (action::ActionView::Connect {
                    bridge_id: "bridge_"@ + text::decimal(channel.raw as nat),
                    guild_id: guild,
                    channel_id: channel,
                })
                &&& start.waiting is Some
                &&& start.waiting->0.request@ == request@
                &&& start.waiting->0.call_id == call
                &&& start.waiting->0.instance_id == info.instance_id
                &&& start.waiting->0.guild_id == guild
                &&& start.waiting->0.lease.channel_id == channel
            }
            &&& !free ==> {
                &&& !final(state)@.calls.calls.contains_key(call.raw)
                &&& final(state)@.bridges == old(state)@.bridges
                &&& start.waiting is None
                &&& seen.last() == (action::ActionView::Sip {
                    command: types::SipCommandView::Hangup { call_id: call },
                })
            }
            &&& connecting is Some ==> seen[0] == (action::ActionView::Sip {
                command: types::SipCommandView::StartConnectingLoop {
                    call_id: call,
                    samples: connecting->0@,
                },
            })
            &&& seen.len() == (if connecting is Some {
                1int
            } else {
                0int
            }) + (if free {
                1int
            } else {
                2int
            })
            &&& final(state)@.fax == old(state)@.fax
            &&& final(state)@.outbound == old(state)@.outbound
        }),
{
    let seen = action::action_views(start.actions@);
    assert(seen.len() == start.actions@.len());
    let before = old(state)@.bridges;
    if start.conflict is None {
        assert forall|c: u64| before.bridges.contains_key(c) implies #[trigger]
        before.bridges[c].guild_id != guild by {
            assert(!before.conflicts(guild, None, c));
        }
    } else {
        let existing = start.conflict->0;
        if before.conflicts(guild, None, existing.raw) {
            assert(before.bridges[existing.raw].guild_id == guild);
        }
    }
}

/// That Discord was joined is told with call and channel; that it was not, with the
/// reason.
pub proof fn law_connection_is_told(
    state: &mut BridgeCoordinator,
    waiting: AnsweredCall,
    outcome: Result<u64, String>,
    join: Option<Vec<i16>>,
    now: Instant,
    actions: Vec<Action>,
)
    requires
        call_ensures(
            BridgeCoordinator::on_answered_connected,
            (state, waiting, outcome, join, now),
            actions,
        ),
        old(state)@.calls.calls.contains_key(waiting.call_id.raw),
        old(state)@.calls.calls[waiting.call_id.raw].instance_id == waiting.instance_id,
    ensures
        ({
            let seen = action::action_views(actions@);
            &&& outcome is Ok ==> tells(
                seen[2],
                waiting.request@,
                OutboundCallStatus::Connected,
                "discord_connected"@,
                "SIP call "@ + text::signed_decimal(waiting.call_id.raw as int)
                    + " connected to Discord channel "@ + text::decimal(
                    waiting.lease.channel_id.raw as nat,
                ),
                now,
            )
            &&& outcome is Err ==> tells(
                seen[0],
                waiting.request@,
                OutboundCallStatus::Failed(OutboundCallFailureReason::Internal),
                "discord_connect"@,
                outcome->Err_0@,
                now,
            )
        }),
{
}

/// A request is found by its tracking id until it is taken, and what failed before
/// is found in the order in which it came; other calls are not touched.
pub proof fn law_request_and_failures_are_kept(
    calls: &mut OutboundCalls,
    request: OutboundCallRequest,
    then: &mut OutboundCalls,
    id: &str,
    taken: Option<OutboundCallRequest>,
    failing: &mut OutboundCalls,
    failure: OutboundCallLegFailure,
    last: &mut OutboundCalls,
    all: Vec<OutboundCallLegFailure>,
    other: Seq<char>,
)
    requires
        call_ensures(OutboundCalls::insert_request, (calls, request), ()),
        id@ == request.call_id@,
        old(then)@ == final(calls)@,
        call_ensures(OutboundCalls::take_request, (then, id), taken),
        call_ensures(OutboundCalls::push_failure, (failing, id, failure), ()),
        old(last)@ == final(failing)@,
        call_ensures(OutboundCalls::take_failures, (last, id), all),
    ensures
        taken is Some && taken->0@ == request@,
        !final(then)@.requests.contains_key(id@),
        final(then)@.failures == old(calls)@.failures,
        other != id@ ==> (final(then)@.requests.contains_key(other) <==> old(
            calls,
        )@.requests.contains_key(other)) && final(then)@.requests[other]
            == old(calls)@.requests[other],
        all@.len() == (if old(failing)@.failures.contains_key(id@) {
            old(failing)@.failures[id@].len()
        } else {
            0
        }) + 1,
        all@.last()@ == failure@,
        old(failing)@.failures.contains_key(id@) ==> forall|k: int|
            0 <= k < old(failing)@.failures[id@].len() ==> (#[trigger] all@[k])@
                == old(failing)@.failures[id@][k],
        !final(last)@.failures.contains_key(id@),
        final(last)@.requests == old(failing)@.requests,
        other != id@ ==> (final(last)@.failures.contains_key(other) <==> old(
            failing,
        )@.failures.contains_key(other)) && final(last)@.failures[other]
            == old(failing)@.failures[other],
{
    let views = routing::leg_views(all@);
    assert(views.len() == all@.len());
    assert(views.last() == all@.last()@);
    if old(failing)@.failures.contains_key(id@) {
        assert forall|k: int| 0 <= k < old(failing)@.failures[id@].len() implies (
        #[trigger] all@[k])@ == old(failing)@.failures[id@][k] by {
            assert(views[k] == all@[k]@);
        }
    }
}

/// Requests of the given age are swept, with the failures of their legs, and no
/// others.
pub proof fn law_old_requests_are_swept(
    calls: &mut OutboundCalls,
    age: Duration,
    now: Instant,
    swept: usize,
    id: Seq<char>,
)
    requires
        call_ensures(OutboundCalls::sweep, (calls, age, now), swept),
    ensures
        ({
            let made = old(calls)@.requests[id].created_at;
            let young = old(calls)@.requests.contains_key(id) && (if now.nanos >= made.nanos {
                now.nanos - made.nanos < age.nanos
            } else {
                0 < age.nanos
            });
            &&& final(calls)@.requests.contains_key(id) <==> young
            &&& young ==> final(calls)@.requests[id] == old(calls)@.requests[id]
            &&& final(calls)@.failures.contains_key(id) <==> young
                && old(calls)@.failures.contains_key(id)
        }),
{
}

/// A call waits for a bridge that somebody works on, as long as it is there itself.
pub proof fn law_call_waits_for_a_bridge_in_work(
    channel: Snowflake,
    call: CallId,
    instance: u64,
    bridges: &Bridges,
    calls: &SipCalls,
    r: BridgeWait,
)
    requires
        call_ensures(wait_for_pending_bridge, (channel, call, instance, bridges, calls), r),
    ensures
        ({
            let there = bridges@.bridges.contains_key(channel.raw);
            let in_work = bridges@.pending.contains(channel.raw);
            let here = calls@.calls.contains_key(call.raw) && calls@.calls[call.raw].instance_id
                == instance;
            &&& r is Ready <==> there || !in_work
            &&& r is Wait <==> !there && in_work && here
            &&& r is CallEnded <==> !there && in_work && !here
        }),
{
}

/// Each leg that is dropped is forgotten and then hung up, one after the other.
pub proof fn law_legs_are_dropped_one_by_one(legs: &Vec<CallId>, actions: Vec<Action>)
    requires
        call_ensures(drop_leg_actions, (legs,), actions),
    ensures
        actions@.len() == 2 * legs@.len(),
        forall|i: int|
            #![trigger legs@[i]]
            0 <= i < legs@.len() ==> actions@[2 * i]@ == (action::ActionView::ForgetOutbound {
                call_id: legs@[i],
            }) && actions@[2 * i + 1]@ == (action::ActionView::Sip {
                command: types::SipCommandView::Hangup { call_id: legs@[i] },
            }),
{
    let seen = action::action_views(actions@);
    assert(seen.len() == actions@.len());
    outbound_laws::law_dropped_legs_are_hung_up(legs@);
    assert forall|i: int|
        #![trigger legs@[i]]
        0 <= i < legs@.len() implies actions@[2 * i]@ == (action::ActionView::ForgetOutbound {
        call_id: legs@[i],
    }) && actions@[2 * i + 1]@ == (action::ActionView::Sip {
        command: types::SipCommandView::Hangup { call_id: legs@[i] },
    }) by {
        assert(seen[2 * i] == actions@[2 * i]@);
        assert(seen[2 * i + 1] == actions@[2 * i + 1]@);
    }
}

/// Answering and hanging up name their call; actions that follow stand behind those
/// that were there.
pub proof fn law_actions_name_their_call(
    call: CallId,
    hangs_up: Action,
    answers: Action,
    list: &mut Vec<Action>,
    more: Vec<Action>,
)
    requires
        call_ensures(hangup_action, (call,), hangs_up),
        call_ensures(answer_action, (call,), answers),
        call_ensures(push_actions, (list, more), ()),
    ensures
        hangs_up@ == (action::ActionView::Sip {
            command: types::SipCommandView::Hangup { call_id: call },
        }),
        answers@ == (action::ActionView::Sip {
            command: types::SipCommandView::Answer { call_id: call },
        }),
        action::action_views(final(list)@) == action::action_views(old(list)@)
            + action::action_views(more@),
{
}

/// Brief diagnostics say phase, detail and time, and nothing else; an extension
/// stands for the number that it is written as.
pub proof fn law_diagnostics_say_what_they_are_given(
    phase: &str,
    detail: String,
    elapsed: Option<u64>,
    d: OutboundCallDiagnostics,
    extension: &str,
    n: Option<u32>,
)
    requires
        call_ensures(brief_diagnostics, (phase, detail, elapsed), d),
        call_ensures(extension_number, (extension,), n),
    ensures
        d.phase@ == phase@,
        d.detail is Some && d.detail->0@ == detail@,
        d.elapsed_ms == elapsed,
        d.registration is None,
        d.leg_failures@.len() == 0,
        n is Some ==> text::parse_unsigned(extension@, u32::MAX as nat) == Some(n->0 as nat),
        n is None ==> text::parse_unsigned(extension@, u32::MAX as nat) is None,
{
    assert(d@.leg_failures.len() == d.leg_failures@.len());
    assert(d@.registration is Some <==> d.registration is Some);
}

/// A request is seen as it came: each part is its own.
pub proof fn law_request_is_seen_as_it_came(request: OutboundCallRequest)
    ensures
        request@.call_id == request.call_id@,
        request@.discord_user_id == request.discord_user_id@,
        request@.discord_username == request.discord_username@,
        request@.guild_id == request.guild_id@,
        request@.channel_id == request.channel_id@,
        request@.bot_token == request.bot_token@,
        request@.caller_username == request.caller_username@,
        request@.created_at == request.created_at,
{
}

/// What is seen of a command is what it says.
pub proof fn law_command_is_seen_as_it_is(command: types::SipCommand)
    ensures
        match command {
            types::SipCommand::Send183 { call_id } => command@ == (types::SipCommandView::Send183 {
                call_id,
            }),
            types::SipCommand::StartConnectingLoop { call_id, samples } => command@ == (
            types::SipCommandView::StartConnectingLoop { call_id, samples: samples@ }),
            types::SipCommand::Answer { call_id } => command@ == (types::SipCommandView::Answer {
                call_id,
            }),
            types::SipCommand::Hangup { call_id } => command@ == (types::SipCommandView::Hangup {
                call_id,
            }),
            types::SipCommand::Redirect { call_id, domain, extension } => command@ == (
            types::SipCommandView::Redirect { call_id, domain: domain@, extension: extension@ }),
            types::SipCommand::PlayDirectToCall { call_id, samples } => command@ == (
            types::SipCommandView::PlayDirectToCall { call_id, samples: samples@ }),
            types::SipCommand::StartTestTone { call_id } => command@ == (
            types::SipCommandView::StartTestTone { call_id }),
            types::SipCommand::StartStreaming { call_id, path } => command@ == (
            types::SipCommandView::StartStreaming { call_id, path: path@ }),
            types::SipCommand::MakeOutboundCall {
                tracking_id,
                sip_uri,
                caller_display_name,
                fork_total,
            } => command@ == (types::SipCommandView::MakeOutboundCall {
                tracking_id: tracking_id@,
                sip_uri: sip_uri@,
                caller_display_name: match caller_display_name {
                    Some(name) => Some(name@),
                    None => None,
                },
                fork_total: fork_total as nat,
            }),
            types::SipCommand::RespondRegister { pending, auth_ok } => command@ == (
            types::SipCommandView::RespondRegister {
                pending: types::PendingView {
                    transaction: pending.transaction,
                    expires: pending.expires,
                    contact_value: match pending.contact_value {
                        Some(value) => Some(value@),
                        None => None,
                    },
                },
                auth_ok,
            }),
        },
{
}

/// What is seen of a bridge, of diagnostics and of a failure is what they say.
pub proof fn law_reports_are_seen_as_they_are(
    bridge: ChannelBridge,
    d: OutboundCallDiagnostics,
    failure: OutboundCallLegFailure,
    r: registrar::Registration,
)
    ensures
        bridge@.guild_id == bridge.guild_id,
        bridge@.connection == bridge.discord_connection,
        bridge@.calls == bridge.sip_calls@,
        bridge@.bot_token == bridge.bot_token@,
        bridge@.last_call_time == bridge.last_call_time,
        bridge@.created_at == bridge.created_at,
        bridge@.reconnect_attempts == bridge.reconnect_attempts,
        bridge@.last_reconnect_at == bridge.last_reconnect_at,
        d@.phase == d.phase@,
        d@.detail is Some <==> d.detail is Some,
        d.detail is Some ==> d@.detail->0 == d.detail->0@,
        d@.elapsed_ms == d.elapsed_ms,
        d@.leg_failures.len() == d.leg_failures@.len(),
        failure@.detail == failure.detail@,
        failure@.sip_call_id is Some <==> failure.sip_call_id is Some,
        failure.sip_call_id is Some ==> failure@.sip_call_id->0 == failure.sip_call_id->0@,
        r@.sip_username == r.sip_username@,
        r@.discord_user_id == r.discord_user_id@,
        r@.contact == r.contact@,
        r@.source_addr.ip == r.source_addr.ip@,
        r@.source_addr.port == r.source_addr.port,
        r@.source_addr.is_ipv6 == r.source_addr.is_ipv6,
        r@.transport == r.transport,
        r@.expires_at == r.expires_at,
        r@.registered_at == r.registered_at,
{
}

/// Each error has its sound; a busy server and a failing Discord sound alike.
pub proof fn law_errors_have_their_sounds(
    error: &routing::CallError,
    sound: &'static str,
    words: &'static str,
)
    requires
        call_ensures(routing::CallError::sound_name, (error,), sound),
        call_ensures(routing::CallError::message, (error,), words),
    ensures
        *error is NoChannelMapping ==> sound@ == "no_channel_mapping"@ && words@
            == "no channel mapping for the dialed extension"@,
        *error is NoPermissions ==> sound@ == "no_permissions"@ && words@
            == "user lacks permission for the target Discord channel"@,
        *error is DiscordApiError ==> sound@ == "server_is_busy"@ && words@
            == "Discord API error"@,
        *error is ServerBusy ==> sound@ == "server_is_busy"@ && words@ == "server is busy"@,
        *error is Unknown ==> sound@ == "unknown_error"@ && words@ == "unknown call error"@,
{
}

} // verus!
