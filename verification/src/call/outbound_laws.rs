//! What becomes of an outbound call, from its request to its end.
//!
//! The laws speak of what the operations are given and of what they give.

use crate::call::action;
use crate::call::action::Action;
use crate::call::calls;
use crate::call::coordinator::BridgeCoordinator;
use crate::call::incoming_laws;
use crate::call::outbound;
use crate::call::outbound::{AnsweredCall, AnsweredStart};
use crate::call::sip_events;
use crate::ids::{CallId, Snowflake};
use crate::routing::{
    OutboundCallFailureReason, OutboundCallRequest, OutboundCallStatus, RegistrationDiagnostics,
};
use crate::services::registrar;
use crate::services::registrar::{SipTransport, SourceAddr};
use crate::table;
use crate::text;
use crate::time::Instant;
use crate::transport::sip::fork_group;
use crate::transport::sip::fork_group::ForkGroups;
use crate::transport::sip::types;
use crate::transport::sip::types::SipCommand;
use vstd::prelude::*;

verus! {

broadcast use vstd::string::group_string_axioms;

/// What drops some legs: each one is forgotten and hung up, and nothing else is
/// asked for.
pub proof fn law_dropped_legs_are_hung_up(legs: Seq<CallId>)
    ensures
        sip_events::drop_legs(legs).len() == 2 * legs.len(),
        forall|i: int|
            #![trigger legs[i]]
            0 <= i < legs.len() ==> sip_events::drop_legs(legs)[2 * i]
                == (action::ActionView::ForgetOutbound { call_id: legs[i] })
                && sip_events::drop_legs(legs)[2 * i + 1] == (action::ActionView::Sip {
                command: types::SipCommandView::Hangup { call_id: legs[i] },
            }),
    decreases legs.len(),
{
    if legs.len() > 0 {
        let rest = legs.drop_last();
        law_dropped_legs_are_hung_up(rest);
        assert forall|i: int|
            #![trigger legs[i]]
            0 <= i < legs.len() implies sip_events::drop_legs(legs)[2 * i]
            == (action::ActionView::ForgetOutbound { call_id: legs[i] }) && sip_events::drop_legs(
            legs,
        )[2 * i + 1] == (action::ActionView::Sip {
            command: types::SipCommandView::Hangup { call_id: legs[i] },
        }) by {
            if i < rest.len() {
                assert(rest[i] == legs[i]);
            }
        }
    }
}

/// Whether a leg is hung up by some actions.
pub open spec fn is_hung_up(actions: Seq<action::ActionView>, leg: i32) -> bool {
    exists|k: int|
        0 <= k < actions.len() && #[trigger] actions[k] == (action::ActionView::Sip {
            command: types::SipCommandView::Hangup { call_id: CallId { raw: leg } },
        })
}

/// Whether the end of a leg is no longer taken for a failure after some actions.
pub open spec fn is_forgotten(actions: Seq<action::ActionView>, leg: i32) -> bool {
    exists|k: int|
        0 <= k < actions.len() && #[trigger] actions[k] == (action::ActionView::ForgetOutbound {
            call_id: CallId { raw: leg },
        })
}

proof fn lemma_dropped_set(legs: Seq<CallId>, set: Set<i32>, leg: i32)
    requires
        table::enumerates(fork_group::raw_ids(legs), set),
    ensures
        is_hung_up(sip_events::drop_legs(legs), leg) <==> set.contains(leg),
        is_forgotten(sip_events::drop_legs(legs), leg) <==> set.contains(leg),
        forall|k: int|
            0 <= k < sip_events::drop_legs(legs).len() ==> (
            #[trigger] sip_events::drop_legs(legs)[k]) is ForgetOutbound || action::hangs_up(
                sip_events::drop_legs(legs)[k],
            ),
{
    let actions = sip_events::drop_legs(legs);
    let ids = fork_group::raw_ids(legs);
    law_dropped_legs_are_hung_up(legs);
    assert(ids.contains(leg) <==> set.contains(leg));
    assert forall|k: int| 0 <= k < actions.len() implies (#[trigger] actions[k]) is ForgetOutbound
        || action::hangs_up(actions[k]) by {
        let i = k / 2;
        assert(k == 2 * i || k == 2 * i + 1);
        let one = legs[i];
        assert(actions[2 * i] == (action::ActionView::ForgetOutbound { call_id: one }));
        assert(actions[2 * i + 1] is Sip);
    }
    if set.contains(leg) {
        let i = choose|i: int| 0 <= i < ids.len() && ids[i] == leg;
        assert(legs[i].raw == leg);
        assert(legs[i] == CallId { raw: leg });
        assert(actions[2 * i] is ForgetOutbound);
        assert(actions[2 * i + 1] is Sip);
    }
    if is_hung_up(actions, leg) {
        let k = choose|k: int|
            0 <= k < actions.len() && #[trigger] actions[k] == (action::ActionView::Sip {
                command: types::SipCommandView::Hangup { call_id: CallId { raw: leg } },
            });
        let i = k / 2;
        assert(k == 2 * i || k == 2 * i + 1);
        assert(legs[i] == legs[i]);
        assert(ids[i] == legs[i].raw);
        assert(ids.contains(leg));
    }
    if is_forgotten(actions, leg) {
        let k = choose|k: int|
            0 <= k < actions.len() && #[trigger] actions[k]
                == (action::ActionView::ForgetOutbound { call_id: CallId { raw: leg } });
        let i = k / 2;
        assert(k == 2 * i || k == 2 * i + 1);
        assert(legs[i] == legs[i]);
        assert(ids[i] == legs[i].raw);
        assert(ids.contains(leg));
    }
}

/// The user that is dialed is the one that the phone registered with: what stands
/// between the scheme and the `@` of its Contact URI.
pub proof fn law_dialed_user_is_that_of_the_contact(
    user: Seq<char>,
    rest: Seq<char>,
    fallback: Seq<char>,
)
    requires
        !text::holds(user, '@'),
    ensures
        outbound::contact_user("sip:"@ + user + "@"@ + rest, fallback) == user,
        outbound::contact_user("sips:"@ + user + "@"@ + rest, fallback) == user,
        outbound::contact_user("sip:"@ + user, fallback) == user,
        outbound::contact_user("tel:"@ + user, fallback) == fallback,
{
    reveal_strlit("sip:");
    reveal_strlit("sips:");
    reveal_strlit("tel:");
    reveal_strlit("@");
    let sip = "sip:"@ + user + "@"@ + rest;
    let sips = "sips:"@ + user + "@"@ + rest;
    let bare = "sip:"@ + user;
    let tel = "tel:"@ + user;
    assert(sip.subrange(0, 4) =~= "sip:"@);
    assert(bare.subrange(0, 4) =~= "sip:"@);
    assert(sips.subrange(0, 5) =~= "sips:"@);
    assert(sips.subrange(0, 4)[3] == 's');
    assert("sip:"@[3] == ':');
    assert(sip.skip(4) =~= user + "@"@ + rest);
    assert(sips.skip(5) =~= user + "@"@ + rest);
    assert(bare.skip(4) =~= user);
    let tail = user + "@"@ + rest;
    assert forall|k: int| 0 <= k < user.len() implies #[trigger] tail[k] != '@' by {
        assert(tail[k] == user[k]);
    }
    assert(tail[user.len() as int] == '@');
    text::lemma_next_char(tail, '@', 0);
    text::lemma_next_char(user, '@', 0);
    let n = text::next_char(tail, '@', 0);
    if n < user.len() {
        assert(tail[n] != '@');
    }
    assert(tail.take(user.len() as int) =~= user);
    assert(user.take(user.len() as int) =~= user);
    assert(tel.subrange(0, 4)[0] == 't');
    assert("sip:"@[0] == 's');
    assert("sips:"@[0] == 's');
    if text::starts_with(tel, "sips:"@) {
        assert(tel.subrange(0, 5)[0] == 't');
    }
}

/// A phone is dialed at the address and over the transport that its registration
/// came by.
pub open spec fn dials_phone(
    a: Action,
    request: OutboundCallRequest,
    contact: (String, SourceAddr, SipTransport),
    fork_total: nat,
) -> bool {
    let user = outbound::contact_user(contact.0@, request.discord_username@);
    let place = user + "@"@ + registrar::addr_text(contact.1@);
    &&& a matches Action::Sip { command: SipCommand::MakeOutboundCall {
        tracking_id,
        sip_uri,
        caller_display_name,
        fork_total: total,
    } }
    &&& tracking_id@ == request.call_id@
    &&& sip_uri@ == (match contact.2 {
        SipTransport::Udp => "sip:"@ + place + ";transport=udp"@,
        SipTransport::Tcp => "sip:"@ + place + ";transport=tcp"@,
        SipTransport::Tls => "sips:"@ + place,
    })
    &&& caller_display_name matches Some(name)
    &&& name@ == request.caller_username@
    &&& total == fork_total
}

/// All phones of the user ring: each registered phone is dialed once, in order, as
/// a leg of this request, and the request is kept for the answer. The backend is
/// told that the call is being dialed. Without a phone it is told that nobody can
/// be reached, and nothing is dialed or kept.
pub proof fn law_every_phone_rings(
    state: &mut BridgeCoordinator,
    request: OutboundCallRequest,
    contacts: &Vec<(String, SourceAddr, SipTransport)>,
    registration: Option<RegistrationDiagnostics>,
    now: Instant,
    actions: Vec<Action>,
)
    requires
        call_ensures(
            BridgeCoordinator::start_outbound,
            (state, request, contacts, registration, now),
            actions,
        ),
    ensures
        actions@.len() == contacts@.len() + 1,
        forall|k: int|
            0 <= k < contacts@.len() ==> dials_phone(
                #[trigger] actions@[k],
                request,
                contacts@[k],
                contacts@.len(),
            ),
        actions@.last() matches Action::Diagnose { tracking_id, status, .. } && tracking_id@
            == request.call_id@ && status == (if contacts@.len() == 0 {
            OutboundCallStatus::Unavailable
        } else {
            OutboundCallStatus::Dialing
        }),
        contacts@.len() > 0 ==> final(state)@.outbound.requests.contains_key(request.call_id@)
            && final(state)@.outbound.requests[request.call_id@] == request@,
        contacts@.len() == 0 ==> final(state)@ == old(state)@,
        final(state)@.calls == old(state)@.calls,
        final(state)@.bridges == old(state)@.bridges,
        final(state)@.fax == old(state)@.fax,
        final(state)@.outbound.failures == old(state)@.outbound.failures,
        forall|id: Seq<char>|
            id != request.call_id@ ==> (final(state)@.outbound.requests.contains_key(id)
                <==> old(state)@.outbound.requests.contains_key(id)) && #[trigger] final(state)@.outbound.requests[id] == old(state)@.outbound.requests[id],
{
    let seen = action::action_views(actions@);
    let routes = registrar::route_views(contacts@);
    assert(seen.len() == actions@.len());
    assert(routes.len() == contacts@.len());
    assert(seen.last() == actions@.last()@);
    assert forall|k: int| 0 <= k < contacts@.len() implies dials_phone(
        #[trigger] actions@[k],
        request,
        contacts@[k],
        contacts@.len(),
    ) by {
        assert(seen[k] == actions@[k]@);
        assert(routes[k] == registrar::route_view(contacts@[k]));
        let user = outbound::contact_user(contacts@[k].0@, request.discord_username@);
        let place = user + "@"@ + registrar::addr_text(contacts@[k].1@);
        assert(seen[k] == outbound::dial(request@, routes[k], routes.len()));
    }
}

/// The request of a call is found again when the call is answered, and only then
/// it is gone. An answer without a request is hung up.
pub proof fn law_answer_finds_its_request(
    state: &mut BridgeCoordinator,
    tracking_id: &str,
    call_id: CallId,
    r: Result<OutboundCallRequest, Vec<Action>>,
    other: Seq<char>,
)
    requires
        call_ensures(
            BridgeCoordinator::take_answered_request,
            (state, tracking_id, call_id),
            r,
        ),
    ensures
        old(state)@.outbound.requests.contains_key(tracking_id@) ==> (r matches Ok(request)
            && request@ == old(state)@.outbound.requests[tracking_id@]),
        !old(state)@.outbound.requests.contains_key(tracking_id@) ==> (r matches Err(actions)
            && actions@.len() == 1 && actions@[0] == (Action::Sip {
            command: SipCommand::Hangup { call_id },
        })),
        !final(state)@.outbound.requests.contains_key(tracking_id@),
        other != tracking_id@ ==> (final(state)@.outbound.requests.contains_key(other)
            <==> old(state)@.outbound.requests.contains_key(other)),
        other != tracking_id@ ==> final(state)@.outbound.requests[other]
            == old(state)@.outbound.requests[other],
        final(state)@.calls == old(state)@.calls,
        final(state)@.bridges == old(state)@.bridges,
        final(state)@.fax == old(state)@.fax,
        final(state)@.outbound.failures == old(state)@.outbound.failures,
{
    if let Err(actions) = r {
        let seen = action::action_views(actions@);
        assert(seen.len() == actions@.len());
        assert(seen[0] == actions@[0]@);
    }
}

/// An answered call is brought to the voice channel of its request: where neither
/// a bridge nor a lease is in the way, exactly one connection to Discord is asked
/// for, to the request's guild and channel. The call is there from then on, in a
/// new instance and with its tracking id, and the channel is leased.
pub proof fn law_answered_call_goes_to_its_channel(
    state: &mut BridgeCoordinator,
    request: OutboundCallRequest,
    tracking_id: String,
    call_id: CallId,
    guild: Snowflake,
    channel: Snowflake,
    connecting: Option<Vec<i16>>,
    now: Instant,
    start: AnsweredStart,
    other: i32,
)
    requires
        call_ensures(
            BridgeCoordinator::on_answered_request,
            (state, request, tracking_id, call_id, Ok(guild), Ok(channel), connecting, now),
            start,
        ),
        incoming_laws::way_is_free(old(state)@, guild, channel),
    ensures
        start.conflict is None,
        start.actions@.len() == (if connecting is Some {
            2int
        } else {
            1int
        }),
        connecting matches Some(samples) ==> (start.actions@[0] matches Action::Sip {
            command: SipCommand::StartConnectingLoop { call_id: c, samples: s },
        } && c == call_id && s@ == samples@),
        start.actions@.last() matches Action::Connect { bridge_id, guild_id, channel_id }
            && guild_id == guild && channel_id == channel && bridge_id@ == "bridge_"@
            + text::decimal(channel.raw as nat),
        start.waiting matches Some(waiting) && waiting.request@ == request@ && waiting.call_id
            == call_id && waiting.guild_id == guild && waiting.lease.channel_id == channel
            && waiting.instance_id == old(state)@.calls.next_instance,
        final(state)@.bridges.pending == old(state)@.bridges.pending.insert(channel.raw),
        final(state)@.bridges.bridges == old(state)@.bridges.bridges,
        final(state)@.calls.calls.contains_key(call_id.raw),
        ({
            let info: calls::CallView = final(state)@.calls.calls[call_id.raw];
            &&& info.instance_id == old(state)@.calls.next_instance
            &&& info.tracking_id == Some(tracking_id@)
            &&& info.guild_id == Some(guild)
            &&& info.channel_id is None
        }),
        final(state)@.calls.next_instance != old(state)@.calls.next_instance,
        other != call_id.raw ==> (final(state)@.calls.calls.contains_key(other)
            <==> old(state)@.calls.calls.contains_key(other)),
        other != call_id.raw ==> final(state)@.calls.calls[other]
            == old(state)@.calls.calls[other],
        final(state)@.fax == old(state)@.fax,
        final(state)@.outbound == old(state)@.outbound,
{
    let seen = action::action_views(start.actions@);
    assert(seen.len() == start.actions@.len());
    assert(!old(state)@.bridges.has_conflict(guild, None));
    assert(seen[0] == start.actions@[0]@);
    assert(seen.last() == start.actions@.last()@);
}

/// An outbound call whose guild is busy, or whose ids cannot be read, is told to
/// the backend as failed inside the bridge and hung up. No connection is asked
/// for, no bridge and no lease is touched, and no call is left behind.
pub proof fn law_answered_call_that_cannot_be_bridged_is_hung_up(
    state: &mut BridgeCoordinator,
    request: OutboundCallRequest,
    tracking_id: String,
    call_id: CallId,
    guild: Result<Snowflake, String>,
    channel: Result<Snowflake, String>,
    connecting: Option<Vec<i16>>,
    now: Instant,
    start: AnsweredStart,
    in_the_way: u64,
)
    requires
        call_ensures(
            BridgeCoordinator::on_answered_request,
            (state, request, tracking_id, call_id, guild, channel, connecting, now),
            start,
        ),
        guild is Err || channel is Err || old(state)@.bridges.pending.contains(
            (channel->Ok_0).raw,
        ) || (old(state)@.bridges.bridges.contains_key(in_the_way) && old(
            state,
        )@.bridges.bridges[in_the_way].guild_id == guild->Ok_0),
    ensures
        start.waiting is None,
        start.actions@.len() >= 2,
        start.actions@.last() == (Action::Sip { command: SipCommand::Hangup { call_id } }),
        start.actions@[start.actions@.len() - 2] matches Action::Diagnose {
            tracking_id: told,
            status,
            ..
        } && told@ == request.call_id@ && status == OutboundCallStatus::Failed(
            OutboundCallFailureReason::Internal,
        ),
        forall|k: int|
            0 <= k < start.actions@.len() ==> !((#[trigger] start.actions@[k]) is Connect),
        final(state)@.bridges == old(state)@.bridges,
        final(state)@.fax == old(state)@.fax,
        final(state)@.outbound == old(state)@.outbound,
        guild is Ok && channel is Ok ==> !final(state)@.calls.calls.contains_key(call_id.raw),
{
    let seen = action::action_views(start.actions@);
    assert(seen.len() == start.actions@.len());
    if guild is Ok && channel is Ok {
        if old(state)@.bridges.bridges.contains_key(in_the_way) && old(
            state,
        )@.bridges.bridges[in_the_way].guild_id == guild->Ok_0 {
            assert(old(state)@.bridges.conflicts(guild->Ok_0, None, in_the_way));
        }
        assert(start.conflict is Some);
    }
    assert(seen.last() == start.actions@.last()@);
    assert(seen[seen.len() - 2] == start.actions@[start.actions@.len() - 2]@);
    assert forall|k: int| 0 <= k < start.actions@.len() implies !(
    (#[trigger] start.actions@[k]) is Connect) by {
        assert(seen[k] == start.actions@[k]@);
    }
}

/// Once Discord is connected for an answered call that is still there, the bridge
/// of its channel stands over that connection, in the guild and with the token of
/// the request, and the call is on it. The backend is told that the call is
/// connected.
pub proof fn law_answered_call_is_on_the_bridge(
    state: &mut BridgeCoordinator,
    waiting: AnsweredCall,
    connection: u64,
    join: Option<Vec<i16>>,
    now: Instant,
    actions: Vec<Action>,
)
    requires
        call_ensures(
            BridgeCoordinator::on_answered_connected,
            (state, waiting, Ok(connection), join, now),
            actions,
        ),
        incoming_laws::call_is_there(old(state)@, waiting.call_id, waiting.instance_id),
    ensures
        ({
            let channel = waiting.lease.channel_id;
            let bridge = final(state)@.bridges.bridges[channel.raw];
            let info = final(state)@.calls.calls[waiting.call_id.raw];
            let before = old(state)@.calls.calls[waiting.call_id.raw];
            &&& final(state)@.bridges.bridges.contains_key(channel.raw)
            &&& bridge.connection == connection
            &&& bridge.guild_id == waiting.guild_id
            &&& bridge.bot_token == waiting.request.bot_token@
            &&& forall|id: i32| bridge.calls.contains(id) <==> id == waiting.call_id.raw
            &&& bridge.created_at == now
            &&& bridge.last_call_time == now
            &&& bridge.reconnect_attempts == 0
            &&& bridge.last_reconnect_at is None
            &&& !final(state)@.bridges.pending.contains(channel.raw)
            &&& final(state)@.calls.calls.contains_key(waiting.call_id.raw)
            &&& info.channel_id == Some(channel)
            &&& info.guild_id == Some(waiting.guild_id)
            &&& info.instance_id == before.instance_id
            &&& info.tracking_id == before.tracking_id
            &&& info.user_id == before.user_id
            &&& incoming_laws::same_elsewhere(
                old(state)@,
                final(state)@,
                waiting.call_id,
                channel,
            )
            &&& actions@.len() == (if join is Some {
                6int
            } else {
                5int
            })
            &&& actions@[0] == (Action::SetupRings { channel_id: channel })
            &&& actions@[1] == (Action::RegisterCallChannel {
                call_id: waiting.call_id,
                channel_id: channel,
            })
            &&& actions@[3] == (Action::ForgetOutbound { call_id: waiting.call_id })
            &&& join matches Some(samples) ==> (actions@[4] matches Action::Sip {
                command: SipCommand::PlayDirectToCall { call_id, samples: played },
            } && call_id == waiting.call_id && played@ == samples@)
            &&& actions@.last() == (Action::WakeWaiters { channel_id: channel })
            &&& actions@[2] matches Action::Diagnose { tracking_id, status, .. }
            &&& tracking_id@ == waiting.request.call_id@
            &&& status == OutboundCallStatus::Connected
        }),
{
    let seen = action::action_views(actions@);
    assert(seen.len() == actions@.len());
    assert(seen[0] == actions@[0]@);
    assert(seen[1] == actions@[1]@);
    assert(seen[2] == actions@[2]@);
    assert(seen[3] == actions@[3]@);
    assert(seen[4] == actions@[4]@);
    assert(seen.last() == actions@.last()@);
}

/// The connection that was made for a call is the one that is given up at its end:
/// when the call is the last one on the bridge, the bridge goes, and Discord is
/// left over exactly this connection.
pub proof fn law_connection_ends_with_its_last_call(
    state: &mut BridgeCoordinator,
    waiting: AnsweredCall,
    connection: u64,
    join: Option<Vec<i16>>,
    now: Instant,
    actions: Vec<Action>,
    later: &mut BridgeCoordinator,
    ending: Vec<Action>,
)
    requires
        call_ensures(
            BridgeCoordinator::on_answered_connected,
            (state, waiting, Ok(connection), join, now),
            actions,
        ),
        incoming_laws::call_is_there(old(state)@, waiting.call_id, waiting.instance_id),
        old(later)@ == final(state)@,
        !old(state)@.fax.sessions.contains_key(waiting.call_id.raw),
        call_ensures(BridgeCoordinator::on_call_ended, (later, waiting.call_id), ending),
    ensures
        ({
            let channel = waiting.lease.channel_id;
            let n = ending@.len();
            &&& n >= 3
            &&& ending@[n - 3] == (Action::CleanupPort { channel_id: channel })
            &&& ending@[n - 2] == (Action::TeardownRings { channel_id: channel })
            &&& ending@[n - 1] == (Action::Disconnect { connection })
            &&& forall|k: int|
                0 <= k < n - 1 ==> !((#[trigger] ending@[k]) is Disconnect)
            &&& !final(later)@.bridges.bridges.contains_key(channel.raw)
            &&& !final(later)@.calls.calls.contains_key(waiting.call_id.raw)
        }),
{
    let channel = waiting.lease.channel_id;
    let seen = action::action_views(ending@);
    assert(seen.len() == ending@.len());
    assert(old(later)@.bridges.others(channel, waiting.call_id) =~= Set::<i32>::empty());
    let n = ending@.len();
    assert(seen[n - 3] == ending@[n - 3]@);
    assert(seen[n - 2] == ending@[n - 2]@);
    assert(seen[n - 1] == ending@[n - 1]@);
    assert forall|k: int| 0 <= k < n - 1 implies !((#[trigger] ending@[k]) is Disconnect) by {
        assert(seen[k] == ending@[k]@);
    }
}

/// A connection that could not be made for a call that is still there is told to
/// the backend with its error, and the call is hung up and gone; one that was made
/// too late is given up. Neither leaves a bridge or a lease.
pub proof fn law_answered_call_without_discord_ends(
    state: &mut BridgeCoordinator,
    waiting: AnsweredCall,
    outcome: Result<u64, String>,
    join: Option<Vec<i16>>,
    now: Instant,
    actions: Vec<Action>,
)
    requires
        call_ensures(
            BridgeCoordinator::on_answered_connected,
            (state, waiting, outcome, join, now),
            actions,
        ),
        outcome is Err || !incoming_laws::call_is_there(
            old(state)@,
            waiting.call_id,
            waiting.instance_id,
        ),
    ensures
        ({
            let there = incoming_laws::call_is_there(
                old(state)@,
                waiting.call_id,
                waiting.instance_id,
            );
            &&& final(state)@.bridges.bridges == old(state)@.bridges.bridges
            &&& !final(state)@.bridges.pending.contains(waiting.lease.channel_id.raw)
            &&& !incoming_laws::call_is_there(
                final(state)@,
                waiting.call_id,
                waiting.instance_id,
            )
            &&& actions@.len() > 0
            &&& actions@.last() == (Action::WakeWaiters { channel_id: waiting.lease.channel_id })
            &&& outcome matches Ok(connection) ==> actions@.len() == 2 && actions@[0]
                == (Action::Disconnect { connection }) && final(state)@.calls
                == old(state)@.calls
            &&& outcome is Err && !there ==> actions@.len() == 1 && final(state)@.calls
                == old(state)@.calls
            &&& outcome is Err && there ==> {
                &&& actions@.len() == 3
                &&& actions@[1] == (Action::Sip {
                    command: SipCommand::Hangup { call_id: waiting.call_id },
                })
                &&& actions@[0] matches Action::Diagnose { tracking_id, status, diagnostics }
                &&& tracking_id@ == waiting.request.call_id@
                &&& status == OutboundCallStatus::Failed(OutboundCallFailureReason::Internal)
                &&& diagnostics.detail matches Some(detail)
                &&& detail@ == outcome->Err_0@
            }
        }),
{
    let seen = action::action_views(actions@);
    assert(seen.len() == actions@.len());
    assert(seen[0] == actions@[0]@);
    assert(seen.last() == actions@.last()@);
    if seen.len() > 1 {
        assert(seen[1] == actions@[1]@);
    }
}

/// What an answer of a leg asks for.
pub proof fn lemma_answer_effect(
    forks: fork_group::ForksView,
    tracking_id: Seq<char>,
    call_id: CallId,
    seen: Seq<action::ActionView>,
    leg: i32,
)
    requires
        forks.wf(),
        sip_events::answer_effect(forks, tracking_id, call_id, seen),
    ensures
        ({
            let group = forks.groups[tracking_id];
            let waited = forks.groups.contains_key(tracking_id);
            &&& waited ==> {
                &&& seen.len() >= 2
                &&& seen[seen.len() - 2] == (action::ActionView::Report {
                    tracking_id,
                    status: OutboundCallStatus::Answered,
                })
                &&& seen.last() == (action::ActionView::StartAnswered { tracking_id, call_id })
                &&& is_hung_up(seen, leg) <==> group.siblings.contains(leg)
                    && !group.failed.contains(leg) && leg != call_id.raw
                &&& is_forgotten(seen, leg) <==> is_hung_up(seen, leg)
                &&& forall|k: int|
                    0 <= k < seen.len() - 2 ==> (#[trigger] seen[k]) is ForgetOutbound
                        || action::hangs_up(seen[k])
            }
            &&& !waited ==> {
                &&& is_hung_up(seen, leg) <==> leg == call_id.raw
                &&& is_forgotten(seen, leg) <==> leg == call_id.raw
                &&& seen.len() == 2
            }
        }),
{
    if forks.groups.contains_key(tracking_id) {
        assert(forks.groups[tracking_id].open_group());
        let set = forks.rivals(tracking_id, call_id.raw);
        let tail = seq![
            action::ActionView::Report {
                tracking_id,
                status: OutboundCallStatus::Answered,
            },
            action::ActionView::StartAnswered { tracking_id, call_id },
        ];
        let legs = choose|legs: Seq<CallId>|
            table::enumerates(fork_group::raw_ids(legs), set) && seen
                == #[trigger] sip_events::drop_legs(legs) + tail;
        lemma_dropped_set(legs, set, leg);
        let dropped = sip_events::drop_legs(legs);
        assert forall|k: int| 0 <= k < seen.len() - 2 implies (
        #[trigger] seen[k]) is ForgetOutbound || action::hangs_up(seen[k]) by {
            assert(seen[k] == dropped[k]);
        }
        if is_hung_up(dropped, leg) {
            let k = choose|k: int|
                0 <= k < dropped.len() && #[trigger] dropped[k] == (action::ActionView::Sip {
                    command: types::SipCommandView::Hangup { call_id: CallId { raw: leg } },
                });
            assert(seen[k] == dropped[k]);
        }
        if is_hung_up(seen, leg) {
            let k = choose|k: int|
                0 <= k < seen.len() && #[trigger] seen[k] == (action::ActionView::Sip {
                    command: types::SipCommandView::Hangup { call_id: CallId { raw: leg } },
                });
            assert(k < dropped.len());
            assert(dropped[k] == seen[k]);
        }
        if is_forgotten(dropped, leg) {
            let k = choose|k: int|
                0 <= k < dropped.len() && #[trigger] dropped[k]
                    == (action::ActionView::ForgetOutbound { call_id: CallId { raw: leg } });
            assert(seen[k] == dropped[k]);
        }
        if is_forgotten(seen, leg) {
            let k = choose|k: int|
                0 <= k < seen.len() && #[trigger] seen[k]
                    == (action::ActionView::ForgetOutbound { call_id: CallId { raw: leg } });
            assert(k < dropped.len());
            assert(dropped[k] == seen[k]);
        }
    } else {
        let one = seq![call_id];
        assert(fork_group::raw_ids(one) =~= seq![call_id.raw]);
        assert(fork_group::raw_ids(one)[0] == call_id.raw);
        let set = set![call_id.raw];
        assert forall|a: i32| fork_group::raw_ids(one).contains(a) <==> #[trigger] set.contains(
            a,
        ) by {
            assert(fork_group::raw_ids(one)[0] == call_id.raw);
        }
        lemma_dropped_set(one, set, leg);
        law_dropped_legs_are_hung_up(one);
    }
}

/// The first answer of a call wins: its legs are dropped, all but the answered one
/// and those that failed, the backend is told, and the call goes on with the
/// answered leg. A leg that is answered when nobody waits for it is dropped.
pub proof fn law_first_answer_takes_the_call(
    state: &mut BridgeCoordinator,
    forks: &mut ForkGroups,
    tracking_id: String,
    call_id: CallId,
    now: Instant,
    actions: Vec<Action>,
    leg: i32,
    other: Seq<char>,
)
    requires
        call_ensures(
            BridgeCoordinator::on_outbound_answered,
            (state, forks, tracking_id, call_id, now),
            actions,
        ),
        old(forks)@.wf(),
    ensures
        ({
            let seen = action::action_views(actions@);
            let group = old(forks)@.groups[tracking_id@];
            let waited = old(forks)@.groups.contains_key(tracking_id@);
            &&& waited ==> {
                &&& actions@.len() >= 2
                &&& actions@[actions@.len() - 2] matches Action::Report { tracking_id: id, status }
                &&& id@ == tracking_id@
                &&& status == OutboundCallStatus::Answered
                &&& actions@[actions@.len() - 1] matches Action::StartAnswered {
                    tracking_id: id,
                    call_id: started,
                }
                &&& id@ == tracking_id@
                &&& started == call_id
                &&& is_hung_up(seen, leg) <==> group.siblings.contains(leg)
                    && !group.failed.contains(leg) && leg != call_id.raw
                &&& is_forgotten(seen, leg) <==> is_hung_up(seen, leg)
                &&& forall|k: int|
                    0 <= k < seen.len() - 2 ==> (#[trigger] seen[k]) is ForgetOutbound
                        || action::hangs_up(seen[k])
            }
            &&& !waited ==> {
                &&& is_hung_up(seen, leg) <==> leg == call_id.raw
                &&& is_forgotten(seen, leg) <==> leg == call_id.raw
                &&& actions@.len() == 2
            }
            &&& !final(forks)@.groups.contains_key(tracking_id@)
            &&& final(forks)@.resolved.contains_key(tracking_id@)
            &&& final(forks)@.resolved[tracking_id@] == now
            &&& other != tracking_id@ ==> (final(forks)@.groups.contains_key(other) <==> old(
                forks,
            )@.groups.contains_key(other)) && final(forks)@.groups[other]
                == old(forks)@.groups[other]
            &&& final(state)@.calls == old(state)@.calls
            &&& final(state)@.bridges == old(state)@.bridges
            &&& final(state)@.outbound.requests == old(state)@.outbound.requests
            &&& !final(state)@.outbound.failures.contains_key(tracking_id@)
            &&& other != tracking_id@ ==> (final(state)@.outbound.failures.contains_key(other)
                <==> old(state)@.outbound.failures.contains_key(other))
                && final(state)@.outbound.failures[other] == old(state)@.outbound.failures[other]
            &&& final(state)@.fax == old(state)@.fax
        }),
{
    let seen = action::action_views(actions@);
    assert(seen.len() == actions@.len());
    lemma_answer_effect(old(forks)@, tracking_id@, call_id, seen, leg);
    if old(forks)@.groups.contains_key(tracking_id@) {
        assert(seen[seen.len() - 2] == actions@[actions@.len() - 2]@);
        assert(seen[seen.len() - 1] == actions@[actions@.len() - 1]@);
    }
}

/// A cancelled call is over: every leg that rings, and every call that carries its
/// tracking id, is forgotten and hung up, and no other. Its request and its
/// failures are gone, and no leg can be added any more.
pub proof fn law_cancelled_call_is_over(
    state: &mut BridgeCoordinator,
    forks: &mut ForkGroups,
    id: &str,
    now: Instant,
    actions: Vec<Action>,
    leg: i32,
    other: Seq<char>,
)
    requires
        call_ensures(BridgeCoordinator::on_outbound_cancel, (state, forks, id, now), actions),
        old(forks)@.wf(),
    ensures
        ({
            let seen = action::action_views(actions@);
            let rings = old(forks)@.groups.contains_key(id@) && old(
                forks,
            )@.groups[id@].siblings.contains(leg) && !old(forks)@.groups[id@].failed.contains(leg);
            let connected = old(state)@.calls.calls.contains_key(leg) && old(
                state,
            )@.calls.calls[leg].tracking_id == Some(id@);
            &&& is_hung_up(seen, leg) <==> rings || connected
            &&& is_forgotten(seen, leg) <==> rings || connected
            &&& forall|k: int|
                0 <= k < seen.len() ==> (#[trigger] seen[k]) is ForgetOutbound
                    || action::hangs_up(seen[k])
            &&& !final(state)@.outbound.requests.contains_key(id@)
            &&& !final(state)@.outbound.failures.contains_key(id@)
            &&& other != id@ ==> (final(state)@.outbound.requests.contains_key(other) <==> old(
                state,
            )@.outbound.requests.contains_key(other)) && final(state)@.outbound.requests[other]
                == old(state)@.outbound.requests[other]
            &&& other != id@ ==> (final(state)@.outbound.failures.contains_key(other) <==> old(
                state,
            )@.outbound.failures.contains_key(other)) && final(state)@.outbound.failures[other]
                == old(state)@.outbound.failures[other]
            &&& final(state)@.fax == old(state)@.fax
            &&& !final(forks)@.groups.contains_key(id@)
            &&& final(forks)@.resolved.contains_key(id@)
            &&& final(forks)@.resolved[id@] == now
            &&& other != id@ ==> (final(forks)@.groups.contains_key(other) <==> old(
                forks,
            )@.groups.contains_key(other)) && final(forks)@.groups[other]
                == old(forks)@.groups[other]
            &&& final(state)@.calls == old(state)@.calls
            &&& final(state)@.bridges == old(state)@.bridges
        }),
{
    let seen = action::action_views(actions@);
    let set = old(forks)@.live_legs(id@) + old(state)@.calls.legs_of(id@);
    let legs = choose|legs: Seq<CallId>|
        table::enumerates(fork_group::raw_ids(legs), set) && seen
            == #[trigger] sip_events::drop_legs(legs);
    lemma_dropped_set(legs, set, leg);
    law_dropped_legs_are_hung_up(legs);
    assert forall|k: int| 0 <= k < seen.len() implies (#[trigger] seen[k]) is ForgetOutbound
        || action::hangs_up(seen[k]) by {
        let i = k / 2;
        let leg_of = legs[i];
        assert(seen[2 * i] == (action::ActionView::ForgetOutbound { call_id: leg_of }));
        assert(seen[2 * i + 1] == (action::ActionView::Sip {
            command: types::SipCommandView::Hangup { call_id: leg_of },
        }));
        assert(k == 2 * i || k == 2 * i + 1);
    }
}

} // verus!
