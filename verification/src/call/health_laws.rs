//! What the periodic check does to bridges, to requests and to forks.
//!
//! The laws speak of what the operations are given and of what they give.

use crate::call::action;
use crate::call::action::Action;
use crate::call::bridges::{Bridges, ChannelBridge, PendingBridgeLease};
use crate::call::calls::SipCalls;
use crate::call::coordinator;
use crate::call::coordinator::BridgeCoordinator;
use crate::call::event_laws;
use crate::call::health;
use crate::call::health::{
    BridgeVerdict, HealthPlan, HealthReading, ReconnectCandidate, ReconnectConfig, Reconnecting,
};
use crate::ids::{CallId, Snowflake};
use crate::table;
use crate::text;
use crate::time::Instant;
use crate::transport::sip::fork_group;
use crate::transport::sip::fork_group::ForkGroups;
use crate::transport::sip::types;
use vstd::prelude::*;

verus! {

/// The whole seconds that have passed since a point in time.
pub open spec fn secs_since(then: Instant, now: Instant) -> int {
    if now.nanos >= then.nanos {
        (now.nanos - then.nanos) / 1_000_000_000
    } else {
        0
    }
}

/// Whether a connection is doing badly: it is not healthy, or its queue is more
/// than 90 percent full and has overflown more than 50 times in a row.
pub open spec fn does_badly(reading: HealthReading) -> bool {
    ||| !reading.is_healthy
    ||| (reading.queue_fill > 90 && reading.consecutive_overflows > 50)
}

/// A bridge is reconnected when it does badly, is old enough, was not reconnected
/// too often, and has waited for its delay; each reason against it is told by its
/// own result, the first one that holds.
pub proof fn law_bad_bridge_is_reconnected_in_time(
    bridge: &ChannelBridge,
    reading: HealthReading,
    config: &ReconnectConfig,
    now: Instant,
    found: BridgeVerdict,
    delay: u64,
)
    requires
        call_ensures(ChannelBridge::verdict, (bridge, reading, config, now), found),
        bridge.last_reconnect_at is Some ==> call_ensures(
            ReconnectConfig::backoff_secs,
            (config, bridge.reconnect_attempts),
            delay,
        ),
    ensures
        ({
            let bad = does_badly(reading);
            let young = secs_since(bridge.created_at, now) < config.reconnect_min_age_secs;
            let spent = bridge.reconnect_attempts >= config.reconnect_max_attempts;
            let waits = bridge.last_reconnect_at is Some && secs_since(
                bridge.last_reconnect_at->0,
                now,
            ) < delay;
            &&& found is Fine <==> !bad
            &&& found is TooYoung <==> bad && young
            &&& found is Exhausted <==> bad && !young && spent
            &&& found is BackingOff <==> bad && !young && !spent && waits
            &&& found is Reconnect <==> bad && !young && !spent && !waits
        }),
{
}

/// The delay before a reconnection begins with the base delay and doubles from one
/// attempt to the next, up to its limit.
pub proof fn law_delay_doubles_up_to_its_limit(
    config: &ReconnectConfig,
    attempts: u32,
    delay: u64,
    next: u64,
)
    requires
        0 < attempts < u32::MAX,
        config.raw_backoff((attempts + 1) as u32) <= u64::MAX,
        call_ensures(ReconnectConfig::backoff_secs, (config, attempts), delay),
        call_ensures(ReconnectConfig::backoff_secs, (config, (attempts + 1) as u32), next),
    ensures
        attempts == 1 ==> delay == (if config.reconnect_base_delay_secs
            <= config.reconnect_max_delay_secs {
            config.reconnect_base_delay_secs
        } else {
            config.reconnect_max_delay_secs
        }),
        next == (if 2 * delay <= config.reconnect_max_delay_secs {
            2 * delay
        } else {
            config.reconnect_max_delay_secs as int
        }),
{
    let base = config.reconnect_base_delay_secs as nat;
    let n = (attempts - 1) as nat;
    let a = health::doubled(n);
    assert(health::doubled((n + 1) as nat) == 2 * a);
    assert(health::doubled(0) == 1);
    assert(base * 1 == base);
    assert(base * (2 * a) == 2 * (base * a)) by (nonlinear_arith);
    let big = u64::MAX as nat;
    if 2 * a > u64::MAX {
        assert(base <= 1) by (nonlinear_arith)
            requires
                base * big <= big,
                big > 1,
        ;
        if base == 0 {
            assert(base * health::doubled_capped(n) == 0) by (nonlinear_arith)
                requires
                    base == 0,
            ;
            assert(base * big == 0) by (nonlinear_arith)
                requires
                    base == 0,
            ;
        } else {
            assert(base * health::doubled_capped(n) == health::doubled_capped(n))
                by (nonlinear_arith)
                requires
                    base == 1,
            ;
            assert(base * big == big) by (nonlinear_arith)
                requires
                    base == 1,
            ;
        }
    }
}

/// Before any reconnection the delay is that before the second one.
pub proof fn law_delay_of_no_attempt(config: &ReconnectConfig, delay: u64, first: u64)
    requires
        call_ensures(ReconnectConfig::backoff_secs, (config, 0), delay),
        call_ensures(ReconnectConfig::backoff_secs, (config, 1), first),
    ensures
        delay == first,
{
}

/// Whether a reading of a channel that has a bridge leads to a result.
pub open spec fn leads_to(
    state: coordinator::CoordView,
    reading: (Snowflake, HealthReading),
    config: ReconnectConfig,
    now: Instant,
    found: BridgeVerdict,
) -> bool {
    &&& state.bridges.bridges.contains_key(reading.0.raw)
    &&& state.bridges.bridges[reading.0.raw].verdict(reading.1, config, now) == found
}

proof fn lemma_with_verdict(
    state: coordinator::CoordView,
    readings: Seq<(Snowflake, HealthReading)>,
    config: ReconnectConfig,
    now: Instant,
    found: BridgeVerdict,
    channel: Snowflake,
)
    ensures
        health::with_verdict(state.bridges, readings, found, config, now).contains(channel)
            <==> exists|k: int|
            0 <= k < readings.len() && (#[trigger] readings[k]).0 == channel && leads_to(
                state,
                readings[k],
                config,
                now,
                found,
            ),
        health::with_verdict(state.bridges, readings, found, config, now).len() <= readings.len(),
    decreases readings.len(),
{
    if readings.len() > 0 {
        let rest = readings.drop_last();
        lemma_with_verdict(state, rest, config, now, found, channel);
        let earlier = health::with_verdict(state.bridges, rest, found, config, now);
        table::lemma_push_contains(earlier, readings.last().0, channel);
        if exists|k: int|
            0 <= k < rest.len() && (#[trigger] rest[k]).0 == channel && leads_to(
                state,
                rest[k],
                config,
                now,
                found,
            ) {
            let k = choose|k: int|
                0 <= k < rest.len() && (#[trigger] rest[k]).0 == channel && leads_to(
                    state,
                    rest[k],
                    config,
                    now,
                    found,
                );
            assert(readings[k] == rest[k]);
        }
        if exists|k: int|
            0 <= k < readings.len() && (#[trigger] readings[k]).0 == channel && leads_to(
                state,
                readings[k],
                config,
                now,
                found,
            ) {
            let k = choose|k: int|
                0 <= k < readings.len() && (#[trigger] readings[k]).0 == channel && leads_to(
                    state,
                    readings[k],
                    config,
                    now,
                    found,
                );
            if k < rest.len() {
                assert(rest[k] == readings[k]);
            } else {
                assert(readings[k] == readings.last());
            }
        }
        assert(readings[readings.len() - 1] == readings.last());
    }
}

/// The plan of a check names each bridge that was reconnected too often among those
/// that are given up. What it reconnects are bridges that are due, each with its
/// guild and the number of its attempts, and all of them unless there are more than
/// one check may reconnect.
pub proof fn law_plan_names_the_right_bridges(
    via: &BridgeCoordinator,
    readings: &Vec<(Snowflake, HealthReading)>,
    config: &ReconnectConfig,
    now: Instant,
    plan: HealthPlan,
    channel: Snowflake,
)
    requires
        call_ensures(BridgeCoordinator::plan_health, (via, readings, config, now), plan),
    ensures
        plan.exhausted@.contains(channel) <==> exists|k: int|
            0 <= k < readings@.len() && (#[trigger] readings@[k]).0 == channel && leads_to(
                via@,
                readings@[k],
                *config,
                now,
                BridgeVerdict::Exhausted,
            ),
        plan.reconnect@.len() <= config.reconnect_max_per_cycle,
        forall|j: int|
            0 <= j < plan.reconnect@.len() ==> {
                let c = #[trigger] plan.reconnect@[j];
                &&& via@.bridges.bridges.contains_key(c.channel_id.raw)
                &&& c.guild_id == via@.bridges.bridges[c.channel_id.raw].guild_id
                &&& c.attempts == via@.bridges.bridges[c.channel_id.raw].reconnect_attempts
                &&& exists|k: int|
                    0 <= k < readings@.len() && (#[trigger] readings@[k]).0 == c.channel_id
                        && leads_to(via@, readings@[k], *config, now, BridgeVerdict::Reconnect)
            },
        plan.reconnect@.len() < config.reconnect_max_per_cycle && (exists|k: int|
            0 <= k < readings@.len() && (#[trigger] readings@[k]).0 == channel && leads_to(
                via@,
                readings@[k],
                *config,
                now,
                BridgeVerdict::Reconnect,
            )) ==> exists|j: int|
            0 <= j < plan.reconnect@.len() && (#[trigger] plan.reconnect@[j]).channel_id == channel,
{
    let due = health::with_verdict(
        via@.bridges,
        readings@,
        BridgeVerdict::Reconnect,
        *config,
        now,
    );
    lemma_with_verdict(via@, readings@, *config, now, BridgeVerdict::Exhausted, channel);
    lemma_with_verdict(via@, readings@, *config, now, BridgeVerdict::Reconnect, channel);
    assert forall|j: int| 0 <= j < plan.reconnect@.len() implies {
        let c = #[trigger] plan.reconnect@[j];
        &&& via@.bridges.bridges.contains_key(c.channel_id.raw)
        &&& c.guild_id == via@.bridges.bridges[c.channel_id.raw].guild_id
        &&& c.attempts == via@.bridges.bridges[c.channel_id.raw].reconnect_attempts
        &&& exists|k: int|
            0 <= k < readings@.len() && (#[trigger] readings@[k]).0 == c.channel_id && leads_to(
                via@,
                readings@[k],
                *config,
                now,
                BridgeVerdict::Reconnect,
            )
    } by {
        let c = plan.reconnect@[j];
        assert(c == health::candidate_of(via@.bridges, due[j]));
        assert(due.contains(due[j]));
        lemma_with_verdict(via@, readings@, *config, now, BridgeVerdict::Reconnect, due[j]);
    }
    if plan.reconnect@.len() < config.reconnect_max_per_cycle && due.contains(channel) {
        let j = choose|j: int| 0 <= j < due.len() && due[j] == channel;
        assert(plan.reconnect@[j].channel_id == channel);
    }
}

/// Whether the bridge of a channel was taken down: it is gone, its port and its
/// buffers are removed and Discord is left. Other bridges stay.
pub open spec fn taken_down(
    before: coordinator::CoordView,
    after: coordinator::CoordView,
    channel: Snowflake,
    actions: Seq<action::ActionView>,
    place: u64,
) -> bool {
    let there = before.bridges.bridges.contains_key(channel.raw);
    &&& !after.bridges.bridges.contains_key(channel.raw)
    &&& after.bridges.pending == before.bridges.pending
    &&& place != channel.raw ==> event_laws::same_bridge(before, after, place)
    &&& after.calls == before.calls
    &&& after.fax == before.fax
    &&& after.outbound == before.outbound
    &&& there ==> {
        &&& event_laws::asks(actions, action::ActionView::CleanupPort { channel_id: channel })
        &&& event_laws::asks(actions, action::ActionView::TeardownRings { channel_id: channel })
        &&& actions.last() == (action::ActionView::Disconnect {
            connection: before.bridges.bridges[channel.raw].connection,
        })
    }
    &&& !there ==> actions.len() == 0
}

/// A bridge that is given up is taken down, and all calls on it are hung up.
pub proof fn law_given_up_bridge_hangs_up_its_calls(
    via: &mut BridgeCoordinator,
    channel: Snowflake,
    actions: Vec<Action>,
    call: i32,
    place: u64,
)
    requires
        call_ensures(BridgeCoordinator::on_bridge_exhausted, (via, channel), actions),
    ensures
        taken_down(old(via)@, final(via)@, channel, action::action_views(actions@), place),
        old(via)@.bridges.bridges.contains_key(channel.raw) ==> (event_laws::asks(
            action::action_views(actions@),
            action::ActionView::Sip {
                command: types::SipCommandView::Hangup { call_id: CallId { raw: call } },
            },
        ) <==> old(via)@.bridges.bridges[channel.raw].calls.contains(call)),
        old(via)@.bridges.bridges.contains_key(channel.raw) ==> actions@.len()
            == old(via)@.bridges.bridges[channel.raw].calls.len() + 3,
{
    let seen = action::action_views(actions@);
    if old(via)@.bridges.bridges.contains_key(channel.raw) {
        let bridge = old(via)@.bridges.bridges[channel.raw];
        let tail = crate::call::sip_events::destroy(channel, bridge.connection);
        let calls = choose|calls: Seq<CallId>|
            table::enumerates(fork_group::raw_ids(calls), bridge.calls) && seen
                == #[trigger] health::hangups(calls) + tail;
        let n = calls.len() as int;
        table::lemma_enumerates(fork_group::raw_ids(calls), bridge.calls);
        assert(seen.len() == actions@.len());
        assert(seen[n] == tail[0]);
        assert(seen[n + 1] == tail[1]);
        assert(seen[n + 2] == tail[2]);
        let ids = fork_group::raw_ids(calls);
        let wanted = action::ActionView::Sip {
            command: types::SipCommandView::Hangup { call_id: CallId { raw: call } },
        };
        assert(ids.contains(call) <==> bridge.calls.contains(call));
        if ids.contains(call) {
            let k = choose|k: int| 0 <= k < ids.len() && ids[k] == call;
            assert(calls[k] == CallId { raw: call });
            assert(seen[k] == wanted);
        }
        if event_laws::asks(seen, wanted) {
            let k = choose|k: int| 0 <= k < seen.len() && #[trigger] seen[k] == wanted;
            assert(k < n);
            assert(seen[k] == action::hangup(calls[k]));
            assert(ids[k] == call);
        }
    }
}

/// A bridge that nobody uses is taken down; nobody is hung up.
pub proof fn law_unused_bridge_is_taken_down(
    via: &mut BridgeCoordinator,
    channel: Snowflake,
    actions: Vec<Action>,
    place: u64,
)
    requires
        call_ensures(BridgeCoordinator::on_bridge_orphaned, (via, channel), actions),
    ensures
        taken_down(old(via)@, final(via)@, channel, action::action_views(actions@), place),
        old(via)@.bridges.bridges.contains_key(channel.raw) ==> actions@.len() == 3,
{
    let seen = action::action_views(actions@);
    assert(seen.len() == actions@.len());
    if old(via)@.bridges.bridges.contains_key(channel.raw) {
        assert(seen[0] == (action::ActionView::CleanupPort { channel_id: channel }));
        assert(seen[1] == (action::ActionView::TeardownRings { channel_id: channel }));
    }
}

/// The bridges that nobody uses are those without a call for longer than the grace
/// time, and those of whose calls none is there any more, half a minute after the
/// last one and a minute after they were made. Each is named once.
pub proof fn law_unused_bridges_are_named(
    via: &BridgeCoordinator,
    grace: u64,
    now: Instant,
    list: Vec<Snowflake>,
    channel: Snowflake,
)
    requires
        call_ensures(BridgeCoordinator::orphaned_bridges, (via, grace, now), list),
    ensures
        list@.no_duplicates(),
        ({
            let bridge = via@.bridges.bridges[channel.raw];
            let idle = secs_since(bridge.last_call_time, now);
            let empty = forall|c: i32| !bridge.calls.contains(c);
            list@.contains(channel) <==> via@.bridges.bridges.contains_key(channel.raw) && (if empty {
                idle > grace
            } else {
                &&& forall|c: i32| #[trigger]
                    bridge.calls.contains(c) ==> !via@.calls.calls.contains_key(c)
                &&& idle > 30
                &&& secs_since(bridge.created_at, now) > 60
            })
        }),
{
    let bridge = via@.bridges.bridges[channel.raw];
    let wanted = Set::new(
        |c: Snowflake|
            via@.bridges.has(c) && via@.bridges.bridges[c.raw].is_orphaned(via@.calls, grace, now),
    );
    assert(list@.contains(channel) <==> wanted.contains(channel));
    if forall|c: i32| !bridge.calls.contains(c) {
        assert(bridge.calls =~= Set::<i32>::empty());
    }
}

/// A reconnection gives a bridge a new connection and leaves it as it was: the same
/// channel and guild, the calls that are still there, and one more attempt. While
/// it lasts the channel is taken and has no bridge; then it is free again, and who
/// waits for it is woken. Discord is left before it is joined again.
pub proof fn law_reconnected_bridge_is_the_same(
    via: &mut BridgeCoordinator,
    candidate: ReconnectCandidate,
    begun: (Option<Reconnecting>, Vec<Action>),
    later: &mut BridgeCoordinator,
    connection: u64,
    now: Instant,
    actions: Vec<Action>,
    call: i32,
    place: u64,
)
    requires
        call_ensures(BridgeCoordinator::begin_reconnect, (via, candidate), begun),
        old(via)@.bridges.bridges.contains_key(candidate.channel_id.raw),
        !old(via)@.bridges.pending.contains(candidate.channel_id.raw),
        begun.0 is Some,
        call_ensures(
            BridgeCoordinator::finish_reconnect,
            (later, begun.0->0, Some(connection), now),
            actions,
        ),
    ensures
        ({
            let channel = candidate.channel_id;
            let bridge = old(via)@.bridges.bridges[channel.raw];
            let anew = final(later)@.bridges.bridges[channel.raw];
            let first = action::action_views(begun.1@);
            let last = action::action_views(actions@);
            &&& !final(via)@.bridges.bridges.contains_key(channel.raw)
            &&& final(via)@.bridges.pending.contains(channel.raw)
            &&& place != channel.raw ==> event_laws::same_bridge(old(via)@, final(via)@, place)
                && event_laws::same_bridge(old(later)@, final(later)@, place)
            &&& first.len() == 3
            &&& first[0] == (action::ActionView::TeardownRings { channel_id: channel })
            &&& first[1] == (action::ActionView::Disconnect { connection: bridge.connection })
            &&& first[2] == (action::ActionView::Connect {
                bridge_id: "bridge_"@ + text::decimal(channel.raw as nat),
                guild_id: candidate.guild_id,
                channel_id: channel,
            })
            &&& final(later)@.bridges.bridges.contains_key(channel.raw)
            &&& !final(later)@.bridges.pending.contains(channel.raw)
            &&& anew.connection == connection
            &&& anew.guild_id == candidate.guild_id
            &&& anew.calls.contains(call) <==> bridge.calls.contains(call)
                && old(later)@.calls.calls.contains_key(call)
            &&& anew.bot_token == bridge.bot_token
            &&& anew.last_call_time == bridge.last_call_time
            &&& anew.created_at == now
            &&& anew.last_reconnect_at == Some(now)
            &&& anew.reconnect_attempts == candidate.attempts + 1
            &&& last.len() == 2
            &&& last[0] == (action::ActionView::SetupRings { channel_id: channel })
            &&& last[1] == (action::ActionView::WakeWaiters { channel_id: channel })
            &&& final(via)@.calls == old(via)@.calls
            &&& final(later)@.calls == old(later)@.calls
        }),
{
}

/// A reconnection that fails leaves the channel free and without a bridge, its port
/// is removed, and who waits for it is woken.
pub proof fn law_failed_reconnection_frees_the_channel(
    later: &mut BridgeCoordinator,
    reconnecting: Reconnecting,
    now: Instant,
    actions: Vec<Action>,
    place: u64,
)
    requires
        call_ensures(
            BridgeCoordinator::finish_reconnect,
            (later, reconnecting, None, now),
            actions,
        ),
    ensures
        ({
            let channel = reconnecting.lease.channel_id;
            let last = action::action_views(actions@);
            &&& event_laws::same_bridge(old(later)@, final(later)@, place)
            &&& !final(later)@.bridges.pending.contains(channel.raw)
            &&& place != channel.raw ==> (final(later)@.bridges.pending.contains(place) <==> old(
                later,
            )@.bridges.pending.contains(place))
            &&& last.len() == 2
            &&& last[0] == (action::ActionView::CleanupPort { channel_id: channel })
            &&& last[1] == (action::ActionView::WakeWaiters { channel_id: channel })
            &&& final(later)@.calls == old(later)@.calls
        }),
{
}

/// A channel that somebody works on is not reconnected, nor is one that has no
/// bridge any more; nothing changes then.
pub proof fn law_taken_channel_is_not_reconnected(
    via: &mut BridgeCoordinator,
    candidate: ReconnectCandidate,
    begun: (Option<Reconnecting>, Vec<Action>),
)
    requires
        call_ensures(BridgeCoordinator::begin_reconnect, (via, candidate), begun),
        !old(via)@.bridges.bridges.contains_key(candidate.channel_id.raw) || old(
            via,
        )@.bridges.pending.contains(candidate.channel_id.raw),
    ensures
        begun.0 is None,
        final(via)@ == old(via)@,
        old(via)@.bridges.pending.contains(candidate.channel_id.raw) ==> begun.1@.len() == 0,
{
    assert(action::action_views(begun.1@).len() == begun.1@.len());
}

/// Whether a text names a channel that has a bridge.
pub open spec fn names_active(state: coordinator::CoordView, name: Seq<char>) -> bool {
    exists|c: u64|
        state.bridges.bridges.contains_key(c) && #[trigger] text::decimal(c as nat) == name
}

/// The backend is told of each active channel once, and of no other; where there is
/// none, nothing is told.
pub proof fn law_heartbeat_tells_the_active_channels(
    via: &BridgeCoordinator,
    actions: Vec<Action>,
    channel: u64,
)
    requires
        call_ensures(BridgeCoordinator::heartbeat, (via,), actions),
    ensures
        actions@.len() == 0 ==> !via@.bridges.bridges.contains_key(channel),
        actions@.len() <= 1,
        actions@.len() == 1 ==> {
            &&& actions@[0]@ is Heartbeat
            &&& via@.bridges.bridges.contains_key(channel)
                ==> actions@[0]@->channel_ids.contains(text::decimal(channel as nat))
            &&& actions@[0]@->channel_ids.len() == via@.bridges.bridges.dom().len()
            &&& forall|k: int|
                0 <= k < actions@[0]@->channel_ids.len() ==> names_active(
                    via@,
                    #[trigger] actions@[0]@->channel_ids[k],
                )
        },
{
    let seen = action::action_views(actions@);
    assert(seen.len() == actions@.len());
    let order = choose|order: Seq<u64>|
        {
            &&& #[trigger] table::enumerates(order, via@.bridges.bridges.dom())
            &&& seen == (if order.len() == 0 {
                seq![]
            } else {
                seq![
                    action::ActionView::Heartbeat {
                        channel_ids: order.map_values(|c: u64| text::decimal(c as nat)),
                    },
                ]
            })
        };
    table::lemma_enumerates(order, via@.bridges.bridges.dom());
    assert(order.contains(channel) <==> via@.bridges.bridges.dom().contains(channel));
    if actions@.len() == 1 {
        assert(seen[0] == actions@[0]@);
        let ids = actions@[0]@->channel_ids;
        if order.contains(channel) {
            let k = choose|k: int| 0 <= k < order.len() && order[k] == channel;
            assert(ids[k] == text::decimal(channel as nat));
        }
        assert forall|k: int| 0 <= k < ids.len() implies names_active(via@, #[trigger] ids[k]) by {
            let c = order[k];
            assert(order.contains(c));
            assert(via@.bridges.bridges.dom().contains(c));
            assert(text::decimal(c as nat) == ids[k]);
        }
    }
}

/// What is too old is forgotten, and nothing else: an outbound call that was asked
/// for a minute ago and was not answered, with the failures of its legs, and a fork
/// that was resolved two minutes ago.
pub proof fn law_sweep_forgets_what_is_too_old(
    via: &mut BridgeCoordinator,
    forks: &mut ForkGroups,
    now: Instant,
    swept: usize,
    id: Seq<char>,
)
    requires
        call_ensures(BridgeCoordinator::sweep_stale, (via, forks, now), swept),
    ensures
        ({
            let known = old(via)@.outbound.requests.contains_key(id);
            let asked = old(via)@.outbound.requests[id].created_at;
            let fresh = known && now.nanos < asked.nanos + 60_000_000_000;
            let resolved = old(forks)@.resolved[id];
            &&& final(via)@.outbound.requests.contains_key(id) <==> fresh
            &&& fresh ==> final(via)@.outbound.requests[id] == old(via)@.outbound.requests[id]
            &&& final(via)@.outbound.failures.contains_key(id) <==> fresh
                && old(via)@.outbound.failures.contains_key(id)
            &&& final(via)@.outbound.failures.contains_key(id)
                ==> final(via)@.outbound.failures[id] == old(via)@.outbound.failures[id]
            &&& final(forks)@.resolved.contains_key(id) <==> old(forks)@.resolved.contains_key(id)
                && now.nanos < resolved.nanos + 120_000_000_000
            &&& final(forks)@.groups == old(forks)@.groups
            &&& swept + final(via)@.outbound.requests.dom().len()
                == old(via)@.outbound.requests.dom().len()
            &&& final(via)@.calls == old(via)@.calls
            &&& final(via)@.bridges == old(via)@.bridges
            &&& final(via)@.fax == old(via)@.fax
        }),
{
}

/// A lease is given to one at a time: who asks while it is out gets none, and it is
/// free again once it was given back.
pub proof fn law_lease_is_given_to_one(
    bridges: &mut Bridges,
    channel: Snowflake,
    first: Option<PendingBridgeLease>,
    then: &mut Bridges,
    second: Option<PendingBridgeLease>,
    last: &mut Bridges,
    wake: Action,
    place: u64,
)
    requires
        !old(bridges)@.pending.contains(channel.raw),
        call_ensures(PendingBridgeLease::try_acquire, (channel, bridges), first),
        old(then)@ == final(bridges)@,
        call_ensures(PendingBridgeLease::try_acquire, (channel, then), second),
        first is Some,
        old(last)@ == final(then)@,
        call_ensures(PendingBridgeLease::release, (first->0, last), wake),
    ensures
        first->0.channel_id == channel,
        second is None,
        final(bridges)@.pending.contains(channel.raw),
        final(last)@.pending =~= old(bridges)@.pending,
        final(last)@.bridges == old(bridges)@.bridges,
        final(bridges)@.bridges == old(bridges)@.bridges,
        place != channel.raw ==> (final(bridges)@.pending.contains(place) <==> old(
            bridges,
        )@.pending.contains(place)),
        wake@ == (action::ActionView::WakeWaiters { channel_id: channel }),
{
}

/// Calls join and leave a bridge one by one: who joined is on it, and the bridge
/// knows when; who left is not, and the bridge goes with the last one.
pub proof fn law_calls_join_and_leave(
    bridges: &mut Bridges,
    channel: Snowflake,
    call: CallId,
    now: Instant,
    then: &mut Bridges,
    last: Option<ChannelBridge>,
    other: i32,
    place: u64,
)
    requires
        call_ensures(Bridges::join, (bridges, channel, call, now), ()),
        call_ensures(Bridges::leave, (then, channel, call), last),
    ensures
        old(bridges)@.bridges.contains_key(channel.raw) ==> {
            let before = old(bridges)@.bridges[channel.raw];
            let after = final(bridges)@.bridges[channel.raw];
            &&& after.calls.contains(call.raw)
            &&& other != call.raw ==> (after.calls.contains(other) <==> before.calls.contains(
                other,
            ))
            &&& after.last_call_time == now
            &&& after.connection == before.connection
            &&& after.guild_id == before.guild_id
            &&& after.created_at == before.created_at
            &&& after.reconnect_attempts == before.reconnect_attempts
        },
        !old(bridges)@.bridges.contains_key(channel.raw) ==> final(bridges)@ == old(bridges)@,
        old(then)@.bridges.contains_key(channel.raw) ==> {
            let before = old(then)@.bridges[channel.raw];
            let after = final(then)@.bridges[channel.raw];
            &&& last is Some <==> forall|c: i32| before.calls.contains(c) ==> c == call.raw
            &&& final(then)@.bridges.contains_key(channel.raw) <==> last is None
            &&& last is None ==> !after.calls.contains(call.raw) && after.connection
                == before.connection && after.last_call_time == before.last_call_time && (other
                != call.raw ==> (after.calls.contains(other) <==> before.calls.contains(other)))
            &&& last matches Some(b) ==> b@.connection == before.connection
        },
        !old(then)@.bridges.contains_key(channel.raw) ==> last is None && final(then)@ == old(
            then,
        )@,
        place != channel.raw ==> final(bridges)@.bridges[place] == old(bridges)@.bridges[place]
            && final(then)@.bridges[place] == old(then)@.bridges[place] && (final(bridges)@.bridges.contains_key(place) <==> old(bridges)@.bridges.contains_key(place)) && (final(then)@.bridges.contains_key(place) <==> old(then)@.bridges.contains_key(place)),
{
    if old(then)@.bridges.contains_key(channel.raw) {
        let before = old(then)@.bridges[channel.raw];
        let others = before.calls.remove(call.raw);
        if forall|c: i32| before.calls.contains(c) ==> c == call.raw {
            assert(others =~= Set::<i32>::empty());
        }
        if others == Set::<i32>::empty() {
            assert forall|c: i32| before.calls.contains(c) implies c == call.raw by {
                if c != call.raw {
                    assert(others.contains(c));
                }
            }
        }
    }
}

/// A guild is taken while one of its channels has a bridge, but for a channel that
/// is left out of account; the channel that is named stands in the way.
pub proof fn law_guild_is_taken(
    bridges: &Bridges,
    guild: Snowflake,
    except: Option<Snowflake>,
    found: Option<Snowflake>,
    channel: u64,
)
    requires
        call_ensures(Bridges::conflicting_channel, (bridges, guild, except), found),
    ensures
        found is None && bridges@.bridges.contains_key(channel) && bridges@.bridges[channel].guild_id
            == guild ==> except == Some(Snowflake { raw: channel }),
        found matches Some(c) ==> bridges@.bridges.contains_key(c.raw)
            && bridges@.bridges[c.raw].guild_id == guild && except != Some(c),
{
    if found is None {
        assert(!bridges@.conflicts(guild, except, channel));
    }
}

/// Of the calls of a bridge those are alive that are still known.
pub proof fn law_known_calls_are_alive(
    calls: &std::collections::HashSet<i32>,
    known: &SipCalls,
    out: std::collections::HashSet<i32>,
    call: i32,
)
    requires
        call_ensures(crate::call::bridges::live_calls, (calls, known), out),
    ensures
        out@.contains(call) <==> calls@.contains(call) && known@.calls.contains_key(call),
{
}

/// A delay is needed for a bridge that does badly, is old enough, was reconnected
/// before and was not given up; it can be computed if the base delay, doubled once
/// for each attempt but the first, fits.
pub proof fn law_delay_is_needed_for_bad_bridges(
    bridge: &ChannelBridge,
    reading: HealthReading,
    config: &ReconnectConfig,
    now: Instant,
    fits: bool,
    reconnects: bool,
    reading_ref: &HealthReading,
    computable: bool,
)
    requires
        *reading_ref == reading,
        call_ensures(ChannelBridge::has_delay, (bridge, reading, config, now), fits),
        call_ensures(HealthReading::needs_reconnect, (reading_ref,), reconnects),
        call_ensures(
            ReconnectConfig::backoff_can_be_computed,
            (config, bridge.reconnect_attempts),
            computable,
        ),
    ensures
        reconnects <==> does_badly(reading),
        fits <==> computable || !(does_badly(reading) && secs_since(bridge.created_at, now)
            >= config.reconnect_min_age_secs && bridge.reconnect_attempts
            < config.reconnect_max_attempts && bridge.last_reconnect_at is Some),
        config.reconnect_base_delay_secs == 0 ==> computable,
        bridge.reconnect_attempts <= 1 ==> computable,
{
    let base = config.reconnect_base_delay_secs as nat;
    let n = health::doublings(bridge.reconnect_attempts);
    let factor = health::doubled_capped(n);
    if base == 0 {
        assert(base * factor == 0) by (nonlinear_arith)
            requires
                base == 0,
        ;
    }
    if bridge.reconnect_attempts <= 1 {
        assert(health::doubled(0) == 1);
        assert(factor == 1);
        assert(base * factor == base) by (nonlinear_arith)
            requires
                factor == 1,
        ;
    }
}

} // verus!
