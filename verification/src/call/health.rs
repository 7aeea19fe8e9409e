//! The periodic check of the bridges.
//!
//! Stale outbound calls are swept, bridges that are no longer healthy are
//! reconnected with growing delays, and bridges that cannot be saved or that
//! nobody uses are taken down.

use crate::call::action;
use crate::call::action::{hangup_action, Action};
use crate::call::bridges;
use crate::call::bridges::{live_calls, ChannelBridge, PendingBridgeLease};
use crate::call::calls;
use crate::call::calls::SipCalls;
use crate::call::coordinator;
use crate::call::coordinator::BridgeCoordinator;
use crate::call::outbound;
use crate::call::sip_events;
use crate::ids::{CallId, Snowflake};
use crate::table;
use crate::table::set_to_vec;
use crate::text;
use crate::time;
use crate::time::{Duration, Instant};
use crate::transport::sip::fork_group;
use crate::transport::sip::fork_group::ForkGroups;
use vstd::prelude::*;

verus! {

broadcast use {action::group_actions, vstd::std_specs::hash::group_hash_axioms};

/// How long an outbound call may stay unanswered, in seconds.
pub const REQUEST_MAX_AGE_SECS: u64 = 60;

/// How long a resolved fork is remembered, in seconds.
pub const FORK_MAX_AGE_SECS: u64 = 120;

/// How full the queue of a connection may be, in percent.
pub const MAX_QUEUE_FILL: u64 = 90;

/// How many overflows in a row a full queue may have.
pub const MAX_OVERFLOWS: u64 = 50;

/// When the reconnection of bridges is tried.
#[derive(Debug, Clone, Copy, PartialEq, Eq, Structural)]
pub struct ReconnectConfig {
    /// A bridge younger than this is left alone.
    pub reconnect_min_age_secs: u64,
    /// A bridge that was reconnected this often is given up.
    pub reconnect_max_attempts: u32,
    /// The delay after the first reconnection; it doubles with each further one.
    pub reconnect_base_delay_secs: u64,
    pub reconnect_max_delay_secs: u64,
    /// How many bridges are reconnected in one check.
    pub reconnect_max_per_cycle: usize,
}

/// How the voice connection of a bridge is doing.
#[derive(Debug, Clone, Copy, PartialEq, Eq, Structural)]
pub struct HealthReading {
    pub is_healthy: bool,
    /// In percent.
    pub queue_fill: u64,
    pub consecutive_overflows: u64,
}

impl HealthReading {
    /// Whether the bridge should be reconnected.
    pub open spec fn is_bad(self) -> bool {
        !self.is_healthy || (self.queue_fill > MAX_QUEUE_FILL && self.consecutive_overflows
            > MAX_OVERFLOWS)
    }

    /// Whether the bridge should be reconnected.
    pub fn needs_reconnect(&self) -> (r: bool)
        ensures
            r == self.is_bad(),
    {
        !self.is_healthy || (self.queue_fill > MAX_QUEUE_FILL && self.consecutive_overflows
            > MAX_OVERFLOWS)
    }
}

/// What the check makes of a bridge.
#[derive(Debug, Clone, Copy, PartialEq, Eq, Structural)]
pub enum BridgeVerdict {
    Fine,
    /// It is bad, but too young to be reconnected.
    TooYoung,
    /// It is bad and was reconnected too often.
    Exhausted,
    /// It is bad, but was reconnected a short time ago.
    BackingOff,
    Reconnect,
}

/// The powers of two.
pub open spec fn doubled(n: nat) -> nat
    decreases n,
{
    if n == 0 {
        1
    } else {
        2 * doubled((n - 1) as nat)
    }
}

/// The power of two, at most the largest 64-bit number.
pub open spec fn doubled_capped(n: nat) -> nat {
    if doubled(n) <= u64::MAX {
        doubled(n)
    } else {
        u64::MAX as nat
    }
}

/// The number of doublings before an attempt.
pub open spec fn doublings(attempts: u32) -> nat {
    if attempts == 0 {
        0
    } else {
        (attempts - 1) as nat
    }
}

impl ReconnectConfig {
    /// The delay before the next reconnection, without its upper limit.
    pub open spec fn raw_backoff(self, attempts: u32) -> nat {
        self.reconnect_base_delay_secs as nat * doubled_capped(doublings(attempts))
    }

    /// The delay before the next reconnection.
    pub open spec fn backoff(self, attempts: u32) -> nat {
        if self.raw_backoff(attempts) <= self.reconnect_max_delay_secs {
            self.raw_backoff(attempts)
        } else {
            self.reconnect_max_delay_secs as nat
        }
    }

    /// Whether the delay before the next reconnection can be computed.
    pub fn backoff_can_be_computed(&self, attempts: u32) -> (r: bool)
        ensures
            r == (self.raw_backoff(attempts) <= u64::MAX),
    {
        self.reconnect_base_delay_secs.checked_mul(power_of_two(doublings_of(attempts))).is_some()
    }

    /// The delay before the next reconnection.
    pub fn backoff_secs(&self, attempts: u32) -> (secs: u64)
        requires
            self.raw_backoff(attempts) <= u64::MAX,
        ensures
            secs == self.backoff(attempts),
    {
        let factor = power_of_two(doublings_of(attempts));
        let delay: u64 = self.reconnect_base_delay_secs * factor;
        if delay <= self.reconnect_max_delay_secs {
            delay
        } else {
            self.reconnect_max_delay_secs
        }
    }
}

proof fn lemma_doubled_grows(a: nat, b: nat)
    requires
        a <= b,
    ensures
        1 <= doubled(a) <= doubled(b),
    decreases b,
{
    if a < b {
        lemma_doubled_grows(a, (b - 1) as nat);
    } else if a > 0 {
        lemma_doubled_grows((a - 1) as nat, (a - 1) as nat);
    }
}

/// The number of doublings before an attempt.
fn doublings_of(attempts: u32) -> (n: u32)
    ensures
        n == doublings(attempts),
{
    if attempts == 0 {
        0
    } else {
        attempts - 1
    }
}

/// The power of two, at most the largest 64-bit number.
fn power_of_two(n: u32) -> (p: u64)
    ensures
        p == doubled_capped(n as nat),
{
    let mut p: u64 = 1;
    let mut i: u32 = 0;
    while i < n
        invariant
            i <= n,
            p == doubled(i as nat),
        decreases n - i,
    {
        if p > u64::MAX / 2 {
            proof {
                lemma_doubled_grows((i + 1) as nat, n as nat);
            }
            return u64::MAX;
        }
        p = p * 2;
        i = i + 1;
    }
    p
}

impl bridges::BridgeView {
    /// What the check makes of the bridge.
    pub open spec fn verdict(
        self,
        reading: HealthReading,
        config: ReconnectConfig,
        now: Instant,
    ) -> BridgeVerdict {
        if !reading.is_bad() {
            BridgeVerdict::Fine
        } else if time::secs_between(self.created_at, now) < config.reconnect_min_age_secs {
            BridgeVerdict::TooYoung
        } else if self.reconnect_attempts >= config.reconnect_max_attempts {
            BridgeVerdict::Exhausted
        } else if self.last_reconnect_at matches Some(last) && time::secs_between(last, now)
            < config.backoff(self.reconnect_attempts) {
            BridgeVerdict::BackingOff
        } else {
            BridgeVerdict::Reconnect
        }
    }

    /// Whether the check waits for a delay: the bridge is bad, old enough and not
    /// given up, and was reconnected before.
    pub open spec fn needs_delay(
        self,
        reading: HealthReading,
        config: ReconnectConfig,
        now: Instant,
    ) -> bool {
        &&& reading.is_bad()
        &&& time::secs_between(self.created_at, now) >= config.reconnect_min_age_secs
        &&& self.reconnect_attempts < config.reconnect_max_attempts
        &&& self.last_reconnect_at is Some
    }

    /// Whether the delay of the bridge can be computed, if the check waits for
    /// one.
    pub open spec fn delay_fits(
        self,
        reading: HealthReading,
        config: ReconnectConfig,
        now: Instant,
    ) -> bool {
        self.needs_delay(reading, config, now) ==> config.raw_backoff(self.reconnect_attempts)
            <= u64::MAX
    }

    /// Whether nobody uses the bridge: it has had no call for longer than
    /// `grace` seconds, or none of its calls is there any more.
    pub open spec fn is_orphaned(
        self,
        calls: calls::CallsView,
        grace: u64,
        now: Instant,
    ) -> bool {
        if self.calls == Set::<i32>::empty() {
            time::secs_between(self.last_call_time, now) > grace
        } else {
            &&& forall|id: i32| #[trigger]
                self.calls.contains(id) ==> !calls.calls.contains_key(id)
            &&& time::secs_between(self.last_call_time, now) > 30
            &&& time::secs_between(self.created_at, now) > 60
        }
    }

    /// The bridge after it was reconnected: calls that ended meanwhile are gone.
    pub open spec fn reconnected(
        self,
        guild: Snowflake,
        connection: u64,
        attempt: u32,
        calls: calls::CallsView,
        now: Instant,
    ) -> bridges::BridgeView {
        bridges::BridgeView {
            guild_id: guild,
            connection,
            calls: self.calls.intersect(calls.calls.dom()),
            bot_token: self.bot_token,
            last_call_time: self.last_call_time,
            created_at: now,
            reconnect_attempts: attempt,
            last_reconnect_at: Some(now),
        }
    }
}

impl ChannelBridge {
    /// Whether the delay of the bridge can be computed, if the check waits for
    /// one.
    pub fn has_delay(&self, reading: HealthReading, config: &ReconnectConfig, now: Instant) -> (r:
        bool)
        ensures
            r == self@.delay_fits(reading, *config, now),
    {
        if reading.needs_reconnect() && self.created_at.elapsed_secs(now)
            >= config.reconnect_min_age_secs && self.reconnect_attempts
            < config.reconnect_max_attempts && self.last_reconnect_at.is_some() {
            config.backoff_can_be_computed(self.reconnect_attempts)
        } else {
            true
        }
    }

    /// What the check makes of the bridge.
    pub fn verdict(&self, reading: HealthReading, config: &ReconnectConfig, now: Instant) -> (v:
        BridgeVerdict)
        requires
            self@.delay_fits(reading, *config, now),
        ensures
            v == self@.verdict(reading, *config, now),
    {
        if !reading.needs_reconnect() {
            return BridgeVerdict::Fine;
        }
        if self.created_at.elapsed_secs(now) < config.reconnect_min_age_secs {
            return BridgeVerdict::TooYoung;
        }
        if self.reconnect_attempts >= config.reconnect_max_attempts {
            return BridgeVerdict::Exhausted;
        }
        if let Some(last) = self.last_reconnect_at {
            if last.elapsed_secs(now) < config.backoff_secs(self.reconnect_attempts) {
                return BridgeVerdict::BackingOff;
            }
        }
        BridgeVerdict::Reconnect
    }

    /// Whether nobody uses the bridge.
    pub fn is_orphaned(&self, sip_calls: &SipCalls, grace_secs: u64, now: Instant) -> (r: bool)
        ensures
            r == self@.is_orphaned(sip_calls@, grace_secs, now),
    {
        let list = set_to_vec(&self.sip_calls);
        if list.len() == 0 {
            assert(self@.calls =~= Set::<i32>::empty()) by {
                assert forall|id: i32| !self@.calls.contains(id) by {
                    assert(list@.contains(id) <==> self@.calls.contains(id));
                }
            }
            return self.last_call_time.elapsed_secs(now) > grace_secs;
        }
        assert(list@.contains(list@[0]));
        assert(self@.calls.contains(list@[0]));
        for i in 0..list.len()
            invariant
                table::enumerates(list@, self@.calls),
                self@.calls.contains(list@[0]),
                forall|k: int|
                    0 <= k < i ==> !sip_calls@.calls.contains_key(#[trigger] list@[k]),
        {
            if sip_calls.contains(CallId { raw: list[i] }) {
                assert(list@.contains(list@[i as int]));
                assert(self@.calls.contains(list@[i as int]));
                return false;
            }
        }
        assert forall|id: i32| #[trigger] self@.calls.contains(id) implies !sip_calls@.calls
            .contains_key(id) by {
            assert(list@.contains(id));
            let k = choose|k: int| 0 <= k < list@.len() && list@[k] == id;
        }
        self.last_call_time.elapsed_secs(now) > 30 && self.created_at.elapsed_secs(now) > 60
    }
}

/// A bridge that is to be reconnected.
#[derive(Debug, Clone, Copy, PartialEq, Eq, Structural)]
pub struct ReconnectCandidate {
    pub channel_id: Snowflake,
    pub guild_id: Snowflake,
    /// How often it was reconnected before.
    pub attempts: u32,
}

/// What a check found.
#[derive(Debug)]
pub struct HealthPlan {
    /// The bridges that are given up.
    pub exhausted: Vec<Snowflake>,
    /// The bridges that are reconnected.
    pub reconnect: Vec<ReconnectCandidate>,
}

/// The bridges with this verdict, among the readings, in their order.
pub open spec fn with_verdict(
    state: bridges::BridgesView,
    readings: Seq<(Snowflake, HealthReading)>,
    verdict: BridgeVerdict,
    config: ReconnectConfig,
    now: Instant,
) -> Seq<Snowflake>
    decreases readings.len(),
{
    if readings.len() == 0 {
        seq![]
    } else {
        let (channel, reading) = readings.last();
        let earlier = with_verdict(state, readings.drop_last(), verdict, config, now);
        if state.has(channel) && state.bridges[channel.raw].verdict(reading, config, now)
            == verdict {
            earlier.push(channel)
        } else {
            earlier
        }
    }
}

/// The candidate that a bridge makes.
pub open spec fn candidate_of(state: bridges::BridgesView, channel: Snowflake) -> ReconnectCandidate {
    ReconnectCandidate {
        channel_id: channel,
        guild_id: state.bridges[channel.raw].guild_id,
        attempts: state.bridges[channel.raw].reconnect_attempts,
    }
}

/// The candidates that some bridges make, no more than a number.
pub open spec fn candidates(
    state: bridges::BridgesView,
    channels: Seq<Snowflake>,
    max: usize,
) -> Seq<ReconnectCandidate> {
    channels.take(if channels.len() <= max {
        channels.len() as int
    } else {
        max as int
    }).map_values(|channel: Snowflake| candidate_of(state, channel))
}

/// What hangs up calls.
pub open spec fn hangups(list: Seq<CallId>) -> Seq<action::ActionView> {
    list.map_values(|call: CallId| action::hangup(call))
}

/// A bridge that is being reconnected.
#[derive(Debug)]
pub struct Reconnecting {
    pub old_bridge: ChannelBridge,
    pub guild_id: Snowflake,
    pub attempt: u32,
    pub lease: PendingBridgeLease,
}

impl BridgeCoordinator {
    /// Forgets outbound calls that were never answered, and forks that were
    /// resolved a while ago. Returns the number of the calls.
    pub fn sweep_stale(&mut self, forks: &mut ForkGroups, now: Instant) -> (swept: usize)
        requires
            old(forks)@.wf(),
        ensures
            final(forks)@.wf(),
            final(forks)@ == old(forks)@.swept(120_000_000_000, now),
            final(self)@ == (coordinator::CoordView {
                outbound: old(self)@.outbound.swept(60_000_000_000, now),
                ..old(self)@
            }),
            swept == old(self)@.outbound.requests.dom().len()
                - final(self)@.outbound.requests.dom().len(),
    {
        let swept = self.outbound.sweep(Duration::from_secs(REQUEST_MAX_AGE_SECS), now);
        fork_group::cleanup_resolved(forks, Duration::from_secs(FORK_MAX_AGE_SECS), now);
        swept
    }

    /// Tells the backend which channels are active, if any is. Their order is
    /// not stated.
    pub fn heartbeat(&self) -> (actions: Vec<Action>)
        ensures
            exists|order: Seq<u64>|
                {
                    &&& #[trigger] table::enumerates(order, self@.bridges.bridges.dom())
                    &&& action::action_views(actions@) == (if order.len() == 0 {
                        seq![]
                    } else {
                        seq![
                            action::ActionView::Heartbeat {
                                channel_ids: order.map_values(
                                    |channel: u64| text::decimal(channel as nat),
                                ),
                            },
                        ]
                    })
                },
    {
        let channels = self.bridges.channels();
        let ghost want = channels@.map_values(|channel: u64| text::decimal(channel as nat));
        let mut channel_ids: Vec<String> = Vec::new();
        for i in 0..channels.len()
            invariant
                want == channels@.map_values(|channel: u64| text::decimal(channel as nat)),
                text::strings(channel_ids@) == want.take(i as int),
        {
            let ghost before = channel_ids@;
            let id = Snowflake { raw: channels[i] }.to_text();
            channel_ids.push(id);
            assert(text::strings(channel_ids@) =~= text::strings(before).push(id@));
            assert(want.take(i + 1) =~= want.take(i as int).push(want[i as int]));
        }
        assert(want.take(want.len() as int) =~= want);
        let mut actions: Vec<Action> = Vec::new();
        if channels.len() > 0 {
            actions.push(Action::Heartbeat { channel_ids });
        }
        assert(table::enumerates(channels@, self@.bridges.bridges.dom()));
        actions
    }

    /// What is to be done with the bridges that were looked at.
    pub fn plan_health(
        &self,
        readings: &Vec<(Snowflake, HealthReading)>,
        config: &ReconnectConfig,
        now: Instant,
    ) -> (plan: HealthPlan)
        requires
            forall|k: int|
                0 <= k < readings@.len() && self@.bridges.has((#[trigger] readings@[k]).0)
                    ==> self@.bridges.bridges[readings@[k].0.raw].delay_fits(
                    readings@[k].1,
                    *config,
                    now,
                ),
        ensures
            plan.exhausted@ == with_verdict(
                self@.bridges,
                readings@,
                BridgeVerdict::Exhausted,
                *config,
                now,
            ),
            plan.reconnect@ == candidates(
                self@.bridges,
                with_verdict(self@.bridges, readings@, BridgeVerdict::Reconnect, *config, now),
                config.reconnect_max_per_cycle,
            ),
            forall|k: int|
                0 <= k < plan.reconnect@.len() ==> (#[trigger] plan.reconnect@[k]).attempts
                    < u32::MAX,
    {
        let ghost state = self@.bridges;
        let mut exhausted: Vec<Snowflake> = Vec::new();
        let mut channels: Vec<Snowflake> = Vec::new();
        let mut all: Vec<ReconnectCandidate> = Vec::new();
        for i in 0..readings.len()
            invariant
                state == self@.bridges,
                forall|k: int|
                    0 <= k < readings@.len() && state.has((#[trigger] readings@[k]).0)
                        ==> state.bridges[readings@[k].0.raw].delay_fits(
                        readings@[k].1,
                        *config,
                        now,
                    ),
                exhausted@ == with_verdict(
                    state,
                    readings@.take(i as int),
                    BridgeVerdict::Exhausted,
                    *config,
                    now,
                ),
                channels@ == with_verdict(
                    state,
                    readings@.take(i as int),
                    BridgeVerdict::Reconnect,
                    *config,
                    now,
                ),
                all@ == channels@.map_values(|channel: Snowflake| candidate_of(state, channel)),
                forall|k: int| 0 <= k < all@.len() ==> (#[trigger] all@[k]).attempts < u32::MAX,
        {
            let (channel_id, reading) = readings[i];
            assert(readings@.take(i + 1).drop_last() =~= readings@.take(i as int));
            assert(readings@.take(i + 1).last() == readings@[i as int]);
            if let Some(bridge) = self.bridges.get(channel_id) {
                assert(state.bridges.contains_key(channel_id.raw));
                match bridge.verdict(reading, config, now) {
                    BridgeVerdict::Exhausted => {
                        exhausted.push(channel_id);
                    },
                    BridgeVerdict::Reconnect => {
                        let ghost before = channels@;
                        channels.push(channel_id);
                        all.push(
                            ReconnectCandidate {
                                channel_id,
                                guild_id: bridge.guild_id,
                                attempts: bridge.reconnect_attempts,
                            },
                        );
                        assert(all@ =~= channels@.map_values(
                            |channel: Snowflake| candidate_of(state, channel),
                        ));
                    },
                    _ => {},
                }
            }
        }
        assert(readings@.take(readings@.len() as int) =~= readings@);
        let mut reconnect: Vec<ReconnectCandidate> = Vec::new();
        let mut i: usize = 0;
        while i < all.len() && i < config.reconnect_max_per_cycle
            invariant
                i <= all@.len(),
                i <= config.reconnect_max_per_cycle,
                reconnect@ == all@.take(i as int),
                forall|k: int| 0 <= k < all@.len() ==> (#[trigger] all@[k]).attempts < u32::MAX,
            decreases all@.len() - i,
        {
            reconnect.push(all[i]);
            i = i + 1;
            assert(reconnect@ =~= all@.take(i as int));
        }
        assert(reconnect@ =~= candidates(state, channels@, config.reconnect_max_per_cycle));
        HealthPlan { exhausted, reconnect }
    }

    /// Takes down a bridge that was reconnected too often, and hangs up its
    /// calls, in an order that is not stated.
    pub fn on_bridge_exhausted(&mut self, channel_id: Snowflake) -> (actions: Vec<Action>)
        ensures
            final(self)@ == (coordinator::CoordView {
                bridges: old(self)@.bridges.without(channel_id),
                ..old(self)@
            }),
            !old(self)@.bridges.has(channel_id) ==> action::action_views(actions@) == Seq::<
                action::ActionView,
            >::empty(),
            old(self)@.bridges.has(channel_id) ==> exists|calls: Seq<CallId>|
                table::enumerates(
                    fork_group::raw_ids(calls),
                    old(self)@.bridges.bridges[channel_id.raw].calls,
                ) && action::action_views(actions@) == #[trigger] hangups(calls)
                    + sip_events::destroy(
                    channel_id,
                    old(self)@.bridges.bridges[channel_id.raw].connection,
                ),
    {
        let mut actions: Vec<Action> = Vec::new();
        if let Some(bridge) = self.bridges.remove(channel_id) {
            let list = set_to_vec(&bridge.sip_calls);
            let ghost calls = list@.map_values(|raw: i32| CallId { raw });
            assert(fork_group::raw_ids(calls) =~= list@);
            for i in 0..list.len()
                invariant
                    calls == list@.map_values(|raw: i32| CallId { raw }),
                    action::action_views(actions@) == hangups(calls).take(i as int),
            {
                actions.push(hangup_action(CallId { raw: list[i] }));
                assert(hangups(calls).take(i + 1) =~= hangups(calls).take(i as int).push(
                    hangups(calls)[i as int],
                ));
            }
            assert(hangups(calls).take(calls.len() as int) =~= hangups(calls));
            actions.push(Action::CleanupPort { channel_id });
            actions.push(Action::TeardownRings { channel_id });
            actions.push(Action::Disconnect { connection: bridge.discord_connection });
            assert(action::action_views(actions@) =~= hangups(calls) + sip_events::destroy(
                channel_id,
                bridge.discord_connection,
            ));
        }
        actions
    }

    /// The bridges that nobody uses, each once, in an order that is not stated.
    pub fn orphaned_bridges(&self, grace_secs: u64, now: Instant) -> (list: Vec<Snowflake>)
        ensures
            table::enumerates(
                list@,
                Set::new(
                    |channel: Snowflake|
                        self@.bridges.has(channel) && self@.bridges.bridges[channel.raw].is_orphaned(
                            self@.calls,
                            grace_secs,
                            now,
                        ),
                ),
            ),
    {
        let channels = self.bridges.channels();
        let ghost state = self@;
        let ghost want = Set::new(
            |channel: Snowflake|
                state.bridges.has(channel) && state.bridges.bridges[channel.raw].is_orphaned(
                    state.calls,
                    grace_secs,
                    now,
                ),
        );
        let mut list: Vec<Snowflake> = Vec::new();
        for i in 0..channels.len()
            invariant
                state == self@,
                table::enumerates(channels@, state.bridges.bridges.dom()),
                want == Set::new(
                    |channel: Snowflake|
                        state.bridges.has(channel) && state.bridges.bridges[channel.raw].is_orphaned(
                            state.calls,
                            grace_secs,
                            now,
                        ),
                ),
                list@.no_duplicates(),
                forall|channel: Snowflake| #[trigger]
                    list@.contains(channel) <==> want.contains(channel) && channels@.take(
                        i as int,
                    ).contains(channel.raw),
        {
            let ghost before = list@;
            let ghost raw = channels@[i as int];
            let channel = Snowflake { raw: channels[i] };
            assert(channels@.contains(raw));
            assert(state.bridges.bridges.dom().contains(raw));
            assert(!channels@.take(i as int).contains(raw)) by {
                if channels@.take(i as int).contains(raw) {
                    let k = choose|k: int| 0 <= k < i && channels@.take(i as int)[k] == raw;
                    assert(channels@[k] == channels@[i as int]);
                }
            }
            if let Some(bridge) = self.bridges.get(channel) {
                if bridge.is_orphaned(&self.sip_calls, grace_secs, now) {
                    assert(want.contains(channel));
                    assert(!before.contains(channel));
                    list.push(channel);
                }
            }
            assert(channels@.take(i + 1) =~= channels@.take(i as int).push(raw));
            assert forall|c: Snowflake| #[trigger] list@.contains(c) <==> want.contains(c)
                && channels@.take(i + 1).contains(c.raw) by {
                table::lemma_push_contains(channels@.take(i as int), raw, c.raw);
                table::lemma_push_contains(before, channel, c);
                assert(before.contains(c) <==> want.contains(c) && channels@.take(
                    i as int,
                ).contains(c.raw));
            }
        }
        assert(channels@.take(channels@.len() as int) =~= channels@);
        assert forall|c: Snowflake| list@.contains(c) <==> #[trigger] want.contains(c) by {
            assert(channels@.contains(c.raw) <==> state.bridges.bridges.dom().contains(c.raw));
            assert(list@.contains(c) <==> want.contains(c) && channels@.contains(c.raw));
        }
        list
    }

    /// Takes down a bridge that nobody uses.
    pub fn on_bridge_orphaned(&mut self, channel_id: Snowflake) -> (actions: Vec<Action>)
        ensures
            final(self)@ == (coordinator::CoordView {
                bridges: old(self)@.bridges.without(channel_id),
                ..old(self)@
            }),
            action::action_views(actions@) == (if old(self)@.bridges.has(channel_id) {
                sip_events::destroy(
                    channel_id,
                    old(self)@.bridges.bridges[channel_id.raw].connection,
                )
            } else {
                Seq::empty()
            }),
    {
        let mut actions: Vec<Action> = Vec::new();
        if let Some(bridge) = self.bridges.remove(channel_id) {
            actions.push(Action::CleanupPort { channel_id });
            actions.push(Action::TeardownRings { channel_id });
            actions.push(Action::Disconnect { connection: bridge.discord_connection });
            assert(action::action_views(actions@) =~= sip_events::destroy(
                channel_id,
                bridge.discord_connection,
            ));
        }
        actions
    }

    /// Starts the reconnection of a bridge. A channel that is pending is left
    /// alone; for one that has no bridge any more there is nothing to do.
    pub fn begin_reconnect(&mut self, candidate: ReconnectCandidate) -> (r: (
        Option<Reconnecting>,
        Vec<Action>,
    ))
        requires
            candidate.attempts < u32::MAX,
        ensures
            ({
                let channel = candidate.channel_id;
                let before = old(self)@;
                let taken = !before.bridges.is_pending(channel) && before.bridges.has(channel);
                &&& r.0 is Some <==> taken
                &&& r.0 matches Some(reconnecting) ==> {
                    &&& reconnecting.old_bridge@ == before.bridges.bridges[channel.raw]
                    &&& reconnecting.guild_id == candidate.guild_id
                    &&& reconnecting.attempt == candidate.attempts + 1
                    &&& reconnecting.lease.channel_id == channel
                }
                &&& final(self)@ == (if taken {
                    coordinator::CoordView {
                        bridges: before.bridges.leased(channel).without(channel),
                        ..before
                    }
                } else {
                    before
                })
                &&& action::action_views(r.1@) == (if taken {
                    seq![
                        action::ActionView::TeardownRings { channel_id: channel },
                        action::ActionView::Disconnect {
                            connection: before.bridges.bridges[channel.raw].connection,
                        },
                        action::ActionView::Connect {
                            bridge_id: outbound::bridge_name(channel),
                            guild_id: candidate.guild_id,
                            channel_id: channel,
                        },
                    ]
                } else if before.bridges.is_pending(channel) {
                    seq![]
                } else {
                    seq![action::ActionView::WakeWaiters { channel_id: channel }]
                })
            }),
    {
        let ghost before = self@;
        let channel_id = candidate.channel_id;
        let guild_id = candidate.guild_id;
        let mut actions: Vec<Action> = Vec::new();
        let lease = match PendingBridgeLease::try_acquire(channel_id, &mut self.bridges) {
            Some(lease) => lease,
            None => {
                return (None, actions);
            },
        };
        match self.bridges.remove(channel_id) {
            Some(old_bridge) => {
                let connection = old_bridge.discord_connection;
                actions.push(Action::TeardownRings { channel_id });
                actions.push(Action::Disconnect { connection });
                actions.push(
                    Action::Connect {
                        bridge_id: outbound::bridge_id(channel_id),
                        guild_id,
                        channel_id,
                    },
                );
                let ghost want = seq![
                    action::ActionView::TeardownRings { channel_id },
                    action::ActionView::Disconnect { connection },
                    action::ActionView::Connect {
                        bridge_id: outbound::bridge_name(channel_id),
                        guild_id,
                        channel_id,
                    },
                ];
                assert(action::action_views(actions@) =~= want);
                let reconnecting = Reconnecting {
                    old_bridge,
                    guild_id,
                    attempt: candidate.attempts + 1,
                    lease,
                };
                (Some(reconnecting), actions)
            },
            None => {
                actions.push(lease.release(&mut self.bridges));
                assert(self@.bridges.bridges =~= before.bridges.bridges);
                assert(self@.bridges.pending =~= before.bridges.pending);
                (None, actions)
            },
        }
    }

    /// The outcome of a reconnection. The calls stay on the bridge, but for
    /// those that have ended meanwhile.
    pub fn finish_reconnect(
        &mut self,
        reconnecting: Reconnecting,
        connection: Option<u64>,
        now: Instant,
    ) -> (actions: Vec<Action>)
        ensures
            ({
                let channel = reconnecting.lease.channel_id;
                let released = old(self)@.bridges.released(channel);
                &&& final(self)@ == (coordinator::CoordView {
                    bridges: match connection {
                        Some(key) => released.with(
                            channel,
                            reconnecting.old_bridge@.reconnected(
                                reconnecting.guild_id,
                                key,
                                reconnecting.attempt,
                                old(self)@.calls,
                                now,
                            ),
                        ),
                        None => released,
                    },
                    ..old(self)@
                })
                &&& action::action_views(actions@) == seq![
                    if connection is Some {
                        action::ActionView::SetupRings { channel_id: channel }
                    } else {
                        action::ActionView::CleanupPort { channel_id: channel }
                    },
                    action::ActionView::WakeWaiters { channel_id: channel },
                ]
            }),
    {
        let Reconnecting { old_bridge, guild_id, attempt, lease } = reconnecting;
        let channel_id = lease.channel_id;
        let mut actions: Vec<Action> = Vec::new();
        match connection {
            Some(connection) => {
                actions.push(Action::SetupRings { channel_id });
                let bridge = ChannelBridge {
                    guild_id,
                    discord_connection: connection,
                    sip_calls: live_calls(&old_bridge.sip_calls, &self.sip_calls),
                    bot_token: old_bridge.bot_token,
                    last_call_time: old_bridge.last_call_time,
                    created_at: now,
                    reconnect_attempts: attempt,
                    last_reconnect_at: Some(now),
                };
                self.bridges.insert(channel_id, bridge);
            },
            None => {
                actions.push(Action::CleanupPort { channel_id });
            },
        }
        actions.push(lease.release(&mut self.bridges));
        actions
    }
}

// Laws

/// The delay between reconnections never shrinks from one attempt to the next,
/// and never exceeds its limit.
pub proof fn law_backoff_grows_to_its_limit(config: ReconnectConfig, attempts: u32)
    requires
        attempts < u32::MAX,
    ensures
        config.backoff(attempts) <= config.backoff((attempts + 1) as u32)
            <= config.reconnect_max_delay_secs,
        config.backoff(1) == (if config.reconnect_base_delay_secs
            <= config.reconnect_max_delay_secs {
            config.reconnect_base_delay_secs
        } else {
            config.reconnect_max_delay_secs
        }),
{
    let more = (attempts + 1) as u32;
    lemma_doubled_grows(doublings(attempts), doublings(more));
    let base = config.reconnect_base_delay_secs as nat;
    let a = doubled_capped(doublings(attempts));
    let b = doubled_capped(doublings(more));
    assert(base * a <= base * b) by (nonlinear_arith)
        requires
            a <= b,
    ;
    assert(doubled(0) == 1);
    assert(base * 1 == base);
}

/// A bridge that is doing well is never touched by a check.
pub proof fn law_healthy_bridge_is_left_alone(
    bridge: bridges::BridgeView,
    reading: HealthReading,
    config: ReconnectConfig,
    now: Instant,
)
    requires
        reading.is_healthy,
        reading.queue_fill <= MAX_QUEUE_FILL || reading.consecutive_overflows <= MAX_OVERFLOWS,
    ensures
        bridge.verdict(reading, config, now) == BridgeVerdict::Fine,
{
}

/// A bridge with a call that is there is never taken for unused.
pub proof fn law_used_bridge_is_kept(
    bridge: bridges::BridgeView,
    calls: calls::CallsView,
    call: CallId,
    grace: u64,
    now: Instant,
)
    requires
        bridge.calls.contains(call.raw),
        calls.calls.contains_key(call.raw),
    ensures
        !bridge.is_orphaned(calls, grace, now),
{
    assert(bridge.calls != Set::<i32>::empty());
}

/// A reconnection keeps exactly the calls that are still there, and counts as
/// one more attempt.
pub proof fn law_reconnection_keeps_live_calls(
    bridge: bridges::BridgeView,
    guild: Snowflake,
    connection: u64,
    attempt: u32,
    calls: calls::CallsView,
    now: Instant,
    call: CallId,
)
    ensures
        bridge.reconnected(guild, connection, attempt, calls, now).calls.contains(call.raw)
            <==> bridge.calls.contains(call.raw) && calls.calls.contains_key(call.raw),
        bridge.reconnected(guild, connection, attempt, calls, now).reconnect_attempts == attempt,
        bridge.reconnected(guild, connection, attempt, calls, now).last_call_time
            == bridge.last_call_time,
{
}

/// A bridge that was just reconnected is not reconnected again before its delay
/// has passed.
pub proof fn law_reconnected_bridge_backs_off(
    bridge: bridges::BridgeView,
    reading: HealthReading,
    config: ReconnectConfig,
    reconnected_at: Instant,
    now: Instant,
)
    requires
        bridge.last_reconnect_at == Some(reconnected_at),
        time::secs_between(reconnected_at, now) < config.backoff(bridge.reconnect_attempts),
    ensures
        bridge.verdict(reading, config, now) != BridgeVerdict::Reconnect,
{
}

} // verus!
