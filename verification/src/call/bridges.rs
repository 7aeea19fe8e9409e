//! The bridges to Discord voice channels.
//!
//! A bridge belongs to one channel and is shared by all SIP calls in it. While
//! one is being created or reconnected, its channel is marked as pending: one
//! lease at a time gives the right to do so.

use crate::call::action;
use crate::call::action::Action;
use crate::call::calls;
use crate::call::calls::{call_is_current, SipCalls};
use crate::ids::{CallId, Snowflake};
use crate::table;
use crate::table::{
    copy_set, new_set, set_contains, set_insert, set_remove, set_to_vec, table_contains,
    table_get, table_insert, table_keys, table_remove, Copied, Stored,
};
use crate::time::Instant;
use dashmap::{DashMap, DashSet};
use std::collections::HashSet;
use vstd::prelude::*;

verus! {

broadcast use {action::group_actions, vstd::std_specs::hash::group_hash_axioms};

/// A bridge to a Discord voice channel.
#[derive(Debug)]
pub struct ChannelBridge {
    pub guild_id: Snowflake,
    /// The key of the voice connection.
    pub discord_connection: u64,
    /// The SIP calls on this bridge.
    pub sip_calls: HashSet<i32>,
    pub bot_token: String,
    /// When a call last joined.
    pub last_call_time: Instant,
    pub created_at: Instant,
    /// How often the bridge was reconnected.
    pub reconnect_attempts: u32,
    pub last_reconnect_at: Option<Instant>,
}

/// A bridge in the model.
pub ghost struct BridgeView {
    pub guild_id: Snowflake,
    pub connection: u64,
    pub calls: Set<i32>,
    pub bot_token: Seq<char>,
    pub last_call_time: Instant,
    pub created_at: Instant,
    pub reconnect_attempts: u32,
    pub last_reconnect_at: Option<Instant>,
}

impl View for ChannelBridge {
    type V = BridgeView;

    open spec fn view(&self) -> BridgeView {
        BridgeView {
            guild_id: self.guild_id,
            connection: self.discord_connection,
            calls: self.sip_calls@,
            bot_token: self.bot_token@,
            last_call_time: self.last_call_time,
            created_at: self.created_at,
            reconnect_attempts: self.reconnect_attempts,
            last_reconnect_at: self.last_reconnect_at,
        }
    }
}

impl BridgeView {
    /// A new bridge with one call.
    pub open spec fn fresh(
        guild_id: Snowflake,
        connection: u64,
        call: CallId,
        bot_token: Seq<char>,
        now: Instant,
    ) -> BridgeView {
        BridgeView {
            guild_id,
            connection,
            calls: set![call.raw],
            bot_token,
            last_call_time: now,
            created_at: now,
            reconnect_attempts: 0,
            last_reconnect_at: None,
        }
    }

    /// The bridge after a call joined.
    pub open spec fn joined(self, call: CallId, now: Instant) -> BridgeView {
        BridgeView { calls: self.calls.insert(call.raw), last_call_time: now, ..self }
    }
}

/// The calls of a set that are still there.
pub fn live_calls(calls: &HashSet<i32>, sip_calls: &SipCalls) -> (out: HashSet<i32>)
    ensures
        out@ == calls@.intersect(sip_calls@.calls.dom()),
{
    let list = set_to_vec(calls);
    let ghost dom = sip_calls@.calls.dom();
    let mut out: HashSet<i32> = HashSet::new();
    for i in 0..list.len()
        invariant
            dom == sip_calls@.calls.dom(),
            out@ == list@.take(i as int).to_set().intersect(dom),
    {
        proof {
            table::lemma_take_to_set(list@, i as int);
        }
        if sip_calls.contains(CallId { raw: list[i] }) {
            out.insert(list[i]);
        }
        assert(out@ =~= list@.take(i + 1).to_set().intersect(dom));
    }
    proof {
        assert(list@.take(list@.len() as int) =~= list@);
        table::lemma_enumerates(list@, calls@);
    }
    out
}

/// The contents of the table of bridges.
pub uninterp spec fn bridge_entries(table: DashMap<u64, ChannelBridge>) -> Map<u64, BridgeView>;

impl Stored<u64> for ChannelBridge {
    open spec fn entries(table: DashMap<u64, ChannelBridge>) -> Map<u64, BridgeView> {
        bridge_entries(table)
    }
}

impl Copied for ChannelBridge {
    fn copied(&self) -> (out: ChannelBridge) {
        ChannelBridge {
            guild_id: self.guild_id,
            discord_connection: self.discord_connection,
            sip_calls: copy_set(&self.sip_calls),
            bot_token: self.bot_token.clone(),
            last_call_time: self.last_call_time,
            created_at: self.created_at,
            reconnect_attempts: self.reconnect_attempts,
            last_reconnect_at: self.last_reconnect_at,
        }
    }
}

/// `DashMap::new`: an empty table.
#[verifier::external_body]
fn new_bridge_table() -> (table: DashMap<u64, ChannelBridge>)
    ensures
        bridge_entries(table) == (Map::<u64, BridgeView>::empty()),
{
    DashMap::new()
}

/// The bridges, by channel, and the channels that are pending.
pub struct Bridges {
    bridges: DashMap<u64, ChannelBridge>,
    pending: DashSet<u64>,
}

/// The bridges in the model.
pub ghost struct BridgesView {
    pub bridges: Map<u64, BridgeView>,
    pub pending: Set<u64>,
}

impl View for Bridges {
    type V = BridgesView;

    closed spec fn view(&self) -> BridgesView {
        BridgesView {
            bridges: bridge_entries(self.bridges),
            pending: table::set_items(self.pending),
        }
    }
}

impl BridgesView {
    /// Whether the channel has a bridge.
    pub open spec fn has(self, channel: Snowflake) -> bool {
        self.bridges.contains_key(channel.raw)
    }

    /// Whether the channel is pending.
    pub open spec fn is_pending(self, channel: Snowflake) -> bool {
        self.pending.contains(channel.raw)
    }

    /// The bridges with one put in.
    pub open spec fn with(self, channel: Snowflake, bridge: BridgeView) -> BridgesView {
        BridgesView { bridges: self.bridges.insert(channel.raw, bridge), ..self }
    }

    /// The bridges without that of a channel.
    pub open spec fn without(self, channel: Snowflake) -> BridgesView {
        BridgesView { bridges: self.bridges.remove(channel.raw), ..self }
    }

    /// The bridges after a lease on a channel was taken.
    pub open spec fn leased(self, channel: Snowflake) -> BridgesView {
        BridgesView { pending: self.pending.insert(channel.raw), ..self }
    }

    /// The bridges after the lease on a channel was given back.
    pub open spec fn released(self, channel: Snowflake) -> BridgesView {
        BridgesView { pending: self.pending.remove(channel.raw), ..self }
    }

    /// Whether a channel stands in the way of a bridge in this guild: a bot can
    /// be in one voice channel of a guild only.
    pub open spec fn conflicts(self, guild: Snowflake, except: Option<Snowflake>, channel: u64) -> bool {
        self.bridges.contains_key(channel) && self.bridges[channel].guild_id == guild && except
            != Some(Snowflake { raw: channel })
    }

    /// Whether some channel stands in the way.
    pub open spec fn has_conflict(self, guild: Snowflake, except: Option<Snowflake>) -> bool {
        exists|channel: u64| #[trigger] self.conflicts(guild, except, channel)
    }
}

impl Bridges {
    pub fn new() -> (bridges: Bridges)
        ensures
            bridges@ == (BridgesView { bridges: Map::empty(), pending: Set::empty() }),
    {
        Bridges { bridges: new_bridge_table(), pending: new_set() }
    }

    /// Whether the channel has a bridge.
    pub fn contains(&self, channel_id: Snowflake) -> (r: bool)
        ensures
            r == self@.has(channel_id),
    {
        table_contains(&self.bridges, &channel_id.raw)
    }

    /// Whether the bridge of the channel is being created or reconnected.
    pub fn is_pending(&self, channel_id: Snowflake) -> (r: bool)
        ensures
            r == self@.is_pending(channel_id),
    {
        set_contains(&self.pending, channel_id.raw)
    }

    /// The bridge of a channel.
    pub fn get(&self, channel_id: Snowflake) -> (found: Option<ChannelBridge>)
        ensures
            found is Some <==> self@.has(channel_id),
            found matches Some(bridge) ==> bridge@ == self@.bridges[channel_id.raw],
    {
        table_get(&self.bridges, &channel_id.raw)
    }

    /// Puts the bridge of a channel in.
    pub fn insert(&mut self, channel_id: Snowflake, bridge: ChannelBridge)
        ensures
            final(self)@ == old(self)@.with(channel_id, bridge@),
    {
        table_insert(&mut self.bridges, channel_id.raw, bridge);
    }

    /// Takes the bridge of a channel out.
    pub fn remove(&mut self, channel_id: Snowflake) -> (taken: Option<ChannelBridge>)
        ensures
            final(self)@ == old(self)@.without(channel_id),
            taken is Some <==> old(self)@.has(channel_id),
            taken matches Some(bridge) ==> bridge@ == old(self)@.bridges[channel_id.raw],
    {
        table_remove(&mut self.bridges, &channel_id.raw)
    }

    /// The channels that have a bridge, each once. Their order is not stated.
    pub fn channels(&self) -> (list: Vec<u64>)
        ensures
            table::enumerates(list@, self@.bridges.dom()),
    {
        let keys = table_keys(&self.bridges);
        assert(table::key_views(keys@) =~= keys@);
        keys
    }

    /// A channel that stands in the way of a bridge in this guild. Which one, if
    /// there are several, is not stated.
    pub fn conflicting_channel(&self, guild_id: Snowflake, except: Option<Snowflake>) -> (found:
        Option<Snowflake>)
        ensures
            found is Some <==> self@.has_conflict(guild_id, except),
            found matches Some(channel) ==> self@.conflicts(guild_id, except, channel.raw),
    {
        let list = self.channels();
        for i in 0..list.len()
            invariant
                table::enumerates(list@, self@.bridges.dom()),
                forall|k: int|
                    0 <= k < i ==> !self@.conflicts(guild_id, except, #[trigger] list@[k]),
        {
            let channel = Snowflake { raw: list[i] };
            assert(list@.contains(list@[i as int]));
            assert(self@.bridges.dom().contains(list@[i as int]));
            if let Some(bridge) = self.get(channel) {
                let excepted = match except {
                    Some(other) => other == channel,
                    None => false,
                };
                if bridge.guild_id == guild_id && !excepted {
                    assert(self@.conflicts(guild_id, except, channel.raw));
                    return Some(channel);
                }
            }
        }
        assert forall|channel: u64| !#[trigger] self@.conflicts(guild_id, except, channel) by {
            if self@.conflicts(guild_id, except, channel) {
                assert(self@.bridges.dom().contains(channel));
                let k = choose|k: int| 0 <= k < list@.len() && list@[k] == channel;
            }
        }
        None
    }

    /// Puts a call on the bridge of a channel.
    pub fn join(&mut self, channel_id: Snowflake, call_id: CallId, now: Instant)
        ensures
            final(self)@ == (if old(self)@.has(channel_id) {
                old(self)@.with(
                    channel_id,
                    old(self)@.bridges[channel_id.raw].joined(call_id, now),
                )
            } else {
                old(self)@
            }),
    {
        let ghost before = self@;
        match self.remove(channel_id) {
            Some(mut bridge) => {
                bridge.sip_calls.insert(call_id.raw);
                bridge.last_call_time = now;
                let ghost seen = bridge@;
                self.insert(channel_id, bridge);
                assert(seen == before.bridges[channel_id.raw].joined(call_id, now));
                assert(self@.bridges =~= before.with(channel_id, seen).bridges);
            },
            None => {
                assert(self@.bridges =~= before.bridges);
            },
        }
    }

    /// Takes a call off the bridge of a channel, and the bridge away with its
    /// last call. Returns the bridge in that case.
    pub fn leave(&mut self, channel_id: Snowflake, call_id: CallId) -> (last: Option<ChannelBridge>)
        ensures
            final(self)@ == old(self)@.left(channel_id, call_id),
            last is Some <==> old(self)@.has(channel_id) && old(self)@.last_leaves(
                channel_id,
                call_id,
            ),
            last matches Some(bridge) ==> bridge@ == (BridgeView {
                calls: Set::empty(),
                ..old(self)@.bridges[channel_id.raw]
            }),
    {
        let ghost before = self@;
        match self.remove(channel_id) {
            Some(mut bridge) => {
                bridge.sip_calls.remove(&call_id.raw);
                let ghost seen = bridge@;
                let rest = set_to_vec(&bridge.sip_calls);
                assert(seen.calls == before.bridges[channel_id.raw].calls.remove(call_id.raw));
                if rest.len() == 0 {
                    assert(seen.calls =~= Set::<i32>::empty()) by {
                        assert forall|id: i32| !seen.calls.contains(id) by {
                            assert(rest@.contains(id) <==> seen.calls.contains(id));
                        }
                    }
                    Some(bridge)
                } else {
                    assert(rest@.contains(rest@[0]));
                    assert(seen.calls.contains(rest@[0]));
                    self.insert(channel_id, bridge);
                    assert(self@.bridges =~= before.with(channel_id, seen).bridges);
                    None
                }
            },
            None => {
                assert(self@.bridges =~= before.bridges);
                None
            },
        }
    }
}

impl BridgesView {
    /// The calls of a bridge without one.
    pub open spec fn others(self, channel: Snowflake, call: CallId) -> Set<i32> {
        self.bridges[channel.raw].calls.remove(call.raw)
    }

    /// Whether the last call leaves the bridge of a channel.
    pub open spec fn last_leaves(self, channel: Snowflake, call: CallId) -> bool {
        self.others(channel, call) == Set::<i32>::empty()
    }

    /// The bridges after a call left that of a channel.
    pub open spec fn left(self, channel: Snowflake, call: CallId) -> BridgesView {
        if !self.has(channel) {
            self
        } else if self.last_leaves(channel, call) {
            self.without(channel)
        } else {
            self.with(
                channel,
                BridgeView { calls: self.others(channel, call), ..self.bridges[channel.raw] },
            )
        }
    }
}

/// The right to create or reconnect the bridge of one channel.
#[derive(Debug)]
pub struct PendingBridgeLease {
    pub channel_id: Snowflake,
}

impl PendingBridgeLease {
    /// Takes the lease on a channel, if nobody has it.
    pub fn try_acquire(channel_id: Snowflake, bridges: &mut Bridges) -> (lease: Option<
        PendingBridgeLease,
    >)
        ensures
            lease is Some <==> !old(bridges)@.is_pending(channel_id),
            lease matches Some(l) ==> l.channel_id == channel_id,
            final(bridges)@ == old(bridges)@.leased(channel_id),
            old(bridges)@.is_pending(channel_id) ==> final(bridges)@ == old(bridges)@,
    {
        let ghost before = bridges@;
        if set_insert(&mut bridges.pending, channel_id.raw) {
            Some(PendingBridgeLease { channel_id })
        } else {
            assert(bridges@.pending =~= before.pending);
            None
        }
    }

    /// Gives the lease back and wakes the calls that wait for the bridge.
    pub fn release(self, bridges: &mut Bridges) -> (wake: Action)
        ensures
            final(bridges)@ == old(bridges)@.released(self.channel_id),
            wake@ == (action::ActionView::WakeWaiters { channel_id: self.channel_id }),
    {
        let _ = set_remove(&mut bridges.pending, self.channel_id.raw);
        Action::WakeWaiters { channel_id: self.channel_id }
    }
}

/// What a call that waits for a pending bridge does.
#[derive(Debug, Clone, Copy, PartialEq, Eq, Structural)]
pub enum BridgeWait {
    /// The bridge is there, or nobody works on it any more.
    Ready,
    /// The call has ended.
    CallEnded,
    /// Wait to be woken, then look again.
    Wait,
}

/// What a waiting call does, in the model.
pub open spec fn bridge_wait(
    bridges: BridgesView,
    calls: calls::CallsView,
    channel: Snowflake,
    call: CallId,
    instance: u64,
) -> BridgeWait {
    if bridges.has(channel) || !bridges.is_pending(channel) {
        BridgeWait::Ready
    } else if !calls.is_current(call, instance) {
        BridgeWait::CallEnded
    } else {
        BridgeWait::Wait
    }
}

/// What a call that waits for a pending bridge does next. It is asked once at
/// first and then each time it is woken.
pub fn wait_for_pending_bridge(
    channel_id: Snowflake,
    call_id: CallId,
    instance_id: u64,
    bridges: &Bridges,
    sip_calls: &SipCalls,
) -> (r: BridgeWait)
    ensures
        r == bridge_wait(bridges@, sip_calls@, channel_id, call_id, instance_id),
{
    if bridges.contains(channel_id) || !bridges.is_pending(channel_id) {
        BridgeWait::Ready
    } else if !call_is_current(sip_calls, call_id, instance_id) {
        BridgeWait::CallEnded
    } else {
        BridgeWait::Wait
    }
}

// Laws

/// A lease is exclusive while it is held, and can be taken again afterwards;
/// taking and giving back leaves everything as it was.
pub proof fn law_lease_is_exclusive_and_reusable(bridges: BridgesView, channel: Snowflake)
    requires
        !bridges.is_pending(channel),
    ensures
        bridges.leased(channel).is_pending(channel),
        !bridges.leased(channel).released(channel).is_pending(channel),
        bridges.leased(channel).released(channel) == bridges,
{
    assert(bridges.leased(channel).released(channel).pending =~= bridges.pending);
}

/// Leases on different channels do not disturb each other.
pub proof fn law_leases_are_independent(bridges: BridgesView, a: Snowflake, b: Snowflake)
    requires
        a != b,
    ensures
        bridges.leased(a).is_pending(b) == bridges.is_pending(b),
        bridges.released(a).is_pending(b) == bridges.is_pending(b),
{
}

/// A call never waits for a bridge that nobody works on: once the lease is
/// given back, every call that looks again goes on.
pub proof fn law_release_ends_the_wait(
    bridges: BridgesView,
    calls: calls::CallsView,
    channel: Snowflake,
    call: CallId,
    instance: u64,
)
    ensures
        bridge_wait(bridges.released(channel), calls, channel, call, instance)
            == BridgeWait::Ready,
        bridge_wait(bridges, calls, channel, call, instance) == BridgeWait::Wait ==> calls
            .is_current(call, instance),
{
}

/// A bridge goes with its last call, and only then.
pub proof fn law_bridge_goes_with_its_last_call(
    bridges: BridgesView,
    channel: Snowflake,
    call: CallId,
    other: CallId,
)
    requires
        bridges.has(channel),
    ensures
        bridges.left(channel, call).has(channel) <==> exists|id: i32| #[trigger]
            bridges.others(channel, call).contains(id),
        other != call && bridges.bridges[channel.raw].calls.contains(other.raw) ==> bridges.left(
            channel,
            call,
        ).has(channel) && bridges.left(channel, call).bridges[channel.raw].calls.contains(
            other.raw,
        ),
{
    let rest = bridges.others(channel, call);
    if other != call && bridges.bridges[channel.raw].calls.contains(other.raw) {
        assert(other.raw != call.raw);
        assert(rest.contains(other.raw));
    }
    if exists|id: i32| rest.contains(id) {
        assert(rest != Set::<i32>::empty());
    } else {
        assert(rest =~= Set::<i32>::empty());
    }
}

} // verus!
