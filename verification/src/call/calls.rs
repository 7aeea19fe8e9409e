//! The SIP calls that the bridge knows of.
//!
//! The SIP stack reuses the numbers of its calls. So each call also has an
//! instance number that is never reused, and work that was started for a call
//! looks at both before it touches anything.

use crate::ids::{CallId, Snowflake};
use crate::table;
use crate::table::{
    table_contains, table_get, table_insert, table_keys, table_remove, Copied, Stored,
};
use crate::text;
use crate::text::{copy_opt, same_str};
use crate::transport::sip::fork_group;
use crate::transport::sip::fork_group::ForkGroups;
use crate::time::Instant;
use dashmap::DashMap;
use std::collections::HashSet;
use vstd::prelude::*;

verus! {

broadcast use vstd::std_specs::hash::group_hash_axioms;

/// How many values the counter of the instance numbers has.
pub const COUNTER_VALUES: u128 = 0x1_0000_0000_0000_0000;

/// What is known of one SIP call.
#[derive(Debug)]
pub struct SipCallInfo {
    /// The instance of the call.
    pub instance_id: u64,
    /// The Discord channel that the call is connected to, once it is.
    pub channel_id: Option<Snowflake>,
    pub _user_id: Option<String>,
    pub _guild_id: Option<Snowflake>,
    /// The tracking id of an outbound call.
    pub tracking_id: Option<String>,
}

/// A call in the model.
pub ghost struct CallView {
    pub instance_id: u64,
    pub channel_id: Option<Snowflake>,
    pub user_id: Option<Seq<char>>,
    pub guild_id: Option<Snowflake>,
    pub tracking_id: Option<Seq<char>>,
}

impl View for SipCallInfo {
    type V = CallView;

    open spec fn view(&self) -> CallView {
        CallView {
            instance_id: self.instance_id,
            channel_id: self.channel_id,
            user_id: text::opt_text(self._user_id),
            guild_id: self._guild_id,
            tracking_id: text::opt_text(self.tracking_id),
        }
    }
}

impl CallView {
    /// A call that came in and is not routed yet.
    pub open spec fn fresh(instance_id: u64) -> CallView {
        CallView {
            instance_id,
            channel_id: None,
            user_id: None,
            guild_id: None,
            tracking_id: None,
        }
    }
}

/// The contents of the table of calls.
pub uninterp spec fn call_entries(table: DashMap<i32, SipCallInfo>) -> Map<i32, CallView>;

impl Stored<i32> for SipCallInfo {
    open spec fn entries(table: DashMap<i32, SipCallInfo>) -> Map<i32, CallView> {
        call_entries(table)
    }
}

impl Copied for SipCallInfo {
    fn copied(&self) -> (out: SipCallInfo) {
        SipCallInfo {
            instance_id: self.instance_id,
            channel_id: self.channel_id,
            _user_id: copy_opt(&self._user_id),
            _guild_id: self._guild_id,
            tracking_id: copy_opt(&self.tracking_id),
        }
    }
}

/// `DashMap::new`: an empty table.
#[verifier::external_body]
fn new_call_table() -> (table: DashMap<i32, SipCallInfo>)
    ensures
        call_entries(table) == (Map::<i32, CallView>::empty()),
{
    DashMap::new()
}

/// The SIP calls, and the instance number that comes next.
pub struct SipCalls {
    calls: DashMap<i32, SipCallInfo>,
    next_instance: u64,
}

/// The calls in the model.
pub ghost struct CallsView {
    pub calls: Map<i32, CallView>,
    pub next_instance: u64,
}

impl View for SipCalls {
    type V = CallsView;

    closed spec fn view(&self) -> CallsView {
        CallsView { calls: call_entries(self.calls), next_instance: self.next_instance }
    }
}

impl CallsView {
    /// The instance number that comes after the next one.
    pub open spec fn next_number(self) -> u64 {
        if self.next_instance == u64::MAX {
            0
        } else {
            (self.next_instance + 1) as u64
        }
    }

    /// The instance number that comes after `n` more were handed out.
    pub open spec fn number_after(self, n: nat) -> int {
        (self.next_instance + n) % (COUNTER_VALUES as int)
    }

    /// The calls after an instance number was handed out.
    pub open spec fn numbered(self) -> CallsView {
        CallsView { next_instance: self.next_number(), ..self }
    }

    /// Whether a call is there, in this instance.
    pub open spec fn is_current(self, call: CallId, instance: u64) -> bool {
        self.calls.contains_key(call.raw) && self.calls[call.raw].instance_id == instance
    }

    /// The calls with a call put in.
    pub open spec fn with(self, call: CallId, info: CallView) -> CallsView {
        CallsView { calls: self.calls.insert(call.raw, info), ..self }
    }

    /// The calls without a call.
    pub open spec fn without(self, call: CallId) -> CallsView {
        CallsView { calls: self.calls.remove(call.raw), ..self }
    }

    /// The calls without a call, if it is still in this instance.
    pub open spec fn without_current(self, call: CallId, instance: u64) -> CallsView {
        if self.is_current(call, instance) {
            self.without(call)
        } else {
            self
        }
    }

    /// The tracking id of a call, if it is an outbound one.
    pub open spec fn tracking_of(self, call: CallId) -> Option<Seq<char>> {
        if self.calls.contains_key(call.raw) {
            self.calls[call.raw].tracking_id
        } else {
            None
        }
    }

    /// The calls of an outbound call.
    pub open spec fn legs_of(self, tracking_id: Seq<char>) -> Set<i32> {
        self.calls.dom().filter(|id: i32| self.calls[id].tracking_id == Some(tracking_id))
    }
}

impl SipCalls {
    pub fn new() -> (calls: SipCalls)
        ensures
            calls@ == (CallsView { calls: Map::empty(), next_instance: 1 }),
    {
        SipCalls { calls: new_call_table(), next_instance: 1 }
    }

    /// The number for a new instance of a call.
    pub fn next_call_instance_id(&mut self) -> (id: u64)
        ensures
            id == old(self)@.next_instance,
            final(self)@ == old(self)@.numbered(),
    {
        let id = self.next_instance;
        self.next_instance = id.wrapping_add(1);
        id
    }

    /// Puts a call in.
    pub fn insert(&mut self, call_id: CallId, info: SipCallInfo)
        ensures
            final(self)@ == old(self)@.with(call_id, info@),
    {
        table_insert(&mut self.calls, call_id.raw, info);
    }

    /// Takes a call out.
    pub fn remove(&mut self, call_id: CallId) -> (taken: Option<SipCallInfo>)
        ensures
            final(self)@ == old(self)@.without(call_id),
            taken is Some <==> old(self)@.calls.contains_key(call_id.raw),
            taken matches Some(info) ==> info@ == old(self)@.calls[call_id.raw],
    {
        table_remove(&mut self.calls, &call_id.raw)
    }

    /// What is known of a call.
    pub fn get(&self, call_id: CallId) -> (found: Option<SipCallInfo>)
        ensures
            found is Some <==> self@.calls.contains_key(call_id.raw),
            found matches Some(info) ==> info@ == self@.calls[call_id.raw],
    {
        table_get(&self.calls, &call_id.raw)
    }

    /// Whether a call is there.
    pub fn contains(&self, call_id: CallId) -> (r: bool)
        ensures
            r == self@.calls.contains_key(call_id.raw),
    {
        table_contains(&self.calls, &call_id.raw)
    }

    /// The tracking id of a call, if it is an outbound one.
    pub fn tracking_id(&self, call_id: CallId) -> (id: Option<String>)
        ensures
            text::opt_text(id) == self@.tracking_of(call_id),
    {
        match self.get(call_id) {
            Some(info) => info.tracking_id,
            None => None,
        }
    }

    /// The calls of an outbound call, each once.
    fn legs(&self, tracking_id: &str) -> (legs: HashSet<i32>)
        ensures
            legs@ == self@.legs_of(tracking_id@),
    {
        let keys = table_keys(&self.calls);
        let ghost all = self@.calls.dom();
        let ghost want = self@.legs_of(tracking_id@);
        let mut legs: HashSet<i32> = HashSet::new();
        assert(table::key_views(keys@) =~= keys@);
        for i in 0..keys.len()
            invariant
                table::enumerates(keys@, all),
                all == self@.calls.dom(),
                want == self@.legs_of(tracking_id@),
                forall|id: i32| #[trigger]
                    legs@.contains(id) <==> want.contains(id) && keys@.take(i as int).contains(id),
        {
            let ghost before = legs@;
            let leg = match self.tracking_id(CallId { raw: keys[i] }) {
                Some(id) => same_str(id.as_str(), tracking_id),
                None => false,
            };
            assert(keys@.contains(keys@[i as int]));
            assert(all.contains(keys@[i as int]));
            if leg {
                legs.insert(keys[i]);
            }
            assert(keys@.take(i + 1) =~= keys@.take(i as int).push(keys@[i as int]));
            assert forall|id: i32| #[trigger] legs@.contains(id) <==> want.contains(id)
                && keys@.take(i + 1).contains(id) by {
                table::lemma_push_contains(keys@.take(i as int), keys@[i as int], id);
                assert(before.contains(id) <==> want.contains(id) && keys@.take(
                    i as int,
                ).contains(id));
            }
        }
        assert(keys@.take(keys@.len() as int) =~= keys@);
        assert(legs@ =~= want);
        legs
    }
}

/// Whether a call is still there in this instance.
pub fn call_is_current(sip_calls: &SipCalls, call_id: CallId, instance_id: u64) -> (r: bool)
    ensures
        r == sip_calls@.is_current(call_id, instance_id),
{
    match sip_calls.get(call_id) {
        Some(info) => info.instance_id == instance_id,
        None => false,
    }
}

/// Takes a call out, if it is still there in this instance.
pub fn remove_call_if_current(
    sip_calls: &mut SipCalls,
    call_id: CallId,
    instance_id: u64,
) -> (taken: Option<SipCallInfo>)
    ensures
        final(sip_calls)@ == old(sip_calls)@.without_current(call_id, instance_id),
        taken is Some <==> old(sip_calls)@.is_current(call_id, instance_id),
        taken matches Some(info) ==> info@ == old(sip_calls)@.calls[call_id.raw],
{
    if call_is_current(sip_calls, call_id, instance_id) {
        sip_calls.remove(call_id)
    } else {
        None
    }
}

/// The legs of an outbound call that is cancelled: those that still ring and
/// those that are connected. Its fork group is resolved.
pub fn take_outbound_call_legs(
    tracking_id: &str,
    sip_calls: &SipCalls,
    forks: &mut ForkGroups,
    now: Instant,
) -> (legs: HashSet<i32>)
    requires
        old(forks)@.wf(),
    ensures
        final(forks)@.wf(),
        final(forks)@ == old(forks)@.resolve(tracking_id@, now),
        legs@ == old(forks)@.live_legs(tracking_id@) + sip_calls@.legs_of(tracking_id@),
{
    let ringing = fork_group::cancel(forks, tracking_id, now);
    let mut legs = sip_calls.legs(tracking_id);
    let ghost connected = legs@;
    let ghost raw = fork_group::raw_ids(ringing@);
    for i in 0..ringing.len()
        invariant
            raw == fork_group::raw_ids(ringing@),
            legs@ == connected + raw.take(i as int).to_set(),
    {
        assert(raw[i as int] == ringing@[i as int].raw);
        proof {
            table::lemma_take_to_set(raw, i as int);
        }
        legs.insert(ringing[i].raw);
        assert(legs@ =~= connected + raw.take(i + 1).to_set());
    }
    proof {
        assert(raw.take(raw.len() as int) =~= raw);
        table::lemma_enumerates(raw, old(forks)@.live_legs(tracking_id@));
        assert(legs@ =~= old(forks)@.live_legs(tracking_id@) + connected);
    }
    legs
}

// Laws

/// Work that was started for an earlier instance of a call cannot remove the
/// call that now has its number.
pub proof fn law_stale_instance_cannot_remove(calls: CallsView, call: CallId, stale: u64)
    requires
        calls.calls.contains_key(call.raw),
        calls.calls[call.raw].instance_id != stale,
    ensures
        calls.without_current(call, stale) == calls,
        calls.is_current(call, calls.calls[call.raw].instance_id),
        !calls.without_current(call, calls.calls[call.raw].instance_id).calls.contains_key(
            call.raw,
        ),
{
}

/// A cancellation takes each leg of a call once, ringing or connected, and no
/// leg of another call. No leg rings afterwards, and none can be added.
pub proof fn law_cancel_takes_every_leg(
    forks: fork_group::ForksView,
    calls: CallsView,
    id: Seq<char>,
    leg: i32,
    fork_total: nat,
    now: Instant,
)
    ensures
        ({
            let legs = forks.live_legs(id) + calls.legs_of(id);
            let after = forks.resolve(id, now);
            &&& legs.contains(leg) <==> forks.live_legs(id).contains(leg) || (
            calls.calls.contains_key(leg) && calls.calls[leg].tracking_id == Some(id))
            &&& after.live_legs(id) == Set::<i32>::empty()
            &&& after.add_member(id, leg, fork_total) == after
        }),
{
}

/// Instance numbers are not reused: those that are handed out one after another
/// all differ, until the counter has gone through all its values.
pub proof fn law_instances_differ(calls: CallsView, i: nat, j: nat)
    requires
        i < j < COUNTER_VALUES,
    ensures
        calls.number_after(0) == calls.next_instance,
        calls.numbered().number_after(i) == calls.number_after(i + 1),
        calls.number_after(i) != calls.number_after(j),
{
    let n = calls.next_instance as int;
    assert(COUNTER_VALUES == u64::MAX + 1);
    if calls.next_instance == u64::MAX {
        assert((n + (i + 1)) == COUNTER_VALUES as int + i);
        vstd::arithmetic::div_mod::lemma_mod_add_multiples_vanish(i as int, COUNTER_VALUES as int);
    }
    let a = n + i;
    let b = n + j;
    if a % (COUNTER_VALUES as int) == b % (COUNTER_VALUES as int) {
        vstd::arithmetic::div_mod::lemma_fundamental_div_mod(a, COUNTER_VALUES as int);
        vstd::arithmetic::div_mod::lemma_fundamental_div_mod(b, COUNTER_VALUES as int);
        let q = b / (COUNTER_VALUES as int) - a / (COUNTER_VALUES as int);
        assert(b - a == COUNTER_VALUES * q) by (nonlinear_arith)
            requires
                a == COUNTER_VALUES * (a / (COUNTER_VALUES as int)) + a % (COUNTER_VALUES as int),
                b == COUNTER_VALUES * (b / (COUNTER_VALUES as int)) + b % (COUNTER_VALUES as int),
                a % (COUNTER_VALUES as int) == b % (COUNTER_VALUES as int),
                q == b / (COUNTER_VALUES as int) - a / (COUNTER_VALUES as int),
        ;
        assert(false) by (nonlinear_arith)
            requires
                0 < b - a < COUNTER_VALUES,
                b - a == COUNTER_VALUES * q,
        ;
    }
}

} // verus!
