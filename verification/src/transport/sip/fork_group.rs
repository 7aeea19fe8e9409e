//! Fork groups: the call legs of one outbound call that rings several phones.
//!
//! All phones that a user has registered ring at once. A fork group holds the
//! legs of one logical call, found by its tracking id. When one leg answers,
//! the others are cancelled; when all have failed, the call has failed. A
//! resolved group leaves a tombstone, so that a late leg is refused.

use crate::ids::CallId;
use crate::table;
use crate::table::{
    set_to_vec, table_contains, table_get, table_insert, table_keys, table_remove, Copied, Stored,
};
use crate::time;
use crate::time::{Duration, Instant};
use dashmap::DashMap;
use std::collections::HashSet;
use vstd::prelude::*;

verus! {

broadcast use {vstd::std_specs::hash::group_hash_axioms, vstd::string::group_string_axioms};

/// The legs of one logical call.
pub struct ForkGroup {
    /// Legs that were started and have not failed.
    pub sibling_call_ids: HashSet<i32>,
    /// Legs that have failed.
    pub failed_call_ids: HashSet<i32>,
    /// The number of legs that could not even be started.
    pub initial_failures: usize,
    /// The leg that answered first.
    pub answered_call_id: Option<CallId>,
    /// How many legs the call was forked to.
    pub expected_total: usize,
}

/// A fork group in the model.
pub ghost struct ForkGroupView {
    pub siblings: Set<i32>,
    pub failed: Set<i32>,
    pub initial_failures: nat,
    pub answered: Option<CallId>,
    pub expected_total: nat,
}

impl View for ForkGroup {
    type V = ForkGroupView;

    open spec fn view(&self) -> ForkGroupView {
        ForkGroupView {
            siblings: self.sibling_call_ids@,
            failed: self.failed_call_ids@,
            initial_failures: self.initial_failures as nat,
            answered: self.answered_call_id,
            expected_total: self.expected_total as nat,
        }
    }
}

impl ForkGroupView {
    /// A group without legs.
    pub open spec fn fresh(fork_total: nat) -> ForkGroupView {
        ForkGroupView {
            siblings: Set::empty(),
            failed: Set::empty(),
            initial_failures: 0,
            answered: None,
            expected_total: fork_total,
        }
    }

    /// The number of legs that have come to an end.
    pub open spec fn ended(self) -> nat {
        self.failed.len() + self.initial_failures
    }

    /// Whether every leg has failed.
    pub open spec fn all_failed(self) -> bool {
        self.ended() >= self.expected_total
    }

    /// An unresolved group: no leg has answered, and fewer legs have ended than
    /// were started at first.
    pub open spec fn open_group(self) -> bool {
        &&& self.answered is None
        &&& self.failed.finite()
        &&& self.expected_total <= usize::MAX
        &&& self.ended() < (if self.expected_total == 0 {
            1
        } else {
            self.expected_total
        })
    }
}

/// The contents of the table of fork groups.
pub uninterp spec fn group_entries(table: DashMap<String, ForkGroup>) -> Map<
    Seq<char>,
    ForkGroupView,
>;

impl Stored<String> for ForkGroup {
    open spec fn entries(table: DashMap<String, ForkGroup>) -> Map<Seq<char>, ForkGroupView> {
        group_entries(table)
    }
}

/// `DashMap::new`: an empty table.
#[verifier::external_body]
fn new_group_table() -> (table: DashMap<String, ForkGroup>)
    ensures
        group_entries(table) == (Map::<Seq<char>, ForkGroupView>::empty()),
{
    DashMap::new()
}

/// The contents of the table of tombstones.
pub uninterp spec fn instant_entries(table: DashMap<String, Instant>) -> Map<Seq<char>, Instant>;

impl Stored<String> for Instant {
    open spec fn entries(table: DashMap<String, Instant>) -> Map<Seq<char>, Instant> {
        instant_entries(table)
    }
}

impl Copied for Instant {
    fn copied(&self) -> (out: Instant) {
        *self
    }
}

/// `DashMap::new`: an empty table.
#[verifier::external_body]
fn new_instant_table() -> (table: DashMap<String, Instant>)
    ensures
        instant_entries(table) == (Map::<Seq<char>, Instant>::empty()),
{
    DashMap::new()
}

/// All fork groups, by tracking id.
pub struct ForkGroups {
    groups: DashMap<String, ForkGroup>,
    resolved: DashMap<String, Instant>,
}

/// The fork groups in the model.
pub ghost struct ForksView {
    /// The unresolved groups.
    pub groups: Map<Seq<char>, ForkGroupView>,
    /// When a call was resolved.
    pub resolved: Map<Seq<char>, Instant>,
}

impl View for ForkGroups {
    type V = ForksView;

    closed spec fn view(&self) -> ForksView {
        ForksView {
            groups: group_entries(self.groups),
            resolved: instant_entries(self.resolved),
        }
    }
}

impl ForksView {
    /// No call is both unresolved and resolved, and the groups are unresolved.
    pub open spec fn wf(self) -> bool {
        &&& forall|id: Seq<char>| #[trigger]
            self.groups.contains_key(id) ==> !self.resolved.contains_key(id)
                && self.groups[id].open_group()
    }

    /// The group of a call, a fresh one if there is none yet.
    pub open spec fn group_or_fresh(self, id: Seq<char>, fork_total: nat) -> ForkGroupView {
        if self.groups.contains_key(id) {
            self.groups[id]
        } else {
            ForkGroupView::fresh(fork_total)
        }
    }

    /// The groups after a call was resolved at `now`.
    pub open spec fn resolve(self, id: Seq<char>, now: Instant) -> ForksView {
        ForksView { groups: self.groups.remove(id), resolved: self.resolved.insert(id, now) }
    }

    /// The group of a call after a leg was started.
    pub open spec fn with_member(self, id: Seq<char>, call: i32, fork_total: nat) -> ForkGroupView {
        let group = self.group_or_fresh(id, fork_total);
        ForkGroupView { siblings: group.siblings.insert(call), ..group }
    }

    /// What starting a leg does.
    pub open spec fn add_member(self, id: Seq<char>, call: i32, fork_total: nat) -> ForksView {
        if self.resolved.contains_key(id) {
            self
        } else {
            ForksView {
                groups: self.groups.insert(id, self.with_member(id, call, fork_total)),
                ..self
            }
        }
    }

    /// The group of a call after a leg could not be started.
    pub open spec fn with_initial_failure(self, id: Seq<char>, fork_total: nat) -> ForkGroupView {
        let group = self.group_or_fresh(id, fork_total);
        ForkGroupView { initial_failures: group.initial_failures + 1, ..group }
    }

    /// Whether a leg that could not be started was the last one.
    pub open spec fn initial_failure_resolves(self, id: Seq<char>, fork_total: nat) -> bool {
        !self.resolved.contains_key(id) && self.with_initial_failure(id, fork_total).all_failed()
    }

    /// What a leg that could not be started does.
    pub open spec fn add_initial_failure(
        self,
        id: Seq<char>,
        fork_total: nat,
        now: Instant,
    ) -> ForksView {
        if self.resolved.contains_key(id) {
            self
        } else if self.initial_failure_resolves(id, fork_total) {
            self.resolve(id, now)
        } else {
            ForksView {
                groups: self.groups.insert(id, self.with_initial_failure(id, fork_total)),
                ..self
            }
        }
    }

    /// The legs to cancel when `call` answers: those that have not failed.
    pub open spec fn rivals(self, id: Seq<char>, call: i32) -> Set<i32> {
        self.groups[id].siblings.difference(self.groups[id].failed).remove(call)
    }

    /// Whether an answer is the first of its call.
    pub open spec fn answer_wins(self, id: Seq<char>) -> bool {
        self.groups.contains_key(id) && self.groups[id].answered is None
    }

    /// The group of a call after a leg failed.
    pub open spec fn with_failure(self, id: Seq<char>, call: i32) -> ForkGroupView {
        let group = self.groups[id];
        ForkGroupView {
            siblings: group.siblings.remove(call),
            failed: group.failed.insert(call),
            ..group
        }
    }

    /// Whether a leg that failed was the last one.
    pub open spec fn failure_resolves(self, id: Seq<char>, call: i32) -> bool {
        self.answer_wins(id) && self.with_failure(id, call).all_failed()
    }

    /// What a leg that failed does.
    pub open spec fn mark_failed(self, id: Seq<char>, call: i32, now: Instant) -> ForksView {
        if !self.answer_wins(id) {
            self
        } else if self.failure_resolves(id, call) {
            self.resolve(id, now)
        } else {
            ForksView { groups: self.groups.insert(id, self.with_failure(id, call)), ..self }
        }
    }

    /// The live legs of a call that is cancelled.
    pub open spec fn live_legs(self, id: Seq<char>) -> Set<i32> {
        if self.groups.contains_key(id) {
            self.groups[id].siblings.difference(self.groups[id].failed)
        } else {
            Set::empty()
        }
    }

    /// The groups with the tombstones younger than `nanos`.
    pub open spec fn swept(self, nanos: nat, now: Instant) -> ForksView {
        ForksView {
            resolved: self.resolved.restrict(
                self.resolved.dom().filter(
                    |id: Seq<char>| time::nanos_between(self.resolved[id], now) < nanos,
                ),
            ),
            ..self
        }
    }
}

impl ForkGroups {
    pub fn new() -> (forks: ForkGroups)
        ensures
            forks@.wf(),
            forks@.groups == (Map::<Seq<char>, ForkGroupView>::empty()),
            forks@.resolved == (Map::<Seq<char>, Instant>::empty()),
    {
        ForkGroups { groups: new_group_table(), resolved: new_instant_table() }
    }

    /// Whether a call has an unresolved group.
    pub fn is_open(&self, tracking_id: &str) -> (r: bool)
        ensures
            r == self@.groups.contains_key(tracking_id@),
    {
        table_contains(&self.groups, &tracking_id.to_owned())
    }

    fn take_group(&mut self, tracking_id: &str) -> (group: Option<ForkGroup>)
        ensures
            final(self)@ == (ForksView { groups: old(self)@.groups.remove(tracking_id@), ..old(
                self,
            )@ }),
            group is Some <==> old(self)@.groups.contains_key(tracking_id@),
            group matches Some(g) ==> g@ == old(self)@.groups[tracking_id@],
    {
        table_remove(&mut self.groups, &tracking_id.to_owned())
    }

    fn put_group(&mut self, tracking_id: &str, group: ForkGroup)
        ensures
            final(self)@ == (ForksView {
                groups: old(self)@.groups.insert(tracking_id@, group@),
                ..old(self)@
            }),
    {
        table_insert(&mut self.groups, tracking_id.to_owned(), group);
    }

    fn bury(&mut self, tracking_id: &str, now: Instant)
        ensures
            final(self)@ == (ForksView {
                resolved: old(self)@.resolved.insert(tracking_id@, now),
                ..old(self)@
            }),
    {
        table_insert(&mut self.resolved, tracking_id.to_owned(), now);
    }

    fn is_resolved(&self, tracking_id: &str) -> (r: bool)
        ensures
            r == self@.resolved.contains_key(tracking_id@),
    {
        table_contains(&self.resolved, &tracking_id.to_owned())
    }
}

fn fresh_group(fork_total: usize) -> (group: ForkGroup)
    ensures
        group@ == ForkGroupView::fresh(fork_total as nat),
{
    ForkGroup {
        sibling_call_ids: HashSet::new(),
        failed_call_ids: HashSet::new(),
        initial_failures: 0,
        answered_call_id: None,
        expected_total: fork_total,
    }
}

/// Puts a leg that was started into the fork group of its call. Refused, with
/// `false`, when the call is already resolved.
pub fn add_member(
    forks: &mut ForkGroups,
    tracking_id: &str,
    call_id: CallId,
    fork_total: usize,
) -> (added: bool)
    requires
        old(forks)@.wf(),
    ensures
        final(forks)@.wf(),
        final(forks)@ == old(forks)@.add_member(tracking_id@, call_id.raw, fork_total as nat),
        added == !old(forks)@.resolved.contains_key(tracking_id@),
{
    if forks.is_resolved(tracking_id) {
        return false;
    }
    let ghost before = forks@;
    let mut group = match forks.take_group(tracking_id) {
        Some(group) => group,
        None => fresh_group(fork_total),
    };
    let _ = group.sibling_call_ids.insert(call_id.raw);
    forks.put_group(tracking_id, group);
    proof {
        assert(forks@.groups =~= before.add_member(
            tracking_id@,
            call_id.raw,
            fork_total as nat,
        ).groups);
    }
    true
}

/// Counts a leg that could not be started. Returns whether all legs of the call
/// have failed with it; a resolved call is not touched.
pub fn add_initial_failure(
    forks: &mut ForkGroups,
    tracking_id: &str,
    fork_total: usize,
    now: Instant,
) -> (all_failed: bool)
    requires
        old(forks)@.wf(),
    ensures
        final(forks)@.wf(),
        final(forks)@ == old(forks)@.add_initial_failure(tracking_id@, fork_total as nat, now),
        all_failed == old(forks)@.initial_failure_resolves(tracking_id@, fork_total as nat),
{
    if forks.is_resolved(tracking_id) {
        return false;
    }
    let ghost before = forks@;
    let mut group = match forks.take_group(tracking_id) {
        Some(group) => group,
        None => fresh_group(fork_total),
    };
    assert(group@ == before.group_or_fresh(tracking_id@, fork_total as nat));
    assert(group@.open_group());
    group.initial_failures = group.initial_failures + 1;
    let all_failed = group.initial_failures + group.failed_call_ids.len() >= group.expected_total;
    if all_failed {
        forks.bury(tracking_id, now);
        assert(forks@.groups =~= before.groups.remove(tracking_id@));
    } else {
        forks.put_group(tracking_id, group);
        assert(forks@.groups =~= before.groups.insert(
            tracking_id@,
            before.with_initial_failure(tracking_id@, fork_total as nat),
        ));
    }
    all_failed
}

/// The members of `legs` that are not in `failed` and are not `except`, each
/// once.
fn live_calls(legs: &HashSet<i32>, failed: &HashSet<i32>, except: Option<CallId>) -> (out: Vec<
    CallId,
>)
    ensures
        table::enumerates(
            raw_ids(out@),
            legs@.difference(failed@).filter(|id: i32| except != Some(CallId { raw: id })),
        ),
{
    let ids = set_to_vec(legs);
    let mut out: Vec<CallId> = Vec::new();
    for i in 0..ids.len()
        invariant
            ids@.no_duplicates(),
            raw_ids(out@).no_duplicates(),
            forall|a: i32| #[trigger]
                raw_ids(out@).contains(a) ==> ids@.take(i as int).contains(a) && !failed@.contains(a)
                    && except != Some(CallId { raw: a }),
            forall|j: int|
                0 <= j < i && !failed@.contains(#[trigger] ids@[j]) && except != Some(
                    CallId { raw: ids@[j] },
                ) ==> raw_ids(out@).contains(ids@[j]),
    {
        let ghost before = raw_ids(out@);
        let id: i32 = ids[i];
        let keep = match except {
            Some(c) => c.raw != id,
            None => true,
        };
        assert(ids@.take(i + 1) =~= ids@.take(i as int).push(id));
        assert forall|a: i32| ids@.take(i + 1).contains(a) == (ids@.take(i as int).contains(a) || a
            == id) by {
            table::lemma_push_contains(ids@.take(i as int), id, a);
        }
        if keep && !failed.contains(&id) {
            assert(!ids@.take(i as int).contains(id));
            assert(!before.contains(id));
            out.push(CallId { raw: id });
            assert(raw_ids(out@) =~= before.push(id));
        }
        assert forall|a: i32| before.contains(a) implies raw_ids(out@).contains(a) by {
            table::lemma_push_contains(before, id, a);
        }
        proof {
            assert forall|a: i32| #[trigger] raw_ids(out@).contains(a) implies before.contains(a) || a
                == id by {
                table::lemma_push_contains(before, id, a);
            }
            table::lemma_push_contains(before, id, id);
        }
    }
    assert(ids@.take(ids@.len() as int) =~= ids@);
    let ghost wanted = legs@.difference(failed@).filter(
        |id: i32| except != Some(CallId { raw: id }),
    );
    assert forall|a: i32| #[trigger] wanted.contains(a) implies raw_ids(out@).contains(a) by {
        assert(ids@.contains(a));
        let j = choose|j: int| 0 <= j < ids@.len() && ids@[j] == a;
        assert(ids@[j] == a);
    }
    out
}

/// The raw numbers of call ids.
pub open spec fn raw_ids(ids: Seq<CallId>) -> Seq<i32> {
    ids.map_values(|id: CallId| id.raw)
}

/// Records that a leg answered, which resolves the call. The first answer gets
/// the sibling legs to cancel; an answer to a call that is already resolved
/// gets nothing.
pub fn mark_answered(
    forks: &mut ForkGroups,
    tracking_id: &str,
    call_id: CallId,
    now: Instant,
) -> (siblings: Option<Vec<CallId>>)
    requires
        old(forks)@.wf(),
    ensures
        final(forks)@.wf(),
        final(forks)@ == old(forks)@.resolve(tracking_id@, now),
        siblings is Some <==> old(forks)@.answer_wins(tracking_id@),
        siblings matches Some(list) ==> table::enumerates(
            raw_ids(list@),
            old(forks)@.rivals(tracking_id@, call_id.raw),
        ),
{
    let ghost before = forks@;
    forks.bury(tracking_id, now);
    let group = match forks.take_group(tracking_id) {
        Some(group) => group,
        None => {
            assert(before.groups.remove(tracking_id@) =~= before.groups);
            return None;
        },
    };
    if group.answered_call_id.is_some() {
        return None;
    }
    let siblings = live_calls(
        &group.sibling_call_ids,
        &group.failed_call_ids,
        Some(call_id),
    );
    assert(group@.siblings.difference(group@.failed).filter(
        |id: i32| Some(call_id) != Some(CallId { raw: id }),
    ) =~= before.rivals(tracking_id@, call_id.raw));
    Some(siblings)
}

/// Records that a leg failed. Returns whether all legs of the call have failed
/// with it, which resolves the call. The late failure of a leg whose call is
/// resolved does not count.
pub fn mark_failed(
    forks: &mut ForkGroups,
    tracking_id: &str,
    call_id: CallId,
    now: Instant,
) -> (all_failed: bool)
    requires
        old(forks)@.wf(),
    ensures
        final(forks)@.wf(),
        final(forks)@ == old(forks)@.mark_failed(tracking_id@, call_id.raw, now),
        all_failed == old(forks)@.failure_resolves(tracking_id@, call_id.raw),
{
    let ghost before = forks@;
    let mut group = match forks.take_group(tracking_id) {
        Some(group) => group,
        None => {
            assert(before.groups.remove(tracking_id@) =~= before.groups);
            return false;
        },
    };
    if group.answered_call_id.is_some() {
        forks.put_group(tracking_id, group);
        assert(forks@.groups =~= before.groups);
        return false;
    }
    assert(group@.open_group());
    let _ = group.sibling_call_ids.remove(&call_id.raw);
    let _ = group.failed_call_ids.insert(call_id.raw);
    assert(group@ == before.with_failure(tracking_id@, call_id.raw));
    let total_resolved = group.failed_call_ids.len() + group.initial_failures;
    let all_failed = total_resolved >= group.expected_total;
    if all_failed {
        forks.bury(tracking_id, now);
        assert(forks@.groups =~= before.groups.remove(tracking_id@));
    } else {
        forks.put_group(tracking_id, group);
        assert(forks@.groups =~= before.groups.insert(
            tracking_id@,
            before.with_failure(tracking_id@, call_id.raw),
        ));
    }
    all_failed
}

/// Resolves a call and returns its live legs, to be hung up. Cancelling again
/// returns none.
pub fn cancel(forks: &mut ForkGroups, tracking_id: &str, now: Instant) -> (legs: Vec<CallId>)
    requires
        old(forks)@.wf(),
    ensures
        final(forks)@.wf(),
        final(forks)@ == old(forks)@.resolve(tracking_id@, now),
        table::enumerates(raw_ids(legs@), old(forks)@.live_legs(tracking_id@)),
{
    let ghost before = forks@;
    forks.bury(tracking_id, now);
    match forks.take_group(tracking_id) {
        Some(group) => {
            let none: Option<CallId> = None;
            let legs = live_calls(&group.sibling_call_ids, &group.failed_call_ids, none);
            assert(group@.siblings.difference(group@.failed).filter(
                |id: i32| none != Some(CallId { raw: id }),
            ) =~= before.live_legs(tracking_id@));
            legs
        },
        None => {
            assert(before.groups.remove(tracking_id@) =~= before.groups);
            Vec::new()
        },
    }
}

/// Drops the tombstones that are `max_age` old or older.
pub fn cleanup_resolved(forks: &mut ForkGroups, max_age: Duration, now: Instant)
    requires
        old(forks)@.wf(),
    ensures
        final(forks)@.wf(),
        final(forks)@ == old(forks)@.swept(max_age.nanos as nat, now),
{
    let keys = table_keys(&forks.resolved);
    let ghost all = forks@.resolved;
    let ghost groups = forks@.groups;
    let ghost names = table::key_views(keys@);
    let ghost young = |id: Seq<char>| time::nanos_between(all[id], now) < max_age.nanos;
    for i in 0..keys.len()
        invariant
            names == table::key_views(keys@),
            table::enumerates(names, all.dom()),
            forks@.groups == groups,
            young == (|id: Seq<char>| time::nanos_between(all[id], now) < max_age.nanos),
            forall|id: Seq<char>| #[trigger]
                forks@.resolved.contains_key(id) ==> all.contains_key(id) && forks@.resolved[id]
                    == all[id],
            forall|j: int|
                0 <= j < i ==> (#[trigger] forks@.resolved.contains_key(names[j]) <==> young(
                    names[j],
                )),
            forall|j: int|
                i <= j < names.len() ==> #[trigger] forks@.resolved.contains_key(names[j]),
    {
        let ghost before = forks@.resolved;
        let ghost name = names[i as int];
        assert(name == keys@[i as int]@);
        assert(before.contains_key(name));
        if let Some(resolved_at) = table_get(&forks.resolved, &keys[i]) {
            if resolved_at.elapsed(now).nanos >= max_age.nanos {
                let _ = table_remove(&mut forks.resolved, &keys[i]);
            }
        }
        assert forall|j: int| 0 <= j < names.len() && j != i implies (forks@.resolved.contains_key(
            #[trigger] names[j],
        ) <==> before.contains_key(names[j])) by {
            assert(names[j] != name);
        }
    }
    assert(forks@.resolved =~= all.restrict(all.dom().filter(young))) by {
        assert forall|id: Seq<char>| #[trigger] all.contains_key(id) implies (
        forks@.resolved.contains_key(id) <==> young(id)) by {
            assert(names.contains(id));
            let j = choose|j: int| 0 <= j < names.len() && names[j] == id;
            assert(forks@.resolved.contains_key(names[j]) <==> young(names[j]));
        }
    }
}

// Laws

/// Of all answers to a call at most one wins: once a call is resolved, no
/// answer to it gets siblings to cancel.
pub proof fn law_one_answer_wins(forks: ForksView, id: Seq<char>, now: Instant)
    ensures
        !forks.resolve(id, now).answer_wins(id),
{
}

/// A resolved call takes no further leg and no further failure: starting a
/// leg, failing to start one and the failure of one change nothing.
pub proof fn law_resolved_call_is_final(
    forks: ForksView,
    id: Seq<char>,
    resolved_at: Instant,
    call: i32,
    fork_total: nat,
    now: Instant,
)
    ensures
        ({
            let done = forks.resolve(id, resolved_at);
            &&& done.add_member(id, call, fork_total) == done
            &&& done.add_initial_failure(id, fork_total, now) == done
            &&& done.mark_failed(id, call, now) == done
            &&& !done.initial_failure_resolves(id, fork_total)
            &&& !done.failure_resolves(id, call)
        }),
{
}

/// Cancelling is idempotent: once cancelled, a call has no live leg left, and
/// cancelling it again at the same time changes nothing.
pub proof fn law_cancel_is_idempotent(forks: ForksView, id: Seq<char>, now: Instant)
    ensures
        forks.resolve(id, now).live_legs(id) == Set::<i32>::empty(),
        forks.resolve(id, now).resolve(id, now) == forks.resolve(id, now),
{
    let done = forks.resolve(id, now);
    assert(done.groups.remove(id) =~= done.groups);
    assert(done.resolved.insert(id, now) =~= done.resolved);
}

/// A leg that was taken in is never lost: cancelling the call hands it back
/// to be hung up, unless it has failed.
pub proof fn law_cancel_returns_added_leg(
    forks: ForksView,
    id: Seq<char>,
    call: i32,
    fork_total: nat,
)
    requires
        !forks.resolved.contains_key(id),
        forks.groups.contains_key(id) ==> !forks.groups[id].failed.contains(call),
    ensures
        forks.add_member(id, call, fork_total).live_legs(id).contains(call),
{
}

/// The failure of a call is reported once: after the failure that resolves it,
/// no failure resolves it again.
pub proof fn law_failure_is_reported_once(
    forks: ForksView,
    id: Seq<char>,
    call: i32,
    other: i32,
    now: Instant,
)
    requires
        forks.failure_resolves(id, call),
    ensures
        !forks.mark_failed(id, call, now).failure_resolves(id, other),
{
}

/// Failures are counted exactly: the failure of a leg that had not failed
/// resolves an unresolved call if and only if all other legs have ended.
pub proof fn law_last_failure_resolves(forks: ForksView, id: Seq<char>, call: i32)
    requires
        forks.wf(),
        forks.groups.contains_key(id),
        !forks.groups[id].failed.contains(call),
    ensures
        forks.failure_resolves(id, call) <==> forks.groups[id].ended() + 1
            >= forks.groups[id].expected_total,
{
}

/// The calls are independent: what happens to one call leaves the group and
/// the tombstone of every other call as they are.
pub proof fn law_calls_are_independent(
    forks: ForksView,
    id: Seq<char>,
    other: Seq<char>,
    call: i32,
    fork_total: nat,
    now: Instant,
)
    requires
        id != other,
    ensures
        same_call(forks, forks.add_member(id, call, fork_total), other),
        same_call(forks, forks.add_initial_failure(id, fork_total, now), other),
        same_call(forks, forks.mark_failed(id, call, now), other),
        same_call(forks, forks.resolve(id, now), other),
{
}

/// Whether a call is in the same state before and after.
pub open spec fn same_call(before: ForksView, after: ForksView, id: Seq<char>) -> bool {
    &&& before.groups.contains_key(id) == after.groups.contains_key(id)
    &&& before.groups.contains_key(id) ==> before.groups[id] == after.groups[id]
    &&& before.resolved.contains_key(id) == after.resolved.contains_key(id)
    &&& before.resolved.contains_key(id) ==> before.resolved[id] == after.resolved[id]
}

/// A tombstone is swept once it is old enough, and a call without tombstone
/// takes legs again; a younger tombstone stays.
pub proof fn law_sweep_ends_the_late_window(
    forks: ForksView,
    id: Seq<char>,
    nanos: nat,
    now: Instant,
)
    requires
        forks.resolved.contains_key(id),
    ensures
        forks.swept(nanos, now).resolved.contains_key(id) <==> time::nanos_between(
            forks.resolved[id],
            now,
        ) < nanos,
        forks.swept(nanos, now).groups == forks.groups,
{
}

} // verus!
