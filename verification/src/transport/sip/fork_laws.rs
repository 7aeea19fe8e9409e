//! How the legs of an outbound call come to one end.
//!
//! The laws speak of what the operations are given and of what they give.

use crate::ids::CallId;
use crate::table;
use crate::time::{Duration, Instant};
use crate::transport::sip::fork_group;
use crate::transport::sip::fork_group::{
    add_initial_failure, add_member, cancel, cleanup_resolved, mark_answered, mark_failed,
    ForkGroups,
};
use vstd::prelude::*;

verus! {

/// Whether the calls but one are the same.
pub open spec fn same_but(
    before: fork_group::ForksView,
    after: fork_group::ForksView,
    id: Seq<char>,
    other: Seq<char>,
) -> bool {
    other != id ==> {
        &&& after.groups.contains_key(other) <==> before.groups.contains_key(other)
        &&& after.groups[other] == before.groups[other]
        &&& after.resolved.contains_key(other) <==> before.resolved.contains_key(other)
        &&& after.resolved[other] == before.resolved[other]
    }
}

/// Whether a call is over since a point in time: it waits for no leg.
pub open spec fn is_over(forks: fork_group::ForksView, id: Seq<char>, since: Instant) -> bool {
    &&& !forks.groups.contains_key(id)
    &&& forks.resolved.contains_key(id)
    &&& forks.resolved[id] == since
}

/// A leg that was started is one that the call waits for. The first one tells how
/// many there will be. A call that is over takes none.
pub proof fn law_started_leg_is_waited_for(
    forks: &mut ForkGroups,
    id: &str,
    call: CallId,
    fork_total: usize,
    added: bool,
    leg: i32,
    other: Seq<char>,
)
    requires
        call_ensures(add_member, (forks, id, call, fork_total), added),
    ensures
        added <==> !old(forks)@.resolved.contains_key(id@),
        !added ==> final(forks)@ == old(forks)@,
        added ==> {
            let fresh = !old(forks)@.groups.contains_key(id@);
            let before = old(forks)@.groups[id@];
            let after = final(forks)@.groups[id@];
            &&& final(forks)@.groups.contains_key(id@)
            &&& after.siblings.contains(leg) <==> leg == call.raw || (!fresh
                && before.siblings.contains(leg))
            &&& after.failed.contains(leg) <==> !fresh && before.failed.contains(leg)
            &&& after.answered == (if fresh {
                None
            } else {
                before.answered
            })
            &&& after.expected_total == (if fresh {
                fork_total as nat
            } else {
                before.expected_total
            })
            &&& after.initial_failures == (if fresh {
                0
            } else {
                before.initial_failures
            })
            &&& !final(forks)@.resolved.contains_key(id@)
        },
        same_but(old(forks)@, final(forks)@, id@, other),
{
}

/// A leg that could not be started counts as failed. The call is over with the last
/// one, and only then this is told.
pub proof fn law_leg_that_cannot_start_counts(
    forks: &mut ForkGroups,
    id: &str,
    fork_total: usize,
    now: Instant,
    all_failed: bool,
    other: Seq<char>,
)
    requires
        call_ensures(add_initial_failure, (forks, id, fork_total, now), all_failed),
    ensures
        ({
            let known = old(forks)@.groups.contains_key(id@);
            let before = old(forks)@.groups[id@];
            let ended = if known {
                before.failed.len() + before.initial_failures + 1
            } else {
                1
            };
            let total = if known {
                before.expected_total
            } else {
                fork_total as nat
            };
            let over = old(forks)@.resolved.contains_key(id@);
            &&& all_failed <==> !over && ended >= total
            &&& over ==> final(forks)@ == old(forks)@
            &&& all_failed ==> is_over(final(forks)@, id@, now)
            &&& !over && !all_failed ==> {
                let after = final(forks)@.groups[id@];
                &&& final(forks)@.groups.contains_key(id@)
                &&& after.failed.len() + after.initial_failures == ended
                &&& after.expected_total == total
                &&& known ==> after.siblings == before.siblings && after.failed == before.failed
                &&& !known ==> after.siblings.len() == 0
            }
        }),
        same_but(old(forks)@, final(forks)@, id@, other),
{
}

/// The first answer ends the call. It is told which other legs to drop: those that
/// were started and have not failed, each once. A later answer is told none.
pub proof fn law_first_answer_ends_the_call(
    forks: &mut ForkGroups,
    id: &str,
    call: CallId,
    now: Instant,
    dropped: Option<Vec<CallId>>,
    leg: i32,
    other: Seq<char>,
)
    requires
        call_ensures(mark_answered, (forks, id, call, now), dropped),
    ensures
        ({
            let group = old(forks)@.groups[id@];
            &&& is_over(final(forks)@, id@, now)
            &&& dropped is Some <==> old(forks)@.groups.contains_key(id@) && group.answered is None
            &&& dropped matches Some(list) ==> (list@.contains(CallId { raw: leg })
                <==> group.siblings.contains(leg) && !group.failed.contains(leg) && leg
                != call.raw) && list@.no_duplicates()
        }),
        same_but(old(forks)@, final(forks)@, id@, other),
{
    if let Some(list) = dropped {
        lemma_named(list@, old(forks)@.rivals(id@, call.raw), leg);
    }
}

proof fn lemma_named(list: Seq<CallId>, set: Set<i32>, leg: i32)
    requires
        table::enumerates(fork_group::raw_ids(list), set),
    ensures
        list.contains(CallId { raw: leg }) <==> set.contains(leg),
        list.no_duplicates(),
{
    let ids = fork_group::raw_ids(list);
    assert(ids.contains(leg) <==> set.contains(leg));
    if list.contains(CallId { raw: leg }) {
        let k = choose|k: int| 0 <= k < list.len() && list[k] == CallId { raw: leg };
        assert(ids[k] == leg);
    }
    if ids.contains(leg) {
        let k = choose|k: int| 0 <= k < ids.len() && ids[k] == leg;
        assert(list[k] == CallId { raw: leg });
    }
    assert forall|i: int, j: int| 0 <= i < j < list.len() implies list[i] != list[j] by {
        assert(ids[i] != ids[j]);
    }
}

/// A leg that failed is no longer waited for. The call is over with the last one,
/// and only then this is told.
pub proof fn law_last_failure_ends_the_call(
    forks: &mut ForkGroups,
    id: &str,
    call: CallId,
    now: Instant,
    all_failed: bool,
    leg: i32,
    other: Seq<char>,
)
    requires
        call_ensures(mark_failed, (forks, id, call, now), all_failed),
    ensures
        ({
            let before = old(forks)@.groups[id@];
            let waits = old(forks)@.groups.contains_key(id@) && before.answered is None;
            let ended = before.failed.insert(call.raw).len() + before.initial_failures;
            &&& all_failed <==> waits && ended >= before.expected_total
            &&& all_failed ==> is_over(final(forks)@, id@, now)
            &&& !waits ==> final(forks)@ == old(forks)@
            &&& waits && !all_failed ==> {
                let after = final(forks)@.groups[id@];
                &&& final(forks)@.groups.contains_key(id@)
                &&& after.failed.contains(leg) <==> before.failed.contains(leg) || leg == call.raw
                &&& after.siblings.contains(leg) <==> before.siblings.contains(leg) && leg
                    != call.raw
                &&& after.expected_total == before.expected_total
                &&& after.initial_failures == before.initial_failures
                &&& after.answered is None
            }
        }),
        same_but(old(forks)@, final(forks)@, id@, other),
{
}

/// Cancelling ends the call and tells which legs to hang up: those that were
/// started and have not failed, each once.
pub proof fn law_cancelling_ends_the_call(
    forks: &mut ForkGroups,
    id: &str,
    now: Instant,
    legs: Vec<CallId>,
    leg: i32,
    other: Seq<char>,
)
    requires
        call_ensures(cancel, (forks, id, now), legs),
    ensures
        is_over(final(forks)@, id@, now),
        legs@.contains(CallId { raw: leg }) <==> old(forks)@.groups.contains_key(id@) && old(
            forks,
        )@.groups[id@].siblings.contains(leg) && !old(forks)@.groups[id@].failed.contains(leg),
        legs@.no_duplicates(),
        same_but(old(forks)@, final(forks)@, id@, other),
{
    lemma_named(legs@, old(forks)@.live_legs(id@), leg);
}

/// It is remembered that a call is over until the given age is reached; calls that
/// wait for legs are never forgotten.
pub proof fn law_end_is_remembered_for_a_while(
    forks: &mut ForkGroups,
    age: Duration,
    now: Instant,
    id: Seq<char>,
)
    requires
        call_ensures(cleanup_resolved, (forks, age, now), ()),
    ensures
        final(forks)@.groups == old(forks)@.groups,
        now.nanos >= old(forks)@.resolved[id].nanos ==> (final(forks)@.resolved.contains_key(id)
            <==> old(forks)@.resolved.contains_key(id) && now.nanos - old(
            forks,
        )@.resolved[id].nanos < age.nanos),
        final(forks)@.resolved.contains_key(id) ==> old(forks)@.resolved.contains_key(id) && final(forks)@.resolved[id] == old(forks)@.resolved[id],
{
}

} // verus!
