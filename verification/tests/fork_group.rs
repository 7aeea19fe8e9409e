//! Tests of the fork groups.

use sipcord_bridge::ids::CallId;
use sipcord_bridge::time::{Duration, Instant};
use sipcord_bridge::transport::sip::fork_group::{
    add_initial_failure, add_member, cancel, cleanup_resolved, mark_answered, mark_failed,
    ForkGroups,
};

fn at(secs: u64) -> Instant {
    Instant { nanos: secs * 1_000_000_000 }
}

fn now() -> Instant {
    at(100)
}

#[test]
fn test_add_members_and_answer() {
    let mut forks = ForkGroups::new();
    let tid = "answer";
    let c1 = CallId::new(100);
    let c2 = CallId::new(101);
    let c3 = CallId::new(102);

    add_member(&mut forks, tid, c1, 3);
    add_member(&mut forks, tid, c2, 3);
    add_member(&mut forks, tid, c3, 3);

    // c1 answers -> siblings c2, c3 returned for cancellation
    let siblings = mark_answered(&mut forks, tid, c1, now()).unwrap();
    assert_eq!(siblings.len(), 2);
    assert!(siblings.contains(&c2));
    assert!(siblings.contains(&c3));
}

#[test]
fn test_all_failed() {
    let mut forks = ForkGroups::new();
    let tid = "allfail";
    let c1 = CallId::new(200);
    let c2 = CallId::new(201);

    add_member(&mut forks, tid, c1, 2);
    add_member(&mut forks, tid, c2, 2);

    assert!(!mark_failed(&mut forks, tid, c1, now())); // 1/2 failed
    assert!(mark_failed(&mut forks, tid, c2, now())); // 2/2 failed -> all_failed = true
}

#[test]
fn test_answer_on_already_resolved() {
    let mut forks = ForkGroups::new();
    let tid = "double_answer";
    let c1 = CallId::new(300);
    let c2 = CallId::new(301);

    add_member(&mut forks, tid, c1, 2);
    add_member(&mut forks, tid, c2, 2);

    // First answer removes the group
    mark_answered(&mut forks, tid, c1, now());

    // Second answer -> group gone, returns None
    assert!(mark_answered(&mut forks, tid, c2, now()).is_none());
}

#[test]
fn test_failed_on_already_resolved() {
    let mut forks = ForkGroups::new();
    let tid = "fail_after_answer";
    let c1 = CallId::new(400);
    let c2 = CallId::new(401);

    add_member(&mut forks, tid, c1, 2);
    add_member(&mut forks, tid, c2, 2);

    mark_answered(&mut forks, tid, c1, now());

    // Late failure after answer -> returns false
    assert!(!mark_failed(&mut forks, tid, c2, now()));
}

#[test]
fn test_initial_failures_plus_call_failures() {
    let mut forks = ForkGroups::new();
    let tid = "mixed_fail";
    let c1 = CallId::new(500);

    // 3 total forks: 1 started, 2 failed to start
    add_member(&mut forks, tid, c1, 3);
    add_initial_failure(&mut forks, tid, 3, now());
    add_initial_failure(&mut forks, tid, 3, now());

    // The one started leg also fails -> all_failed
    assert!(mark_failed(&mut forks, tid, c1, now()));
}

#[test]
fn test_all_initial_failures_resolve_group() {
    let mut forks = ForkGroups::new();
    let tid = "all_initial_fail";
    assert!(!add_initial_failure(&mut forks, tid, 2, now()));
    assert!(add_initial_failure(&mut forks, tid, 2, now()));
    assert!(cancel(&mut forks, tid, now()).is_empty());
}

#[test]
fn test_single_member_fork_group() {
    let mut forks = ForkGroups::new();
    let tid = "single";
    let c1 = CallId::new(600);

    add_member(&mut forks, tid, c1, 1);

    // Single member answers -> empty siblings list
    let siblings = mark_answered(&mut forks, tid, c1, now()).unwrap();
    assert!(siblings.is_empty());
}

#[test]
fn cancel_is_idempotent() {
    let mut forks = ForkGroups::new();
    let tid = "cancel";
    let c1 = CallId::new(700);
    let c2 = CallId::new(701);
    add_member(&mut forks, tid, c1, 2);
    add_member(&mut forks, tid, c2, 2);

    let cancelled = cancel(&mut forks, tid, now());
    assert_eq!(cancelled.len(), 2);
    assert!(cancel(&mut forks, tid, now()).is_empty());
    assert!(!mark_failed(&mut forks, tid, c1, now()));
}

#[test]
fn cancel_rejects_late_fork_members() {
    let mut forks = ForkGroups::new();
    let tid = "cancel_before_member";
    assert!(cancel(&mut forks, tid, now()).is_empty());
    assert!(!add_member(&mut forks, tid, CallId::new(710), 1));
    assert!(mark_answered(&mut forks, tid, CallId::new(711), now()).is_none());
}

#[test]
fn test_some_fail_then_answer() {
    let mut forks = ForkGroups::new();
    let tid = "partial_fail_answer";
    let c1 = CallId::new(700);
    let c2 = CallId::new(701);
    let c3 = CallId::new(702);

    add_member(&mut forks, tid, c1, 3);
    add_member(&mut forks, tid, c2, 3);
    add_member(&mut forks, tid, c3, 3);

    // c1 fails first
    assert!(!mark_failed(&mut forks, tid, c1, now()));

    // c2 answers -> should only cancel c3 (c1 already failed)
    let siblings = mark_answered(&mut forks, tid, c2, now()).unwrap();
    assert_eq!(siblings.len(), 1);
    assert!(siblings.contains(&c3));
}

#[test]
fn cancellation_rejects_late_initial_failures() {
    let mut forks = ForkGroups::new();
    let tid = "cancel_initial_failure";
    cancel(&mut forks, tid, now());
    assert!(!add_initial_failure(&mut forks, tid, 1, now()));
    assert!(!forks.is_open(tid));
}

#[test]
fn tombstones_can_be_swept_after_the_late_event_window() {
    let mut forks = ForkGroups::new();
    let tid = "cleanup";
    cancel(&mut forks, tid, at(90));
    assert!(!add_member(&mut forks, tid, CallId::new(5_000), 1));

    cleanup_resolved(&mut forks, Duration::from_secs(1), at(100));
    assert!(add_member(&mut forks, tid, CallId::new(5_001), 1));
    cancel(&mut forks, tid, at(100));
}

#[test]
fn many_answers_have_exactly_one_winner() {
    const LEGS: usize = 32;
    let mut forks = ForkGroups::new();
    for raw_id in 0..LEGS {
        assert!(add_member(&mut forks, "race", CallId::new(raw_id as i32 + 1_000), LEGS));
    }
    let winners: Vec<_> = (0..LEGS)
        .filter_map(|raw_id| {
            mark_answered(&mut forks, "race", CallId::new(raw_id as i32 + 1_000), now())
        })
        .collect();
    assert_eq!(winners.len(), 1);
    assert_eq!(winners[0].len(), LEGS - 1);
}

#[test]
fn many_failures_report_completion_once() {
    const LEGS: usize = 32;
    let mut forks = ForkGroups::new();
    for raw_id in 0..LEGS {
        assert!(add_member(&mut forks, "race", CallId::new(raw_id as i32 + 2_000), LEGS));
    }
    let reports = (0..LEGS)
        .filter(|raw_id| {
            mark_failed(&mut forks, "race", CallId::new(*raw_id as i32 + 2_000), now())
        })
        .count();
    assert_eq!(reports, 1);
    assert!(cancel(&mut forks, "race", now()).is_empty());
}

#[test]
fn groups_of_different_calls_do_not_mix() {
    let mut forks = ForkGroups::new();
    add_member(&mut forks, "a", CallId::new(1), 1);
    add_member(&mut forks, "b", CallId::new(2), 1);
    assert_eq!(cancel(&mut forks, "a", now()), vec![CallId::new(1)]);
    assert!(forks.is_open("b"));
    assert!(mark_failed(&mut forks, "b", CallId::new(2), now()));
}

#[test]
fn young_tombstones_stay() {
    let mut forks = ForkGroups::new();
    cancel(&mut forks, "x", at(100));
    cleanup_resolved(&mut forks, Duration::from_secs(120), at(219));
    assert!(!add_member(&mut forks, "x", CallId::new(1), 1));
    cleanup_resolved(&mut forks, Duration::from_secs(120), at(220));
    assert!(add_member(&mut forks, "x", CallId::new(1), 1));
}
