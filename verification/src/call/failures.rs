//! Why an outbound call failed, read off the words of the SIP stack.

use crate::routing;
use crate::routing::{OutboundCallFailureReason, OutboundCallLegFailure};
use crate::text;
use crate::text::{has_str, to_chars, to_lower};
use vstd::prelude::*;

verus! {

/// Whether a reason, in any letter case, holds one of some words.
pub open spec fn mentions(reason: Seq<char>, words: Seq<Seq<char>>) -> bool {
    exists|k: int| 0 <= k < words.len() && text::contains(text::lower(reason), #[trigger] words[k])
}

/// Words of a busy phone.
pub open spec fn busy_words() -> Seq<Seq<char>> {
    seq!["486"@, "busy"@]
}

/// Words of a declined call.
pub open spec fn declined_words() -> Seq<Seq<char>> {
    seq!["603"@, "declin"@, "reject"@]
}

/// Words of a phone that could not be reached.
pub open spec fn transport_words() -> Seq<Seq<char>> {
    seq![
        "transport"@,
        "connection refused"@,
        "sips required"@,
        "401"@,
        "403"@,
        "407"@,
        "502"@,
        "503"@,
        "504"@,
    ]
}

/// Words of a phone that nobody picked up.
pub open spec fn no_answer_words() -> Seq<Seq<char>> {
    seq!["408"@, "480"@, "timeout"@, "no answer"@]
}

/// What a reason stands for. Where it mentions several things, the first of
/// busy, declined, transport and no answer counts.
pub open spec fn classified(reason: Seq<char>) -> OutboundCallFailureReason {
    if mentions(reason, busy_words()) {
        OutboundCallFailureReason::Busy
    } else if mentions(reason, declined_words()) {
        OutboundCallFailureReason::Declined
    } else if mentions(reason, transport_words()) {
        OutboundCallFailureReason::Transport
    } else if mentions(reason, no_answer_words()) {
        OutboundCallFailureReason::NoAnswer
    } else {
        OutboundCallFailureReason::Internal
    }
}

/// Whether one of the legs failed for this reason.
pub open spec fn some_leg(
    failures: Seq<routing::LegFailureView>,
    reason: OutboundCallFailureReason,
) -> bool {
    exists|k: int| 0 <= k < failures.len() && classified((#[trigger] failures[k]).detail) == reason
}

/// What the failures of all legs stand for: the most telling of them.
pub open spec fn most_telling(
    failures: Seq<routing::LegFailureView>,
) -> OutboundCallFailureReason {
    if some_leg(failures, OutboundCallFailureReason::Busy) {
        OutboundCallFailureReason::Busy
    } else if some_leg(failures, OutboundCallFailureReason::Declined) {
        OutboundCallFailureReason::Declined
    } else if some_leg(failures, OutboundCallFailureReason::NoAnswer) {
        OutboundCallFailureReason::NoAnswer
    } else if some_leg(failures, OutboundCallFailureReason::Transport) {
        OutboundCallFailureReason::Transport
    } else {
        OutboundCallFailureReason::Internal
    }
}

/// Whether a reason, in small letters, holds one of some words.
fn holds_one(reason: &Vec<char>, words: &Vec<&str>) -> (r: bool)
    ensures
        r == (exists|k: int|
            0 <= k < words@.len() && text::contains(reason@, (#[trigger] words@[k])@)),
{
    for i in 0..words.len()
        invariant
            forall|k: int| 0 <= k < i ==> !text::contains(reason@, (#[trigger] words@[k])@),
    {
        if has_str(reason, words[i]) {
            return true;
        }
    }
    false
}

/// The kind of failure that a reason tells of.
pub fn classify_failure_reason(reason: &str) -> (r: OutboundCallFailureReason)
    ensures
        r == classified(reason@),
{
    let lower = to_lower(&to_chars(reason));
    let busy: Vec<&str> = vec!["486", "busy"];
    let declined: Vec<&str> = vec!["603", "declin", "reject"];
    let transport: Vec<&str> = vec![
        "transport",
        "connection refused",
        "sips required",
        "401",
        "403",
        "407",
        "502",
        "503",
        "504",
    ];
    let no_answer: Vec<&str> = vec!["408", "480", "timeout", "no answer"];
    proof {
        lemma_mentions(reason@, busy@, busy_words());
        lemma_mentions(reason@, declined@, declined_words());
        lemma_mentions(reason@, transport@, transport_words());
        lemma_mentions(reason@, no_answer@, no_answer_words());
    }
    if holds_one(&lower, &busy) {
        OutboundCallFailureReason::Busy
    } else if holds_one(&lower, &declined) {
        OutboundCallFailureReason::Declined
    } else if holds_one(&lower, &transport) {
        OutboundCallFailureReason::Transport
    } else if holds_one(&lower, &no_answer) {
        OutboundCallFailureReason::NoAnswer
    } else {
        OutboundCallFailureReason::Internal
    }
}

proof fn lemma_mentions(reason: Seq<char>, words: Seq<&str>, views: Seq<Seq<char>>)
    requires
        words.len() == views.len(),
        forall|k: int| 0 <= k < words.len() ==> (#[trigger] words[k])@ == views[k],
    ensures
        mentions(reason, views) == (exists|k: int|
            0 <= k < words.len() && text::contains(text::lower(reason), (#[trigger] words[k])@)),
{
    if mentions(reason, views) {
        let k = choose|k: int|
            0 <= k < views.len() && text::contains(text::lower(reason), #[trigger] views[k]);
        assert(text::contains(text::lower(reason), words[k]@));
    }
    if exists|k: int|
        0 <= k < words.len() && text::contains(text::lower(reason), (#[trigger] words[k])@) {
        let k = choose|k: int|
            0 <= k < words.len() && text::contains(text::lower(reason), (#[trigger] words[k])@);
        assert(text::contains(text::lower(reason), views[k]));
    }
}

/// Whether one of the kinds is the given one.
fn has_reason(
    reasons: &Vec<OutboundCallFailureReason>,
    reason: OutboundCallFailureReason,
) -> (r: bool)
    ensures
        r == (exists|k: int| 0 <= k < reasons@.len() && #[trigger] reasons@[k] == reason),
{
    for i in 0..reasons.len()
        invariant
            forall|k: int| 0 <= k < i ==> #[trigger] reasons@[k] != reason,
    {
        if reasons[i] == reason {
            return true;
        }
    }
    false
}

/// The kind of failure that is reported when all legs have failed.
pub fn classify_failure_reasons(failures: &Vec<OutboundCallLegFailure>) -> (r:
    OutboundCallFailureReason)
    ensures
        r == most_telling(routing::leg_views(failures@)),
{
    let ghost views = routing::leg_views(failures@);
    let mut reasons: Vec<OutboundCallFailureReason> = Vec::new();
    for i in 0..failures.len()
        invariant
            reasons@.len() == i,
            views == routing::leg_views(failures@),
            forall|k: int| 0 <= k < i ==> #[trigger] reasons@[k] == classified(views[k].detail),
    {
        assert(views[i as int] == failures@[i as int]@);
        reasons.push(classify_failure_reason(failures[i].detail.as_str()));
    }
    assert forall|reason: OutboundCallFailureReason|
        some_leg(views, reason) == (exists|k: int|
            0 <= k < reasons@.len() && #[trigger] reasons@[k] == reason) by {
        if some_leg(views, reason) {
            let k = choose|k: int|
                0 <= k < views.len() && classified((#[trigger] views[k]).detail) == reason;
            assert(reasons@[k] == reason);
        }
        if exists|k: int| 0 <= k < reasons@.len() && #[trigger] reasons@[k] == reason {
            let k = choose|k: int| 0 <= k < reasons@.len() && #[trigger] reasons@[k] == reason;
            assert(classified(views[k].detail) == reason);
        }
    }
    if has_reason(&reasons, OutboundCallFailureReason::Busy) {
        OutboundCallFailureReason::Busy
    } else if has_reason(&reasons, OutboundCallFailureReason::Declined) {
        OutboundCallFailureReason::Declined
    } else if has_reason(&reasons, OutboundCallFailureReason::NoAnswer) {
        OutboundCallFailureReason::NoAnswer
    } else if has_reason(&reasons, OutboundCallFailureReason::Transport) {
        OutboundCallFailureReason::Transport
    } else {
        OutboundCallFailureReason::Internal
    }
}

// Laws

/// A failure that another leg reports does not change the outcome unless it is
/// more telling: the order of the legs does not count, and an internal failure
/// never hides another one.
pub proof fn law_useful_failure_wins(
    failures: Seq<routing::LegFailureView>,
    leg: routing::LegFailureView,
)
    ensures
        classified(leg.detail) == OutboundCallFailureReason::Internal ==> most_telling(
            failures.push(leg),
        ) == most_telling(failures),
        classified(leg.detail) == OutboundCallFailureReason::Busy ==> most_telling(
            failures.push(leg),
        ) == OutboundCallFailureReason::Busy,
        forall|reason: OutboundCallFailureReason|
            #![trigger some_leg(failures, reason)]
            some_leg(failures.push(leg), reason) == (some_leg(failures, reason) || classified(
                leg.detail,
            ) == reason),
        most_telling(failures) == OutboundCallFailureReason::Internal || some_leg(
            failures,
            most_telling(failures),
        ),
{
    let more = failures.push(leg);
    assert forall|reason: OutboundCallFailureReason|
        #![trigger some_leg(failures, reason)]
        some_leg(more, reason) == (some_leg(failures, reason) || classified(leg.detail)
            == reason) by {
        if some_leg(more, reason) {
            let k = choose|k: int|
                0 <= k < more.len() && classified((#[trigger] more[k]).detail) == reason;
            if k < failures.len() {
                assert(classified(failures[k].detail) == reason);
            }
        }
        if some_leg(failures, reason) {
            let k = choose|k: int|
                0 <= k < failures.len() && classified((#[trigger] failures[k]).detail) == reason;
            assert(classified(more[k].detail) == reason);
        }
        assert(more[failures.len() as int] == leg);
    }
    assert(some_leg(more, OutboundCallFailureReason::Busy) == (some_leg(
        failures,
        OutboundCallFailureReason::Busy,
    ) || classified(leg.detail) == OutboundCallFailureReason::Busy));
    assert(some_leg(more, OutboundCallFailureReason::Declined) == (some_leg(
        failures,
        OutboundCallFailureReason::Declined,
    ) || classified(leg.detail) == OutboundCallFailureReason::Declined));
    assert(some_leg(more, OutboundCallFailureReason::NoAnswer) == (some_leg(
        failures,
        OutboundCallFailureReason::NoAnswer,
    ) || classified(leg.detail) == OutboundCallFailureReason::NoAnswer));
    assert(some_leg(more, OutboundCallFailureReason::Transport) == (some_leg(
        failures,
        OutboundCallFailureReason::Transport,
    ) || classified(leg.detail) == OutboundCallFailureReason::Transport));
}

} // verus!
