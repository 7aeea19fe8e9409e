//! What single operations do to calls, to fax sessions and to sounds.
//!
//! The laws speak of what the operations are given and of what they give.

use crate::call::action;
use crate::call::action::Action;
use crate::call::calls::{
    call_is_current, remove_call_if_current, take_outbound_call_legs, SipCallInfo, SipCalls,
};
use crate::call::failures::{classify_failure_reason, classify_failure_reasons};
use crate::call::fax_sessions;
use crate::call::fax_sessions::{
    fax_session_is_current, register_fax_session_if_current, remove_fax_session_if_current,
    FaxSessions,
};
use crate::call::sounds::{
    connecting_loop_actions, end_playback, play_discord_join, play_extension_sound_and_hangup,
    playback_wait, queue_connected_call_audio, ExtensionSound, PlaybackStep,
};
use crate::ids::CallId;
use crate::routing::{OutboundCallFailureReason, OutboundCallLegFailure};
use crate::text;
use crate::time::Instant;
use crate::transport::sip::fork_group::ForkGroups;
use crate::transport::sip::types;
use vstd::prelude::*;

verus! {

// Calls

/// A call that is put in is known as it was given, until it is taken out; other
/// calls are not touched.
pub proof fn law_call_is_known_as_it_was_given(
    calls: &mut SipCalls,
    call: CallId,
    info: SipCallInfo,
    seen: &SipCalls,
    found: Option<SipCallInfo>,
    later: &mut SipCalls,
    taken: Option<SipCallInfo>,
    other: i32,
)
    requires
        call_ensures(SipCalls::insert, (calls, call, info), ()),
        seen@ == final(calls)@,
        call_ensures(SipCalls::get, (seen, call), found),
        old(later)@ == final(calls)@,
        call_ensures(SipCalls::remove, (later, call), taken),
    ensures
        found matches Some(f) && f@ == info@,
        taken matches Some(t) && t@ == info@,
        !final(later)@.calls.contains_key(call.raw),
        other != call.raw ==> (final(later)@.calls.contains_key(other) <==> old(
            calls,
        )@.calls.contains_key(other)) && final(later)@.calls[other] == old(calls)@.calls[other],
        final(later)@.next_instance == old(calls)@.next_instance,
{
}

/// What is known of a call is what it was made of.
pub proof fn law_call_is_seen_as_it_is(info: SipCallInfo)
    ensures
        info@.instance_id == info.instance_id,
        info@.channel_id == info.channel_id,
        info@.user_id == text::opt_text(info._user_id),
        info@.guild_id == info._guild_id,
        info@.tracking_id == text::opt_text(info.tracking_id),
{
}

/// Each call that comes has a number that the one before it had not.
pub proof fn law_numbers_go_on(
    calls: &mut SipCalls,
    first: u64,
    then: &mut SipCalls,
    second: u64,
)
    requires
        call_ensures(SipCalls::next_call_instance_id, (calls,), first),
        old(then)@ == final(calls)@,
        call_ensures(SipCalls::next_call_instance_id, (then,), second),
    ensures
        first == old(calls)@.next_instance,
        first < u64::MAX ==> second == first + 1,
        first == u64::MAX ==> second == 0,
        final(then)@.calls == old(calls)@.calls,
{
}

/// Only the work for the present instance of a call takes it out.
pub proof fn law_only_the_present_instance_is_taken_out(
    calls: &mut SipCalls,
    call: CallId,
    instance: u64,
    taken: Option<SipCallInfo>,
    seen: &SipCalls,
    current: bool,
    other: i32,
)
    requires
        seen@ == old(calls)@,
        call_ensures(call_is_current, (seen, call, instance), current),
        call_ensures(remove_call_if_current, (calls, call, instance), taken),
    ensures
        current <==> old(calls)@.calls.contains_key(call.raw)
            && old(calls)@.calls[call.raw].instance_id == instance,
        taken is Some <==> current,
        taken matches Some(t) ==> t@ == old(calls)@.calls[call.raw],
        current ==> !final(calls)@.calls.contains_key(call.raw),
        !current ==> final(calls)@ == old(calls)@,
        other != call.raw ==> (final(calls)@.calls.contains_key(other) <==> old(
            calls,
        )@.calls.contains_key(other)) && final(calls)@.calls[other] == old(calls)@.calls[other],
{
}

/// The legs of an outbound call are those that ring and those that are connected;
/// once they are taken the call is over.
pub proof fn law_all_legs_are_taken(
    id: &str,
    calls: &SipCalls,
    forks: &mut ForkGroups,
    now: Instant,
    legs: std::collections::HashSet<i32>,
    leg: i32,
)
    requires
        call_ensures(take_outbound_call_legs, (id, calls, forks, now), legs),
    ensures
        ({
            let group = old(forks)@.groups[id@];
            let rings = old(forks)@.groups.contains_key(id@) && group.siblings.contains(leg)
                && !group.failed.contains(leg);
            let connected = calls@.calls.contains_key(leg) && calls@.calls[leg].tracking_id
                == Some(id@);
            &&& legs@.contains(leg) <==> rings || connected
            &&& !final(forks)@.groups.contains_key(id@)
            &&& final(forks)@.resolved.contains_key(id@)
        }),
{
}

// Fax sessions

/// A session is registered for the present instance of a call that has no other
/// one. It then is the session of the call, and one of an earlier instance is
/// cancelled and loses its port. A session that is turned away changes nothing.
pub proof fn law_session_is_registered_for_its_call(
    calls: &SipCalls,
    fax: &mut FaxSessions,
    call: CallId,
    instance: u64,
    session: u64,
    r: (bool, Vec<Action>),
    seen: &FaxSessions,
    current: bool,
    other: i32,
)
    requires
        call_ensures(
            register_fax_session_if_current,
            (calls, fax, call, instance, session),
            r,
        ),
        seen@ == final(fax)@,
        call_ensures(fax_session_is_current, (calls, seen, call, instance, session), current),
    ensures
        ({
            let here = calls@.calls.contains_key(call.raw) && calls@.calls[call.raw].instance_id
                == instance;
            let has_one = old(fax)@.sessions.contains_key(call.raw);
            let entry = old(fax)@.sessions[call.raw];
            let taken = has_one && entry.instance_id == instance && entry.session != session;
            let acts = action::action_views(r.1@);
            &&& r.0 <==> here && !taken
            &&& r.0 ==> current && final(fax)@.sessions.contains_key(call.raw)
                && final(fax)@.sessions[call.raw].session == session
                && final(fax)@.sessions[call.raw].instance_id == instance
            &&& !r.0 ==> final(fax)@ == old(fax)@ && acts.len() == 0
            &&& r.0 && has_one && entry.instance_id != instance ==> acts.len() == 2 && acts[0] == (
            action::ActionView::CancelFax { session: entry.session }) && acts[1] == (
            action::ActionView::RemoveFaxPort { call_id: call })
            &&& r.0 && !(has_one && entry.instance_id != instance) ==> acts.len() == 0
            &&& other != call.raw ==> (final(fax)@.sessions.contains_key(other) <==> old(
                fax,
            )@.sessions.contains_key(other)) && final(fax)@.sessions[other]
                == old(fax)@.sessions[other]
        }),
{
}

/// A session is current while its call is there in its instance and holds it.
pub proof fn law_current_session(
    calls: &SipCalls,
    fax: &FaxSessions,
    call: CallId,
    instance: u64,
    session: u64,
    current: bool,
)
    requires
        call_ensures(fax_session_is_current, (calls, fax, call, instance, session), current),
    ensures
        current <==> calls@.calls.contains_key(call.raw) && calls@.calls[call.raw].instance_id
            == instance && fax@.sessions.contains_key(call.raw) && fax@.sessions[call.raw].session
            == session && fax@.sessions[call.raw].instance_id == instance,
{
}

/// Only the session that a call has, in its instance, is taken from it; it is
/// cancelled and loses its port.
pub proof fn law_only_its_own_session_is_taken(
    fax: &mut FaxSessions,
    call: CallId,
    instance: u64,
    session: u64,
    r: (bool, Vec<Action>),
    other: i32,
)
    requires
        call_ensures(remove_fax_session_if_current, (fax, call, instance, session), r),
    ensures
        ({
            let entry = old(fax)@.sessions[call.raw];
            let acts = action::action_views(r.1@);
            &&& r.0 <==> old(fax)@.sessions.contains_key(call.raw) && entry.session == session
                && entry.instance_id == instance
            &&& r.0 ==> !final(fax)@.sessions.contains_key(call.raw) && acts.len() == 2 && acts[0]
                == (action::ActionView::CancelFax { session }) && acts[1] == (
            action::ActionView::RemoveFaxPort { call_id: call })
            &&& !r.0 ==> final(fax)@ == old(fax)@ && acts.len() == 0
            &&& other != call.raw ==> (final(fax)@.sessions.contains_key(other) <==> old(
                fax,
            )@.sessions.contains_key(other)) && final(fax)@.sessions[other]
                == old(fax)@.sessions[other]
        }),
{
    assert(old(fax)@.sessions[call.raw] == (fax_sessions::FaxSessionEntry {
        session: old(fax)@.sessions[call.raw].session,
        instance_id: old(fax)@.sessions[call.raw].instance_id,
    }));
}

// Sounds

/// Whether an action plays these samples to a call.
pub open spec fn plays_to(a: action::ActionView, call: CallId, samples: Seq<i16>) -> bool {
    a == (action::ActionView::Sip {
        command: types::SipCommandView::PlayDirectToCall { call_id: call, samples },
    })
}

/// Whether an action answers a call.
pub open spec fn answers_call(a: action::ActionView, call: CallId) -> bool {
    a == (action::ActionView::Sip { command: types::SipCommandView::Answer { call_id: call } })
}

/// A connected call is answered, and then hears that somebody joined, where there
/// is a sound for it; a waiting call hears the connecting loop, where there is one.
pub proof fn law_connected_call_is_answered_and_greeted(
    call: CallId,
    samples: Option<Vec<i16>>,
    connected: Vec<Action>,
    joined: Vec<Action>,
    looped: Vec<Action>,
)
    requires
        call_ensures(queue_connected_call_audio, (call, samples), connected),
        call_ensures(play_discord_join, (call, samples), joined),
        call_ensures(connecting_loop_actions, (call, samples), looped),
    ensures
        ({
            let c = action::action_views(connected@);
            let j = action::action_views(joined@);
            let l = action::action_views(looped@);
            &&& answers_call(c[0], call)
            &&& samples is None ==> c.len() == 1 && j.len() == 0 && l.len() == 0
            &&& samples matches Some(s) ==> c.len() == 2 && plays_to(c[1], call, s@) && j.len()
                == 1 && plays_to(j[0], call, s@) && l.len() == 1 && l[0] == (
            action::ActionView::Sip {
                command: types::SipCommandView::StartConnectingLoop { call_id: call, samples: s@ },
            })
        }),
{
}

/// A sound at 16000 samples a second is waited for until its end, and 200 ms more.
pub proof fn law_sound_is_waited_for(samples: usize, ms: u64)
    requires
        samples * 1000 <= u64::MAX,
        call_ensures(playback_wait, (samples,), ms),
    ensures
        (ms - 200) * 16 <= samples < (ms - 200 + 1) * 16,
{
    let n = samples as int;
    assert(n * 1000 / 16000 == n / 16) by (nonlinear_arith);
}

/// An extension with a sound of its own answers its call first. A tone or a stream
/// goes on by itself; a short sound is played and waited for; without any sound the
/// call is hung up at once. A call that ended hears nothing.
pub proof fn law_extension_sound_is_played(
    calls: &SipCalls,
    call: CallId,
    instance: u64,
    sound: ExtensionSound,
    step: PlaybackStep,
)
    requires
        call_ensures(play_extension_sound_and_hangup, (calls, call, instance, sound), step),
        sound.preloaded matches Some((_, duration)) ==> duration + 200 <= u64::MAX,
    ensures
        ({
            let a = action::action_views(step.actions@);
            let here = calls@.calls.contains_key(call.raw) && calls@.calls[call.raw].instance_id
                == instance;
            &&& !here ==> a.len() == 0 && step.wait_ms is None
            &&& here ==> a.len() == 2 && answers_call(a[0], call)
            &&& here && sound.is_test_tone ==> a[1] == (action::ActionView::Sip {
                command: types::SipCommandView::StartTestTone { call_id: call },
            }) && step.wait_ms is None
            &&& here && !sound.is_test_tone && sound.streaming_path is Some ==> a[1] == (
            action::ActionView::Sip {
                command: types::SipCommandView::StartStreaming {
                    call_id: call,
                    path: sound.streaming_path->0@,
                },
            }) && step.wait_ms is None
            &&& here && !sound.is_test_tone && sound.streaming_path is None && sound.preloaded
                is Some ==> plays_to(a[1], call, (sound.preloaded->0).0@) && step.wait_ms
                is Some && step.wait_ms->0 == (sound.preloaded->0).1 + 200
            &&& here && !sound.is_test_tone && sound.streaming_path is None && sound.preloaded
                is None ==> a[1] == (action::ActionView::Sip {
                command: types::SipCommandView::Hangup { call_id: call },
            }) && step.wait_ms is None
        }),
{
    assert(step@.actions == action::action_views(step.actions@));
    assert(step@.wait_ms == step.wait_ms);
}

/// When a sound is over its call is hung up, if it is still the same call.
pub proof fn law_call_ends_with_its_sound(
    calls: &SipCalls,
    call: CallId,
    instance: u64,
    step: PlaybackStep,
)
    requires
        call_ensures(end_playback, (calls, call, instance), step),
    ensures
        ({
            let a = action::action_views(step.actions@);
            let here = calls@.calls.contains_key(call.raw) && calls@.calls[call.raw].instance_id
                == instance;
            &&& step.wait_ms is None
            &&& !here ==> a.len() == 0
            &&& here ==> a.len() == 1 && a[0] == (action::ActionView::Sip {
                command: types::SipCommandView::Hangup { call_id: call },
            })
        }),
{
    assert(step@.actions == action::action_views(step.actions@));
    assert(step@.wait_ms == step.wait_ms);
}

// Failures

/// Whether a reason says some words, in either case of letters.
pub open spec fn says(reason: Seq<char>, words: Seq<char>) -> bool {
    text::contains(text::lower(reason), words)
}

/// Whether a reason tells of a busy phone.
pub open spec fn tells_busy(reason: Seq<char>) -> bool {
    says(reason, "486"@) || says(reason, "busy"@)
}

/// Whether a reason tells of a call that was declined.
pub open spec fn tells_declined(reason: Seq<char>) -> bool {
    says(reason, "603"@) || says(reason, "declin"@) || says(reason, "reject"@)
}

/// Whether a reason tells of a phone that could not be reached.
pub open spec fn tells_unreached(reason: Seq<char>) -> bool {
    ||| says(reason, "transport"@)
    ||| says(reason, "connection refused"@)
    ||| says(reason, "sips required"@)
    ||| says(reason, "401"@)
    ||| says(reason, "403"@)
    ||| says(reason, "407"@)
    ||| says(reason, "502"@)
    ||| says(reason, "503"@)
    ||| says(reason, "504"@)
}

/// Whether a reason tells of a phone that nobody answered.
pub open spec fn tells_unanswered(reason: Seq<char>) -> bool {
    says(reason, "408"@) || says(reason, "480"@) || says(reason, "timeout"@) || says(
        reason,
        "no answer"@,
    )
}

proof fn lemma_mentions(reason: Seq<char>)
    ensures
        crate::call::failures::mentions(reason, crate::call::failures::busy_words()) <==> tells_busy(
            reason,
        ),
        crate::call::failures::mentions(reason, crate::call::failures::declined_words())
            <==> tells_declined(reason),
        crate::call::failures::mentions(reason, crate::call::failures::transport_words())
            <==> tells_unreached(reason),
        crate::call::failures::mentions(reason, crate::call::failures::no_answer_words())
            <==> tells_unanswered(reason),
{
    let busy = crate::call::failures::busy_words();
    let declined = crate::call::failures::declined_words();
    let transport = crate::call::failures::transport_words();
    let silent = crate::call::failures::no_answer_words();
    assert(busy[0] == "486"@ && busy[1] == "busy"@);
    assert(declined[0] == "603"@ && declined[1] == "declin"@ && declined[2] == "reject"@);
    assert(transport[0] == "transport"@ && transport[1] == "connection refused"@ && transport[2]
        == "sips required"@ && transport[3] == "401"@ && transport[4] == "403"@ && transport[5]
        == "407"@ && transport[6] == "502"@ && transport[7] == "503"@ && transport[8] == "504"@);
    assert(silent[0] == "408"@ && silent[1] == "480"@ && silent[2] == "timeout"@ && silent[3]
        == "no answer"@);
}

/// A reason is told by the words in it. Where it says several things, busy comes
/// first, then declined, then not reached, then not answered.
pub proof fn law_reason_is_told_by_its_words(reason: &str, r: OutboundCallFailureReason)
    requires
        call_ensures(classify_failure_reason, (reason,), r),
    ensures
        r is Busy <==> tells_busy(reason@),
        r is Declined <==> !tells_busy(reason@) && tells_declined(reason@),
        r is Transport <==> !tells_busy(reason@) && !tells_declined(reason@) && tells_unreached(
            reason@,
        ),
        r is NoAnswer <==> !tells_busy(reason@) && !tells_declined(reason@) && !tells_unreached(
            reason@,
        ) && tells_unanswered(reason@),
        r is Internal <==> !tells_busy(reason@) && !tells_declined(reason@) && !tells_unreached(
            reason@,
        ) && !tells_unanswered(reason@),
{
    lemma_mentions(reason@);
}

/// Of several legs the most telling one tells why the call failed: a busy phone
/// before a declined call, then a phone that nobody answered, then one that was not
/// reached. Nothing is told that no leg tells.
pub proof fn law_most_telling_leg_counts(
    legs: &Vec<OutboundCallLegFailure>,
    r: OutboundCallFailureReason,
    k: int,
    leg: &str,
    one: OutboundCallFailureReason,
)
    requires
        call_ensures(classify_failure_reasons, (legs,), r),
        0 <= k < legs@.len(),
        leg@ == legs@[k].detail@,
        call_ensures(classify_failure_reason, (leg,), one),
    ensures
        one is Busy ==> r is Busy,
        one is Declined ==> r is Busy || r is Declined,
        one is NoAnswer ==> r is Busy || r is Declined || r is NoAnswer,
        one is Transport ==> !(r is Internal),
        legs@.len() == 1 ==> r == one,
        !(r is Internal) ==> exists|j: int|
            0 <= j < legs@.len() && crate::call::failures::classified(
                (#[trigger] legs@[j]).detail@,
            ) == r,
{
    let views = crate::routing::leg_views(legs@);
    assert(views[k] == legs@[k]@);
    assert(crate::call::failures::classified(views[k].detail) == one);
    if !(r is Internal) {
        assert(crate::call::failures::some_leg(views, r));
        let j = choose|j: int|
            0 <= j < views.len() && crate::call::failures::classified((#[trigger] views[j]).detail)
                == r;
        assert(views[j] == legs@[j]@);
    }
}

} // verus!
