//! What is heard from the players.
//!
//! The laws speak of what the operations are given and of what they give.

use crate::ids::{CallId, ConfPort};
use crate::text;
use crate::transport::sip::ffi::frame_utils::{
    fill_audio_frame, fill_silence_frame, samples_between,
};
use crate::transport::sip::ffi::looping_player::{
    LoopStart, LoopingPlayerState, LoopingPlayers,
};
use crate::transport::sip::ffi::streaming_player::{
    streaming_deliver, streaming_get_frame, watch_streaming, StreamRequest, StreamingPlayerState,
    WatchStep,
};
use crate::transport::sip::ffi::test_tone::{
    start_test_tone, test_tone_get_frame, watch_test_tone, TestToneState,
};
use crate::transport::sip::ffi::utils;
use crate::transport::sip::ffi::utils::extract_sip_username;
use vstd::prelude::*;

verus! {

/// Whether a frame is silent.
pub open spec fn is_silent(frame: Seq<i16>) -> bool {
    frame.len() == 320 && forall|k: int| 0 <= k < 320 ==> #[trigger] frame[k] == 0
}

/// A frame has 320 samples: those that are given, in order, and silence behind
/// them.
pub proof fn law_frame_is_filled(samples: &Vec<i16>, frame: Vec<i16>, quiet: Vec<i16>)
    requires
        samples@.len() <= 320,
        call_ensures(fill_audio_frame, (samples,), frame),
        call_ensures(fill_silence_frame, (), quiet),
    ensures
        frame@.len() == 320,
        forall|k: int| 0 <= k < samples@.len() ==> #[trigger] frame@[k] == samples@[k],
        forall|k: int| samples@.len() <= k < 320 ==> #[trigger] frame@[k] == 0,
        is_silent(quiet@),
{
}

/// A cut-out holds the samples between its ends.
pub proof fn law_cut_out(samples: &Vec<i16>, from: usize, to: usize, out: Vec<i16>)
    requires
        from <= to <= samples@.len(),
        call_ensures(samples_between, (samples, from, to), out),
    ensures
        out@.len() == to - from,
        forall|k: int| 0 <= k < out@.len() ==> #[trigger] out@[k] == samples@[from + k],
{
}

/// A loop begins with its first sample and is heard frame by frame. At its end the
/// frame is filled up with silence, and the loop begins again. Other loops go on as
/// they were.
pub proof fn law_loop_is_heard_from_its_start(
    players: &mut LoopingPlayers,
    call: CallId,
    state: LoopingPlayerState,
    samples: Vec<i16>,
    then: &mut LoopingPlayers,
    first: Vec<i16>,
    next: &mut LoopingPlayers,
    second: Vec<i16>,
    other: u64,
)
    requires
        samples@.len() > 0,
        call_ensures(LoopingPlayers::loop_started, (players, call, state, samples), ()),
        old(then)@ == final(players)@,
        call_ensures(LoopingPlayers::looping_player_get_frame, (then, state.port_key), first),
        old(next)@ == final(then)@,
        call_ensures(LoopingPlayers::looping_player_get_frame, (next, state.port_key), second),
    ensures
        final(players)@.players.contains_key(call.raw),
        final(players)@.players[call.raw] == state,
        first@.len() == 320,
        forall|k: int|
            0 <= k < 320 ==> #[trigger] first@[k] == (if k < samples@.len() {
                samples@[k]
            } else {
                0i16
            }),
        samples@.len() <= 320 ==> second@ == first@,
        samples@.len() > 320 ==> forall|k: int|
            0 <= k < 320 ==> #[trigger] second@[k] == (if 320 + k < samples@.len() {
                samples@[320 + k]
            } else {
                0i16
            }),
        other != state.port_key ==> (final(next)@.data.contains_key(other) <==> old(
            players,
        )@.data.contains_key(other)) && final(next)@.data[other] == old(players)@.data[other],
{
}

/// A loop that was stopped is silent, its slot is given back, and its call has no
/// player any more; a call that has none stops nothing.
pub proof fn law_stopped_loop_is_not_heard(
    players: &mut LoopingPlayers,
    call: CallId,
    slot: Option<ConfPort>,
    then: &mut LoopingPlayers,
    frame: Vec<i16>,
    other: i32,
)
    requires
        old(players)@.players.contains_key(call.raw),
        call_ensures(LoopingPlayers::stop_loop, (players, call), slot),
        old(then)@ == final(players)@,
        call_ensures(
            LoopingPlayers::looping_player_get_frame,
            (then, old(players)@.players[call.raw].port_key),
            frame,
        ),
    ensures
        slot == Some(old(players)@.players[call.raw].conf_slot),
        !final(players)@.players.contains_key(call.raw),
        is_silent(frame@),
        other != call.raw ==> (final(players)@.players.contains_key(other) <==> old(
            players,
        )@.players.contains_key(other)) && final(players)@.players[other]
            == old(players)@.players[other],
{
}

/// A call has one loop at a time, and needs a slot for it; a port that was destroyed
/// has nothing to play.
pub proof fn law_loop_needs_a_free_call(
    players: &LoopingPlayers,
    call: CallId,
    port: Option<ConfPort>,
    start: LoopStart,
    later: &mut LoopingPlayers,
    key: u64,
    other: u64,
)
    requires
        call_ensures(LoopingPlayers::start_loop, (players, call, port), start),
        call_ensures(LoopingPlayers::looping_player_on_destroy, (later, key), ()),
    ensures
        start is AlreadyPlaying <==> players@.players.contains_key(call.raw),
        start is NoConfPort <==> !players@.players.contains_key(call.raw) && port is None,
        start matches LoopStart::CreatePort { call_conf_port } ==> port == Some(call_conf_port),
        !final(later)@.data.contains_key(key),
        final(later)@.players == old(later)@.players,
        other != key ==> (final(later)@.data.contains_key(other) <==> old(
            later,
        )@.data.contains_key(other)) && final(later)@.data[other] == old(later)@.data[other],
{
}

/// A stream asks for samples as long as it and its call go on, and is silent then.
/// It is over with its call, with its last samples, or when there are none.
pub proof fn law_stream_ends_with_its_call_or_its_samples(
    state: &mut Option<StreamingPlayerState>,
    call_exists: bool,
    request: StreamRequest,
    playing: &mut StreamingPlayerState,
    samples: Option<Vec<i16>>,
    at_end: bool,
    frame: Vec<i16>,
)
    requires
        call_ensures(streaming_get_frame, (state, call_exists), request),
        samples matches Some(s) ==> s@.len() <= 320,
        call_ensures(streaming_deliver, (playing, samples, at_end), frame),
    ensures
        *old(state) is None ==> request is Silence && *final(state) is None,
        *old(state) matches Some(s) ==> {
            &&& request is NextSamples <==> !s.finished && call_exists
            &&& *final(state) is Some
            &&& (*final(state))->0.finished <==> s.finished || !call_exists
            &&& (*final(state))->0.call_id == s.call_id
            &&& (*final(state))->0.hangup_on_complete == s.hangup_on_complete
        },
        samples is None ==> is_silent(frame@),
        samples matches Some(s) ==> frame@.len() == 320 && forall|k: int|
            0 <= k < 320 ==> #[trigger] frame@[k] == (if k < s@.len() {
                s@[k]
            } else {
                0i16
            }),
        final(playing).finished <==> old(playing).finished || samples is None || at_end,
        final(playing).call_id == old(playing).call_id,
        final(playing).hangup_on_complete == old(playing).hangup_on_complete,
{
}

/// Who watches a stream waits for its end, and hangs up its call then where that was
/// asked for; a tone hangs up nobody.
pub proof fn law_watched_player_is_finished_once(
    call: CallId,
    hangup: bool,
    fresh: StreamingPlayerState,
    state: Option<StreamingPlayerState>,
    step: WatchStep,
    tone: Option<TestToneState>,
    tone_step: WatchStep,
)
    requires
        call_ensures(StreamingPlayerState::new, (call, hangup), fresh),
        call_ensures(watch_streaming, (state,), step),
        call_ensures(watch_test_tone, (tone,), tone_step),
    ensures
        fresh.call_id == call && !fresh.finished && fresh.hangup_on_complete == hangup,
        step is Gone <==> state is None,
        step is Wait <==> state is Some && !state->0.finished,
        step matches WatchStep::Finish { hangup: h } ==> (h is Some
            <==> state->0.hangup_on_complete) && (h is Some ==> h->0 == state->0.call_id),
        tone_step is Gone <==> tone is None,
        tone_step is Wait <==> tone is Some && !tone->0.finished,
        tone_step matches WatchStep::Finish { hangup: h } ==> h is None,
{
}

/// A tone is heard without a break: each frame goes on where the one before it
/// ended, over and over through its period, from the beginning. It ends with its
/// call.
pub proof fn law_tone_goes_on(
    call: CallId,
    fresh: TestToneState,
    state: &mut Option<TestToneState>,
    call_exists: bool,
    period: &Vec<i16>,
    frame: Vec<i16>,
    k: int,
)
    requires
        call_ensures(start_test_tone, (call,), fresh),
        period@.len() > 0,
        *old(state) matches Some(s) ==> s.phase + 320 <= u64::MAX,
        call_ensures(test_tone_get_frame, (state, call_exists, period), frame),
        0 <= k < 320,
    ensures
        fresh.call_id == call && fresh.phase == 0 && !fresh.finished,
        frame@.len() == 320,
        *old(state) is None ==> is_silent(frame@) && *final(state) is None,
        *old(state) matches Some(s) ==> {
            let after = (*final(state))->0;
            &&& *final(state) is Some
            &&& after.call_id == s.call_id
            &&& !s.finished && call_exists ==> frame@[k] == period@[(s.phase + k)
                % period@.len() as int] && after.phase == s.phase + 320 && !after.finished
            &&& s.finished || !call_exists ==> is_silent(frame@) && after.phase == s.phase
                && after.finished
        },
{
}

proof fn lemma_trim_leading(n: nat, rest: Seq<char>)
    requires
        rest.len() > 0 ==> rest[0] != '<',
    ensures
        utils::trim_leading(Seq::new(n, |i: int| '<') + rest, '<') == rest,
    decreases n,
{
    let all = Seq::new(n, |i: int| '<') + rest;
    if n > 0 {
        assert(all[0] == '<');
        assert(all.skip(1) =~= Seq::new((n - 1) as nat, |i: int| '<') + rest);
        lemma_trim_leading((n - 1) as nat, rest);
    } else {
        assert(all =~= rest);
    }
}

proof fn lemma_trim_trailing(n: nat, rest: Seq<char>)
    requires
        rest.len() > 0 ==> rest.last() != '>',
    ensures
        utils::trim_trailing(rest + Seq::new(n, |i: int| '>'), '>') == rest,
    decreases n,
{
    let all = rest + Seq::new(n, |i: int| '>');
    if n > 0 {
        assert(all.last() == '>');
        assert(all.drop_last() =~= rest + Seq::new((n - 1) as nat, |i: int| '>'));
        lemma_trim_trailing((n - 1) as nat, rest);
    } else {
        assert(all =~= rest);
    }
}

/// The user of a URI is what stands before its `@`, behind the scheme `sip:` and the
/// brackets around the URI, where there are any.
pub proof fn law_user_of_a_uri(
    uri: &str,
    user: String,
    open: nat,
    scheme: Seq<char>,
    name: Seq<char>,
    rest: Seq<char>,
    close: nat,
)
    requires
        call_ensures(extract_sip_username, (uri,), user),
        scheme == "sip:"@ || scheme.len() == 0,
        rest.len() == 0 || rest[0] == '@',
        forall|k: int| 0 <= k < name.len() ==> #[trigger] name[k] != '@',
        uri@ == Seq::new(open, |i: int| '<') + (scheme + name + rest) + Seq::new(
            close,
            |i: int| '>',
        ),
        (scheme + name + rest).len() > 0,
        (scheme + name + rest)[0] != '<',
        (scheme + name + rest).last() != '>',
        scheme.len() == 0 ==> !text::starts_with(name + rest, "sip:"@),
    ensures
        user@ == name,
{
    reveal_strlit("sip:");
    let bare = scheme + name + rest;
    let ending = Seq::new(close, |i: int| '>');
    let tail = bare + ending;
    assert(uri@ =~= Seq::new(open, |i: int| '<') + tail);
    assert(tail[0] == bare[0]);
    lemma_trim_leading(open, tail);
    lemma_trim_trailing(close, bare);
    let left = name + rest;
    if scheme.len() == 0 {
        assert(bare =~= left);
    } else {
        assert(bare.subrange(0, 4) =~= scheme);
        assert(bare.skip(4) =~= left);
    }
    text::lemma_next_char(left, '@', 0);
    let n = name.len() as int;
    assert forall|j: int| 0 <= j < n implies left[j] != '@' by {
        assert(left[j] == name[j]);
    }
    if rest.len() > 0 {
        assert(left[n] == '@');
    }
    assert(text::next_char(left, '@', 0) == n);
    assert(left.take(n) =~= name);
}

} // verus!
