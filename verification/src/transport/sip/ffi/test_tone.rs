//! Test tone player, for checking the audio path.

use crate::ids::CallId;
use crate::transport::sip::ffi::frame_utils;
use crate::transport::sip::ffi::frame_utils::{fill_silence_frame, SAMPLES_PER_FRAME};
use crate::transport::sip::ffi::streaming_player::WatchStep;
use vstd::prelude::*;

verus! {

/// A test tone that plays to a call.
#[derive(Debug, Clone, Copy, PartialEq, Eq, Structural)]
pub struct TestToneState {
    pub call_id: CallId,
    /// The position in the tone, in samples.
    pub phase: u64,
    /// Whether the call has ended.
    pub finished: bool,
}

/// One frame of a periodic tone, from a position on.
pub open spec fn tone_window(period: Seq<i16>, phase: int) -> Seq<i16> {
    Seq::new(SAMPLES_PER_FRAME as nat, |k: int| period[(phase + k) % period.len() as int])
}

fn window_of(period: &Vec<i16>, phase: u64) -> (frame: Vec<i16>)
    requires
        period@.len() > 0,
        phase + SAMPLES_PER_FRAME <= u64::MAX,
    ensures
        frame@ == tone_window(period@, phase as int),
{
    let len: u64 = period.len() as u64;
    let mut frame: Vec<i16> = Vec::new();
    for k in 0..SAMPLES_PER_FRAME
        invariant
            period@.len() > 0,
            len == period@.len() <= usize::MAX,
            phase + SAMPLES_PER_FRAME <= u64::MAX,
            frame@ == tone_window(period@, phase as int).take(k as int),
    {
        assert((phase + k) % (len as int) < len && 0 <= (phase + k) % (len as int))
            by (nonlinear_arith)
            requires
                len > 0,
        ;
        let i: usize = ((phase + k as u64) % len) as usize;
        frame.push(period[i]);
        assert(tone_window(period@, phase as int).take(k + 1) =~= tone_window(
            period@,
            phase as int,
        ).take(k as int).push(period@[(phase + k) % period@.len() as int]));
    }
    assert(tone_window(period@, phase as int).take(SAMPLES_PER_FRAME as int) =~= tone_window(
        period@,
        phase as int,
    ));
    frame
}

/// A test tone that starts for a call.
pub fn start_test_tone(call_id: CallId) -> (state: TestToneState)
    ensures
        state == (TestToneState { call_id, phase: 0, finished: false }),
{
    TestToneState { call_id, phase: 0, finished: false }
}

/// The next frame of a test tone. `period` is one period of it, `call_exists`
/// says whether the call is still there. The tone ends with the call; then, and
/// for a port without a tone, there is silence.
pub fn test_tone_get_frame(
    state: &mut Option<TestToneState>,
    call_exists: bool,
    period: &Vec<i16>,
) -> (frame: Vec<i16>)
    requires
        period@.len() > 0,
        *old(state) matches Some(s) ==> s.phase + SAMPLES_PER_FRAME <= u64::MAX,
    ensures
        match *old(state) {
            Some(s) => if !s.finished && call_exists {
                frame@ == tone_window(period@, s.phase as int) && *final(state) == Some(
                    TestToneState { phase: (s.phase + SAMPLES_PER_FRAME) as u64, ..s },
                )
            } else {
                frame@ == frame_utils::silence(SAMPLES_PER_FRAME as int) && *final(state) == Some(
                    TestToneState { finished: true, ..s },
                )
            },
            None => frame@ == frame_utils::silence(SAMPLES_PER_FRAME as int) && *final(state)
                is None,
        },
{
    match *state {
        Some(s) => {
            if !s.finished && call_exists {
                let frame = window_of(period, s.phase);
                *state = Some(TestToneState { phase: s.phase + SAMPLES_PER_FRAME as u64, ..s });
                frame
            } else {
                *state = Some(TestToneState { finished: true, ..s });
                fill_silence_frame()
            }
        },
        None => fill_silence_frame(),
    }
}

/// What the task that watches a test tone does next. The call is not hung up at
/// the end: it has ended before.
pub fn watch_test_tone(state: Option<TestToneState>) -> (step: WatchStep)
    ensures
        step == (match state {
            None => WatchStep::Gone,
            Some(s) => if s.finished {
                WatchStep::Finish { hangup: None }
            } else {
                WatchStep::Wait
            },
        }),
{
    match state {
        None => WatchStep::Gone,
        Some(s) => {
            if s.finished {
                WatchStep::Finish { hangup: None }
            } else {
                WatchStep::Wait
            }
        },
    }
}

// Laws

/// The tone has no click between frames: a sample depends on its place in the
/// tone alone, not on the frame that it falls in.
pub proof fn law_tone_is_continuous(period: Seq<i16>, one: int, i: int, other: int, j: int)
    requires
        0 <= i < SAMPLES_PER_FRAME,
        0 <= j < SAMPLES_PER_FRAME,
        one + i == other + j,
    ensures
        tone_window(period, one)[i] == tone_window(period, other)[j],
{
}

} // verus!
