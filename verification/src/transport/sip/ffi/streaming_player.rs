//! Streaming player for large sound files.
//!
//! The conference bridge pulls frames while the sound is read from its file.
//! The reading is done outside; here stands what is played and when it ends.

use crate::ids::CallId;
use crate::transport::sip::ffi::frame_utils;
use crate::transport::sip::ffi::frame_utils::{
    fill_audio_frame, fill_silence_frame, SAMPLES_PER_FRAME,
};
use vstd::prelude::*;

verus! {

/// A sound that is streamed to a call.
#[derive(Debug, Clone, Copy, PartialEq, Eq, Structural)]
pub struct StreamingPlayerState {
    pub call_id: CallId,
    /// Whether the sound or the call has ended.
    pub finished: bool,
    /// Whether to hang up at the end.
    pub hangup_on_complete: bool,
}

/// What a port asks the reader of its file.
#[derive(Debug, Clone, Copy, PartialEq, Eq, Structural)]
pub enum StreamRequest {
    /// Nothing: the frame is silent.
    Silence,
    /// The next samples.
    NextSamples,
}

impl StreamingPlayerState {
    /// A sound that starts for a call.
    pub fn new(call_id: CallId, hangup_on_complete: bool) -> (state: StreamingPlayerState)
        ensures
            state == (StreamingPlayerState { call_id, finished: false, hangup_on_complete }),
    {
        StreamingPlayerState { call_id, finished: false, hangup_on_complete }
    }
}

/// The first half of giving a frame: whether samples are wanted. A stream ends
/// with its call.
pub fn streaming_get_frame(state: &mut Option<StreamingPlayerState>, call_exists: bool) -> (request:
    StreamRequest)
    ensures
        request == (if *old(state) matches Some(s) && !s.finished && call_exists {
            StreamRequest::NextSamples
        } else {
            StreamRequest::Silence
        }),
        *final(state) == (match *old(state) {
            Some(s) => Some(StreamingPlayerState { finished: s.finished || !call_exists, ..s }),
            None => None,
        }),
{
    match *state {
        Some(s) => {
            if s.finished {
                StreamRequest::Silence
            } else if !call_exists {
                *state = Some(StreamingPlayerState { finished: true, ..s });
                StreamRequest::Silence
            } else {
                StreamRequest::NextSamples
            }
        },
        None => StreamRequest::Silence,
    }
}

/// The second half of giving a frame: what the reader handed over. The stream
/// ends where there is nothing more; the last samples are still played.
pub fn streaming_deliver(
    state: &mut StreamingPlayerState,
    samples: Option<Vec<i16>>,
    reader_finished: bool,
) -> (frame: Vec<i16>)
    requires
        samples matches Some(s) ==> s@.len() <= SAMPLES_PER_FRAME,
    ensures
        frame@ == (match samples {
            Some(s) => frame_utils::padded(s@),
            None => frame_utils::silence(SAMPLES_PER_FRAME as int),
        }),
        *final(state) == (StreamingPlayerState {
            finished: old(state).finished || samples is None || reader_finished,
            ..*old(state)
        }),
{
    match samples {
        Some(s) => {
            if reader_finished {
                state.finished = true;
            }
            fill_audio_frame(&s)
        },
        None => {
            state.finished = true;
            fill_silence_frame()
        },
    }
}

/// What the task that watches a player does next.
#[derive(Debug, Clone, Copy, PartialEq, Eq, Structural)]
pub enum WatchStep {
    /// The player is gone: nothing is left to do.
    Gone,
    /// Look again later.
    Wait,
    /// Take the port out of the conference, then hang up where a call is given.
    Finish { hangup: Option<CallId> },
}

/// What the task that watches a stream does next.
pub fn watch_streaming(state: Option<StreamingPlayerState>) -> (step: WatchStep)
    ensures
        step == (match state {
            None => WatchStep::Gone,
            Some(s) => if !s.finished {
                WatchStep::Wait
            } else if s.hangup_on_complete {
                WatchStep::Finish { hangup: Some(s.call_id) }
            } else {
                WatchStep::Finish { hangup: None }
            },
        }),
{
    match state {
        None => WatchStep::Gone,
        Some(s) => {
            if !s.finished {
                WatchStep::Wait
            } else if s.hangup_on_complete {
                WatchStep::Finish { hangup: Some(s.call_id) }
            } else {
                WatchStep::Finish { hangup: None }
            }
        },
    }
}

} // verus!
