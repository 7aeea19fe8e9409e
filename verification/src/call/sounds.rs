//! What callers hear while a call is set up, and when it fails.
//!
//! The samples come from outside; a sound that is not configured is absent.

use crate::call::action;
use crate::call::action::{answer_action, hangup_action, push_actions, Action};
use crate::call::calls;
use crate::call::calls::{call_is_current, SipCalls};
use crate::ids::CallId;
use crate::transport::sip::ffi::frame_utils::CONF_SAMPLE_RATE;
use crate::transport::sip::types;
use crate::transport::sip::types::SipCommand;
use vstd::prelude::*;

verus! {

broadcast use action::group_actions;

/// The contents of optional samples.
pub open spec fn opt_samples(samples: Option<Vec<i16>>) -> Option<Seq<i16>> {
    match samples {
        Some(s) => Some(s@),
        None => None,
    }
}

/// The connecting loop, if there is a sound for it.
pub open spec fn connecting_loop(call: CallId, samples: Option<Seq<i16>>) -> Seq<
    action::ActionView,
> {
    match samples {
        Some(samples) => seq![
            action::ActionView::Sip {
                command: types::SipCommandView::StartConnectingLoop { call_id: call, samples },
            },
        ],
        None => seq![],
    }
}

/// The sound of a connected call, if there is one.
pub open spec fn join_sound(call: CallId, samples: Option<Seq<i16>>) -> Seq<action::ActionView> {
    match samples {
        Some(samples) => seq![action::play(call, samples)],
        None => seq![],
    }
}

/// The connecting loop, if there is a sound for it.
pub fn connecting_loop_actions(call_id: CallId, samples: Option<Vec<i16>>) -> (actions: Vec<Action>)
    ensures
        action::action_views(actions@) == connecting_loop(call_id, opt_samples(samples)),
{
    let mut actions: Vec<Action> = Vec::new();
    if let Some(samples) = samples {
        actions.push(Action::Sip { command: SipCommand::StartConnectingLoop { call_id, samples } });
    }
    actions
}

/// The sound that tells a caller that Discord is connected, if there is one.
pub fn play_discord_join(call_id: CallId, samples: Option<Vec<i16>>) -> (actions: Vec<Action>)
    ensures
        action::action_views(actions@) == join_sound(call_id, opt_samples(samples)),
{
    let mut actions: Vec<Action> = Vec::new();
    if let Some(samples) = samples {
        actions.push(Action::Sip { command: SipCommand::PlayDirectToCall { call_id, samples } });
    }
    actions
}

/// What a connected caller gets: the call is answered, then the sound plays.
pub open spec fn connected_audio(call: CallId, join: Option<Seq<i16>>) -> Seq<action::ActionView> {
    seq![action::answer(call)] + join_sound(call, join)
}

/// Answers a connected call, and only then plays the sound that tells it.
pub fn queue_connected_call_audio(call_id: CallId, join_samples: Option<Vec<i16>>) -> (actions: Vec<
    Action,
>)
    ensures
        action::action_views(actions@) == connected_audio(call_id, opt_samples(join_samples)),
{
    let mut actions: Vec<Action> = Vec::new();
    actions.push(answer_action(call_id));
    push_actions(&mut actions, play_discord_join(call_id, join_samples));
    assert(action::action_views(actions@) =~= connected_audio(
        call_id,
        opt_samples(join_samples),
    ));
    actions
}

/// How long the caller of a call is given for the 183 response to arrive.
pub const EARLY_MEDIA_WAIT_MS: u64 = 100;

/// How long the caller of a call is given for the answer to arrive before an
/// error is told.
pub const ERROR_ANSWER_WAIT_MS: u64 = 200;

/// How much longer than its sound a playback lasts.
pub const PLAYBACK_MARGIN_MS: u64 = 200;

/// How long a playback of some samples is waited for.
pub open spec fn playback_ms(samples: nat) -> nat {
    samples * 1000 / 16000 + 200
}

/// How long a playback of some samples is waited for.
pub fn playback_wait(samples: usize) -> (ms: u64)
    requires
        samples * 1000 <= u64::MAX,
    ensures
        ms == playback_ms(samples as nat),
{
    samples as u64 * 1000 / CONF_SAMPLE_RATE as u64 + PLAYBACK_MARGIN_MS
}

/// A step of a playback: what is to be done, and how long to wait before the
/// next step. Without a wait the playback is over.
#[derive(Debug)]
pub struct PlaybackStep {
    pub actions: Vec<Action>,
    pub wait_ms: Option<u64>,
}

/// A step of a playback in the model.
pub ghost struct PlaybackView {
    pub actions: Seq<action::ActionView>,
    pub wait_ms: Option<u64>,
}

impl View for PlaybackStep {
    type V = PlaybackView;

    open spec fn view(&self) -> PlaybackView {
        PlaybackView { actions: action::action_views(self.actions@), wait_ms: self.wait_ms }
    }
}

/// Nothing more to be done.
pub open spec fn playback_over() -> PlaybackView {
    PlaybackView { actions: seq![], wait_ms: None }
}

/// The last step of a playback: the call is hung up, if it is still there.
pub open spec fn playback_end(calls: calls::CallsView, call: CallId, instance: u64) -> PlaybackView {
    if calls.is_current(call, instance) {
        PlaybackView { actions: seq![action::hangup(call)], wait_ms: None }
    } else {
        playback_over()
    }
}

/// The last step of a playback: the call is hung up, if it is still there.
pub fn end_playback(sip_calls: &SipCalls, call_id: CallId, instance_id: u64) -> (step: PlaybackStep)
    ensures
        step@ == playback_end(sip_calls@, call_id, instance_id),
{
    let mut actions: Vec<Action> = Vec::new();
    if call_is_current(sip_calls, call_id, instance_id) {
        actions.push(hangup_action(call_id));
    }
    PlaybackStep { actions, wait_ms: None }
}

/// What the lookup of the sound of an extension gave.
#[derive(Debug)]
pub struct ExtensionSound {
    /// It is the test tone.
    pub is_test_tone: bool,
    /// It is streamed from this file. The path is in the bytes of the operating
    /// system.
    pub streaming_path: Option<Vec<u8>>,
    /// It is in memory, with its length in milliseconds.
    pub preloaded: Option<(Vec<i16>, u64)>,
}

/// The first step of an extension's sound. The test tone plays until the caller
/// hangs up; a streamed sound hangs up at its end by itself.
pub open spec fn extension_start(
    calls: calls::CallsView,
    call: CallId,
    instance: u64,
    sound: ExtensionSound,
) -> PlaybackView {
    if !calls.is_current(call, instance) {
        playback_over()
    } else if sound.is_test_tone {
        PlaybackView {
            actions: seq![
                action::answer(call),
                action::ActionView::Sip {
                    command: types::SipCommandView::StartTestTone { call_id: call },
                },
            ],
            wait_ms: None,
        }
    } else if let Some(path) = sound.streaming_path {
        PlaybackView {
            actions: seq![
                action::answer(call),
                action::ActionView::Sip {
                    command: types::SipCommandView::StartStreaming { call_id: call, path: path@ },
                },
            ],
            wait_ms: None,
        }
    } else if let Some((samples, duration_ms)) = sound.preloaded {
        PlaybackView {
            actions: seq![action::answer(call), action::play(call, samples@)],
            wait_ms: Some((duration_ms + 200) as u64),
        }
    } else {
        PlaybackView { actions: seq![action::answer(call), action::hangup(call)], wait_ms: None }
    }
}

/// Answers a call and starts the sound of its extension. `end_playback` follows
/// the wait.
pub fn play_extension_sound_and_hangup(
    sip_calls: &SipCalls,
    call_id: CallId,
    instance_id: u64,
    sound: ExtensionSound,
) -> (step: PlaybackStep)
    requires
        sound.preloaded matches Some((_, duration_ms)) ==> duration_ms + 200 <= u64::MAX,
    ensures
        step@ == extension_start(sip_calls@, call_id, instance_id, sound),
{
    let mut actions: Vec<Action> = Vec::new();
    let mut wait_ms: Option<u64> = None;
    if call_is_current(sip_calls, call_id, instance_id) {
        actions.push(answer_action(call_id));
        if sound.is_test_tone {
            actions.push(Action::Sip { command: SipCommand::StartTestTone { call_id } });
        } else if let Some(path) = sound.streaming_path {
            actions.push(Action::Sip { command: SipCommand::StartStreaming { call_id, path } });
        } else if let Some((samples, duration_ms)) = sound.preloaded {
            actions.push(Action::Sip { command: SipCommand::PlayDirectToCall { call_id, samples } });
            wait_ms = Some(duration_ms + PLAYBACK_MARGIN_MS);
        } else {
            actions.push(hangup_action(call_id));
        }
    }
    let step = PlaybackStep { actions, wait_ms };
    assert(step@.actions =~= extension_start(sip_calls@, call_id, instance_id, sound).actions);
    step
}

// Laws

/// A connected call is answered exactly once, before anything is played to it,
/// with or without a sound.
pub proof fn law_connected_call_is_answered_first(call: CallId, join: Option<Seq<i16>>)
    ensures
        connected_audio(call, join).len() >= 1,
        connected_audio(call, join)[0] == action::answer(call),
        forall|k: int|
            0 < k < connected_audio(call, join).len() ==> #[trigger] connected_audio(call, join)[k]
                != action::answer(call),
{
}

/// A playback for a call that has ended asks for nothing.
pub proof fn law_ended_call_hears_nothing(
    calls: calls::CallsView,
    call: CallId,
    instance: u64,
    sound: ExtensionSound,
)
    requires
        !calls.is_current(call, instance),
    ensures
        extension_start(calls, call, instance, sound) == playback_over(),
        playback_end(calls, call, instance) == playback_over(),
{
}

} // verus!
