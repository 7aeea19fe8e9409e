//! The course of a fax reception.
//!
//! A fax call is worked on by one task, on audio at first, on T.38 packets once
//! the remote side has switched. A task goes through stages; a step takes what
//! has happened and gives the next stage and what is to be done.

use crate::text;
use crate::text::{decimal_of, from_chars, push_chars, push_str, to_chars};
use vstd::prelude::*;

verus! {

/// How long an audio task waits before it tries again to create its port.
pub const PORT_RETRY_MS: u64 = 2_000;

/// The pace of a fax task.
pub const TICK_MS: u64 = 20;

/// A failure that is posted.
#[derive(Debug, Clone, Copy, PartialEq, Eq, Structural)]
pub enum FaxFailure {
    NoAudioPath,
    ProcessingFailed,
    TimedOut,
    HungUp,
}

impl FaxFailure {
    /// The text that is posted.
    pub fn message(&self) -> (words: &'static str)
        ensures
            words@ == (match *self {
                FaxFailure::NoAudioPath => "Failed to establish audio path for fax reception"@,
                FaxFailure::ProcessingFailed => "Failed to process received fax"@,
                FaxFailure::TimedOut => "Fax reception timed out"@,
                FaxFailure::HungUp => "Caller hung up before fax completed"@,
            }),
    {
        match self {
            FaxFailure::NoAudioPath => "Failed to establish audio path for fax reception",
            FaxFailure::ProcessingFailed => "Failed to process received fax",
            FaxFailure::TimedOut => "Fax reception timed out",
            FaxFailure::HungUp => "Caller hung up before fax completed",
        }
    }
}

/// Something to be done for a fax.
#[derive(Debug, Clone, Copy, PartialEq, Eq, Structural)]
pub enum FaxAction {
    /// Remove the audio port.
    RemovePort,
    /// Create the audio port.
    CreatePort,
    /// Feed the sound of the caller to the decoder, and its sound to the caller.
    WorkTick,
    /// Feed the next packet of the batch to the decoder.
    FeedNext,
    /// Mark the fax as received, though it was not ended in the usual way.
    MarkReceived,
    /// Convert the pages and post them.
    ConvertAndPost,
    /// Post a failure.
    PostFailure { failure: FaxFailure },
    /// Make the bound socket ready for use.
    AdoptSocket,
    /// Read the address of the remote side and send to it.
    ConnectRemote,
    /// Create the T.38 decoder.
    CreateDecoder,
    /// Switch the session to the T.38 decoder.
    SwitchSession,
    /// Start the T.38 task.
    StartT38,
    Hangup,
}

/// The actions that follow an attempt to convert and post.
pub open spec fn after_posting(posted: bool, ends_call: bool) -> Seq<FaxAction> {
    (if posted {
        seq![]
    } else {
        seq![FaxAction::PostFailure { failure: FaxFailure::ProcessingFailed }]
    }) + (if ends_call {
        seq![FaxAction::Hangup]
    } else {
        seq![]
    })
}

/// The actions that follow an attempt to convert and post.
fn after_posting_actions(posted: bool, ends_call: bool) -> (actions: Vec<FaxAction>)
    ensures
        actions@ == after_posting(posted, ends_call),
{
    let mut actions: Vec<FaxAction> = Vec::new();
    if !posted {
        actions.push(FaxAction::PostFailure { failure: FaxFailure::ProcessingFailed });
    }
    if ends_call {
        actions.push(FaxAction::Hangup);
    }
    assert(actions@ =~= after_posting(posted, ends_call));
    actions
}

/// A failure that ends the call.
pub open spec fn fail_and_hang_up(failure: FaxFailure) -> Seq<FaxAction> {
    seq![FaxAction::PostFailure { failure }, FaxAction::Hangup]
}

fn fail_and_hang_up_actions(failure: FaxFailure) -> (actions: Vec<FaxAction>)
    ensures
        actions@ == fail_and_hang_up(failure),
{
    vec![FaxAction::PostFailure { failure }, FaxAction::Hangup]
}

/// A stage of an audio task.
#[derive(Debug, Clone, Copy, PartialEq, Eq, Structural)]
pub enum AudioStage {
    Starting,
    /// There was no port; it is tried again after a while.
    WaitingForPort,
    CreatingPort,
    Running,
    /// The fax is being converted and posted.
    Posting,
    Done,
}

/// What an audio task has seen.
#[derive(Debug, Clone, Copy, PartialEq, Eq, Structural)]
pub enum AudioEvent {
    Started { uses_t38: bool, has_port: bool },
    Waited { cancelled: bool, uses_t38: bool },
    PortCreated { created: bool, uses_t38: bool },
    /// It is time for the next frame.
    Tick { cancelled: bool, uses_t38: bool },
    /// The frame was worked on.
    TickDone { finished: bool, fax_received: bool, timed_out: bool },
    Posted { posted: bool },
}

/// One step of an audio task. A session that switched to T.38 belongs to the
/// T.38 task: the audio task ends then, without a failure.
pub open spec fn audio_next(stage: AudioStage, event: AudioEvent) -> (AudioStage, Seq<FaxAction>) {
    match (stage, event) {
        (AudioStage::Starting, AudioEvent::Started { uses_t38, has_port }) => if uses_t38 {
            (
                AudioStage::Done,
                if has_port {
                    seq![FaxAction::RemovePort]
                } else {
                    seq![]
                },
            )
        } else if has_port {
            (AudioStage::Running, seq![])
        } else {
            (AudioStage::WaitingForPort, seq![])
        },
        (AudioStage::WaitingForPort, AudioEvent::Waited { cancelled, uses_t38 }) => if cancelled
            || uses_t38 {
            (AudioStage::Done, seq![])
        } else {
            (AudioStage::CreatingPort, seq![FaxAction::CreatePort])
        },
        (AudioStage::CreatingPort, AudioEvent::PortCreated { created, uses_t38 }) => if uses_t38 {
            (
                AudioStage::Done,
                if created {
                    seq![FaxAction::RemovePort]
                } else {
                    seq![]
                },
            )
        } else if created {
            (AudioStage::Running, seq![])
        } else {
            (AudioStage::Done, fail_and_hang_up(FaxFailure::NoAudioPath))
        },
        (AudioStage::Running, AudioEvent::Tick { cancelled, uses_t38 }) => if cancelled
            || uses_t38 {
            (AudioStage::Done, seq![])
        } else {
            (AudioStage::Running, seq![FaxAction::WorkTick])
        },
        (
            AudioStage::Running,
            AudioEvent::TickDone { finished, fax_received, timed_out },
        ) => if finished && fax_received {
            (AudioStage::Posting, seq![FaxAction::ConvertAndPost])
        } else if finished {
            (AudioStage::Done, seq![FaxAction::Hangup])
        } else if timed_out {
            (AudioStage::Done, fail_and_hang_up(FaxFailure::TimedOut))
        } else {
            (AudioStage::Running, seq![])
        },
        (AudioStage::Posting, AudioEvent::Posted { posted }) => (
            AudioStage::Done,
            after_posting(posted, true),
        ),
        _ => (stage, seq![]),
    }
}

/// One step of an audio task.
pub fn process_fax_audio(stage: AudioStage, event: AudioEvent) -> (r: (AudioStage, Vec<FaxAction>))
    ensures
        (r.0, r.1@) == audio_next(stage, event),
{
    let nothing: Vec<FaxAction> = Vec::new();
    let r: (AudioStage, Vec<FaxAction>) = match (stage, event) {
        (AudioStage::Starting, AudioEvent::Started { uses_t38, has_port }) => if uses_t38 {
            if has_port {
                (AudioStage::Done, vec![FaxAction::RemovePort])
            } else {
                (AudioStage::Done, nothing)
            }
        } else if has_port {
            (AudioStage::Running, nothing)
        } else {
            (AudioStage::WaitingForPort, nothing)
        },
        (AudioStage::WaitingForPort, AudioEvent::Waited { cancelled, uses_t38 }) => if cancelled
            || uses_t38 {
            (AudioStage::Done, nothing)
        } else {
            (AudioStage::CreatingPort, vec![FaxAction::CreatePort])
        },
        (AudioStage::CreatingPort, AudioEvent::PortCreated { created, uses_t38 }) => if uses_t38 {
            if created {
                (AudioStage::Done, vec![FaxAction::RemovePort])
            } else {
                (AudioStage::Done, nothing)
            }
        } else if created {
            (AudioStage::Running, nothing)
        } else {
            (AudioStage::Done, fail_and_hang_up_actions(FaxFailure::NoAudioPath))
        },
        (AudioStage::Running, AudioEvent::Tick { cancelled, uses_t38 }) => if cancelled
            || uses_t38 {
            (AudioStage::Done, nothing)
        } else {
            (AudioStage::Running, vec![FaxAction::WorkTick])
        },
        (
            AudioStage::Running,
            AudioEvent::TickDone { finished, fax_received, timed_out },
        ) => if finished && fax_received {
            (AudioStage::Posting, vec![FaxAction::ConvertAndPost])
        } else if finished {
            (AudioStage::Done, vec![FaxAction::Hangup])
        } else if timed_out {
            (AudioStage::Done, fail_and_hang_up_actions(FaxFailure::TimedOut))
        } else {
            (AudioStage::Running, nothing)
        },
        (AudioStage::Posting, AudioEvent::Posted { posted }) => (
            AudioStage::Done,
            after_posting_actions(posted, true),
        ),
        _ => (stage, nothing),
    };
    assert(r.1@ =~= audio_next(stage, event).1);
    r
}

/// A stage of a T.38 task.
#[derive(Debug, Clone, Copy, PartialEq, Eq, Structural)]
pub enum T38Stage {
    Running,
    /// A batch is being fed; `left` packets come after the one in work.
    Feeding { left: usize },
    /// The fax is being converted and posted.
    Posting,
    Done,
}

/// What a T.38 task has seen.
#[derive(Debug, Clone, Copy, PartialEq, Eq, Structural)]
pub enum T38Event {
    Cancelled,
    /// A packet came, and the sequencer made a batch of it.
    Batch { packets: usize, stale: bool },
    /// A packet could not be received.
    RxError,
    /// A packet was fed; `completed` if it completed the fax.
    Fed { completed: bool, finished: bool },
    /// The timer of the decoder was driven.
    TimerDriven { completed: bool, finished: bool, timed_out: bool },
    Posted { posted: bool },
}

/// One step of a T.38 task. A stale packet and a packet that could not be
/// received are passed over; feeding stops at the packet that completes the fax.
pub open spec fn t38_next(stage: T38Stage, event: T38Event) -> (T38Stage, Seq<FaxAction>) {
    match (stage, event) {
        (T38Stage::Running, T38Event::Cancelled) => (T38Stage::Done, seq![]),
        (T38Stage::Running, T38Event::Batch { packets, stale }) => if stale || packets == 0 {
            (T38Stage::Running, seq![])
        } else {
            (T38Stage::Feeding { left: (packets - 1) as usize }, seq![FaxAction::FeedNext])
        },
        (T38Stage::Feeding { left }, T38Event::Fed { completed, finished }) => if completed {
            (T38Stage::Posting, seq![FaxAction::ConvertAndPost])
        } else if left > 0 {
            (T38Stage::Feeding { left: (left - 1) as usize }, seq![FaxAction::FeedNext])
        } else if finished {
            (T38Stage::Done, seq![FaxAction::Hangup])
        } else {
            (T38Stage::Running, seq![])
        },
        (
            T38Stage::Running,
            T38Event::TimerDriven { completed, finished, timed_out },
        ) => if completed {
            (T38Stage::Posting, seq![FaxAction::ConvertAndPost])
        } else if finished {
            (T38Stage::Done, seq![FaxAction::Hangup])
        } else if timed_out {
            (T38Stage::Done, fail_and_hang_up(FaxFailure::TimedOut))
        } else {
            (T38Stage::Running, seq![])
        },
        (T38Stage::Posting, T38Event::Posted { posted }) => (
            T38Stage::Done,
            after_posting(posted, true),
        ),
        _ => (stage, seq![]),
    }
}

/// One step of a T.38 task.
pub fn process_fax_t38(stage: T38Stage, event: T38Event) -> (r: (T38Stage, Vec<FaxAction>))
    ensures
        (r.0, r.1@) == t38_next(stage, event),
{
    let nothing: Vec<FaxAction> = Vec::new();
    let r: (T38Stage, Vec<FaxAction>) = match (stage, event) {
        (T38Stage::Running, T38Event::Cancelled) => (T38Stage::Done, nothing),
        (T38Stage::Running, T38Event::Batch { packets, stale }) => if stale || packets == 0 {
            (T38Stage::Running, nothing)
        } else {
            (T38Stage::Feeding { left: packets - 1 }, vec![FaxAction::FeedNext])
        },
        (T38Stage::Feeding { left }, T38Event::Fed { completed, finished }) => if completed {
            (T38Stage::Posting, vec![FaxAction::ConvertAndPost])
        } else if left > 0 {
            (T38Stage::Feeding { left: left - 1 }, vec![FaxAction::FeedNext])
        } else if finished {
            (T38Stage::Done, vec![FaxAction::Hangup])
        } else {
            (T38Stage::Running, nothing)
        },
        (
            T38Stage::Running,
            T38Event::TimerDriven { completed, finished, timed_out },
        ) => if completed {
            (T38Stage::Posting, vec![FaxAction::ConvertAndPost])
        } else if finished {
            (T38Stage::Done, vec![FaxAction::Hangup])
        } else if timed_out {
            (T38Stage::Done, fail_and_hang_up_actions(FaxFailure::TimedOut))
        } else {
            (T38Stage::Running, nothing)
        },
        (T38Stage::Posting, T38Event::Posted { posted }) => (
            T38Stage::Done,
            after_posting_actions(posted, true),
        ),
        _ => (stage, nothing),
    };
    assert(r.1@ =~= t38_next(stage, event).1);
    r
}

/// A stage of the switch of a session to T.38.
#[derive(Debug, Clone, Copy, PartialEq, Eq, Structural)]
pub enum SwitchStage {
    /// The socket that was bound beforehand is being looked up.
    TakingSocket,
    AdoptingSocket,
    ConnectingRemote,
    CreatingDecoder,
    Done,
}

/// One step of the switch to T.38: each step that fails hangs up. The session
/// is switched before its audio port is removed.
pub open spec fn switch_next(stage: SwitchStage, succeeded: bool) -> (SwitchStage, Seq<FaxAction>) {
    if stage == SwitchStage::Done {
        (stage, seq![])
    } else if !succeeded {
        (SwitchStage::Done, seq![FaxAction::Hangup])
    } else {
        match stage {
            SwitchStage::TakingSocket => (
                SwitchStage::AdoptingSocket,
                seq![FaxAction::AdoptSocket],
            ),
            SwitchStage::AdoptingSocket => (
                SwitchStage::ConnectingRemote,
                seq![FaxAction::ConnectRemote],
            ),
            SwitchStage::ConnectingRemote => (
                SwitchStage::CreatingDecoder,
                seq![FaxAction::CreateDecoder],
            ),
            _ => (
                SwitchStage::Done,
                seq![FaxAction::SwitchSession, FaxAction::RemovePort, FaxAction::StartT38],
            ),
        }
    }
}

/// One step of the switch of a session to T.38.
pub fn handle_t38_switch(stage: SwitchStage, succeeded: bool) -> (r: (SwitchStage, Vec<FaxAction>))
    ensures
        (r.0, r.1@) == switch_next(stage, succeeded),
{
    let nothing: Vec<FaxAction> = Vec::new();
    let r: (SwitchStage, Vec<FaxAction>) = match (stage, succeeded) {
        (SwitchStage::Done, _) => (SwitchStage::Done, nothing),
        (_, false) => (SwitchStage::Done, vec![FaxAction::Hangup]),
        (SwitchStage::TakingSocket, true) => (
            SwitchStage::AdoptingSocket,
            vec![FaxAction::AdoptSocket],
        ),
        (SwitchStage::AdoptingSocket, true) => (
            SwitchStage::ConnectingRemote,
            vec![FaxAction::ConnectRemote],
        ),
        (SwitchStage::ConnectingRemote, true) => (
            SwitchStage::CreatingDecoder,
            vec![FaxAction::CreateDecoder],
        ),
        (SwitchStage::CreatingDecoder, true) => (
            SwitchStage::Done,
            vec![FaxAction::SwitchSession, FaxAction::RemovePort, FaxAction::StartT38],
        ),
    };
    assert(r.1@ =~= switch_next(stage, succeeded).1);
    r
}

/// The address of the remote side in words.
pub fn remote_address(remote_ip: &str, remote_port: u16) -> (out: String)
    ensures
        out@ == remote_ip@ + ":"@ + text::decimal(remote_port as nat),
{
    let mut out = to_chars(remote_ip);
    push_str(&mut out, ":");
    push_chars(&mut out, &decimal_of(remote_port as u64));
    from_chars(&out)
}

/// What is done with a fax session whose call has ended. The remote side may
/// hang up after the last page without the usual end; so one page is enough.
pub open spec fn session_ending(finished: bool, pages_received: u32) -> Seq<FaxAction> {
    if finished {
        seq![]
    } else if pages_received > 0 {
        seq![FaxAction::MarkReceived, FaxAction::ConvertAndPost]
    } else {
        seq![FaxAction::PostFailure { failure: FaxFailure::HungUp }]
    }
}

/// What is done with a fax session whose call has ended.
pub fn finish_session(finished: bool, pages_received: u32) -> (actions: Vec<FaxAction>)
    ensures
        actions@ == session_ending(finished, pages_received),
{
    let actions: Vec<FaxAction> = if finished {
        Vec::new()
    } else if pages_received > 0 {
        vec![FaxAction::MarkReceived, FaxAction::ConvertAndPost]
    } else {
        vec![FaxAction::PostFailure { failure: FaxFailure::HungUp }]
    };
    assert(actions@ =~= session_ending(finished, pages_received));
    actions
}

/// What follows when the pages of such a session were posted, or could not be.
pub fn session_posted(posted: bool) -> (actions: Vec<FaxAction>)
    ensures
        actions@ == after_posting(posted, false),
{
    after_posting_actions(posted, false)
}

// Laws

/// Once a session uses T.38, the audio task ends: it reports no failure, hangs
/// nothing up, and creates no port.
pub proof fn law_t38_ends_the_audio_task(stage: AudioStage, event: AudioEvent)
    requires
        match (stage, event) {
            (AudioStage::Starting, AudioEvent::Started { uses_t38, .. }) => uses_t38,
            (AudioStage::WaitingForPort, AudioEvent::Waited { uses_t38, .. }) => uses_t38,
            (AudioStage::CreatingPort, AudioEvent::PortCreated { uses_t38, .. }) => uses_t38,
            (AudioStage::Running, AudioEvent::Tick { uses_t38, .. }) => uses_t38,
            _ => false,
        },
    ensures
        audio_next(stage, event).0 == AudioStage::Done,
        forall|k: int|
            0 <= k < audio_next(stage, event).1.len() ==> #[trigger] audio_next(stage, event).1[k]
                == FaxAction::RemovePort,
{
}

/// A fax call is hung up as the last thing that its task does, and a task that
/// is done does nothing more.
pub proof fn law_hangup_ends_the_task(
    audio: AudioStage,
    audio_event: AudioEvent,
    t38: T38Stage,
    t38_event: T38Event,
    switch: SwitchStage,
    succeeded: bool,
    k: int,
)
    ensures
        ({
            let (next, actions) = audio_next(audio, audio_event);
            &&& 0 <= k < actions.len() && actions[k] == FaxAction::Hangup ==> next
                == AudioStage::Done && k == actions.len() - 1
            &&& audio == AudioStage::Done ==> next == AudioStage::Done && actions.len() == 0
        }),
        ({
            let (next, actions) = t38_next(t38, t38_event);
            &&& 0 <= k < actions.len() && actions[k] == FaxAction::Hangup ==> next
                == T38Stage::Done && k == actions.len() - 1
            &&& t38 == T38Stage::Done ==> next == T38Stage::Done && actions.len() == 0
        }),
        ({
            let (next, actions) = switch_next(switch, succeeded);
            &&& 0 <= k < actions.len() && actions[k] == FaxAction::Hangup ==> next
                == SwitchStage::Done && k == actions.len() - 1
            &&& switch == SwitchStage::Done ==> next == SwitchStage::Done && actions.len() == 0
        }),
{
}

/// A received fax is not lost: whenever a task sees that the fax is complete, it
/// is converted and posted.
pub proof fn law_complete_fax_is_posted(left: usize, finished: bool, timed_out: bool, pages: u32)
    ensures
        audio_next(
            AudioStage::Running,
            AudioEvent::TickDone { finished: true, fax_received: true, timed_out },
        ).1 == seq![FaxAction::ConvertAndPost],
        t38_next(T38Stage::Feeding { left }, T38Event::Fed { completed: true, finished }).1
            == seq![FaxAction::ConvertAndPost],
        t38_next(
            T38Stage::Running,
            T38Event::TimerDriven { completed: true, finished, timed_out },
        ).1 == seq![FaxAction::ConvertAndPost],
        pages > 0 ==> session_ending(false, pages).last() == FaxAction::ConvertAndPost,
{
}

} // verus!
