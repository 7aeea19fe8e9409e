//! What the call logic asks to be done outside of it.
//!
//! The functions of this module tree change the state of the calls and return
//! the actions that follow, in order.

use crate::ids::{CallId, Snowflake};
use crate::routing;
use crate::routing::{CallStartedInfo, OutboundCallDiagnostics, OutboundCallStatus};
use crate::text;
use crate::transport::sip::types;
use crate::transport::sip::types::{DigestAuthParams, SipCommand};
use vstd::prelude::*;

verus! {

/// Something to be done.
#[derive(Debug)]
pub enum Action {
    /// Queue a command for the SIP stack.
    Sip { command: SipCommand },
    /// Report the status of an outbound call to the backend.
    Report { tracking_id: String, status: OutboundCallStatus },
    /// The same, with diagnostics.
    Diagnose {
        tracking_id: String,
        status: OutboundCallStatus,
        diagnostics: OutboundCallDiagnostics,
    },
    /// Tell the backend that a call started.
    CallStarted { info: CallStartedInfo },
    /// Tell the backend that a call ended.
    CallEnded { sip_call_id: String },
    /// Tell the backend which channels are active.
    Heartbeat { channel_ids: Vec<String> },
    /// Connect the audio of a call with that of a channel.
    RegisterCallChannel { call_id: CallId, channel_id: Snowflake },
    /// Take the audio of a call out of its channel.
    UnregisterCallChannel { call_id: CallId },
    /// Stop the connecting loop of a call.
    StopLoop { call_id: CallId },
    /// Forget that a call is a leg of an outbound call.
    ForgetOutbound { call_id: CallId },
    /// Create the ring buffers of a channel.
    SetupRings { channel_id: Snowflake },
    /// Remove the ring buffers of a channel.
    TeardownRings { channel_id: Snowflake },
    /// Remove the conference port of a channel.
    CleanupPort { channel_id: Snowflake },
    /// Connect to a Discord voice channel.
    Connect { bridge_id: String, guild_id: Snowflake, channel_id: Snowflake },
    /// Leave a Discord voice channel.
    Disconnect { connection: u64 },
    /// Wake the calls that wait for the bridge of a channel.
    WakeWaiters { channel_id: Snowflake },
    /// Create a fax session.
    CreateFax {
        call_id: CallId,
        text_channel_id: Snowflake,
        guild_id: Snowflake,
        user_id: String,
        bot_token: String,
    },
    /// Post that a fax is being received.
    PostReceiving { session: u64 },
    /// Create the audio port of a fax call, unless its session uses T.38.
    CreateFaxPort { call_id: CallId, session: u64 },
    /// Remove the audio port of a fax call.
    RemoveFaxPort { call_id: CallId },
    /// Start the audio task of a fax call.
    StartFaxAudio { call_id: CallId, session: u64, has_port: bool },
    /// Cancel the tasks of a fax session.
    CancelFax { session: u64 },
    /// Bring a fax session to its end after its call ended.
    FinishFax { call_id: CallId, session: u64 },
    /// Switch a fax session to T.38.
    SwitchToT38 {
        call_id: CallId,
        session: u64,
        remote_ip: String,
        remote_port: u16,
        local_port: u16,
    },
    /// Start the task of an incoming call.
    StartIncoming {
        call_id: CallId,
        instance_id: u64,
        digest_auth: DigestAuthParams,
        extension: String,
    },
    /// Start the task that plays the sound of an extension.
    StartExtensionSound { call_id: CallId, instance_id: u64, sound_name: String },
    /// Start the task of an answered outbound call.
    StartAnswered { tracking_id: String, call_id: CallId },
}

/// An action in the model.
pub ghost enum ActionView {
    Sip { command: types::SipCommandView },
    Report { tracking_id: Seq<char>, status: OutboundCallStatus },
    Diagnose {
        tracking_id: Seq<char>,
        status: OutboundCallStatus,
        diagnostics: routing::DiagnosticsView,
    },
    CallStarted { info: routing::CallStartedView },
    CallEnded { sip_call_id: Seq<char> },
    Heartbeat { channel_ids: Seq<Seq<char>> },
    RegisterCallChannel { call_id: CallId, channel_id: Snowflake },
    UnregisterCallChannel { call_id: CallId },
    StopLoop { call_id: CallId },
    ForgetOutbound { call_id: CallId },
    SetupRings { channel_id: Snowflake },
    TeardownRings { channel_id: Snowflake },
    CleanupPort { channel_id: Snowflake },
    Connect { bridge_id: Seq<char>, guild_id: Snowflake, channel_id: Snowflake },
    Disconnect { connection: u64 },
    WakeWaiters { channel_id: Snowflake },
    CreateFax {
        call_id: CallId,
        text_channel_id: Snowflake,
        guild_id: Snowflake,
        user_id: Seq<char>,
        bot_token: Seq<char>,
    },
    PostReceiving { session: u64 },
    CreateFaxPort { call_id: CallId, session: u64 },
    RemoveFaxPort { call_id: CallId },
    StartFaxAudio { call_id: CallId, session: u64, has_port: bool },
    CancelFax { session: u64 },
    FinishFax { call_id: CallId, session: u64 },
    SwitchToT38 {
        call_id: CallId,
        session: u64,
        remote_ip: Seq<char>,
        remote_port: u16,
        local_port: u16,
    },
    StartIncoming {
        call_id: CallId,
        instance_id: u64,
        digest_auth: types::DigestView,
        extension: Seq<char>,
    },
    StartExtensionSound { call_id: CallId, instance_id: u64, sound_name: Seq<char> },
    StartAnswered { tracking_id: Seq<char>, call_id: CallId },
}

impl View for Action {
    type V = ActionView;

    open spec fn view(&self) -> ActionView {
        match *self {
            Action::Sip { command } => ActionView::Sip { command: command@ },
            Action::Report { tracking_id, status } => ActionView::Report {
                tracking_id: tracking_id@,
                status,
            },
            Action::Diagnose { tracking_id, status, diagnostics } => ActionView::Diagnose {
                tracking_id: tracking_id@,
                status,
                diagnostics: diagnostics@,
            },
            Action::CallStarted { info } => ActionView::CallStarted { info: info@ },
            Action::CallEnded { sip_call_id } => ActionView::CallEnded {
                sip_call_id: sip_call_id@,
            },
            Action::Heartbeat { channel_ids } => ActionView::Heartbeat {
                channel_ids: text::strings(channel_ids@),
            },
            Action::RegisterCallChannel { call_id, channel_id } => ActionView::RegisterCallChannel {
                call_id,
                channel_id,
            },
            Action::UnregisterCallChannel { call_id } => ActionView::UnregisterCallChannel {
                call_id,
            },
            Action::StopLoop { call_id } => ActionView::StopLoop { call_id },
            Action::ForgetOutbound { call_id } => ActionView::ForgetOutbound { call_id },
            Action::SetupRings { channel_id } => ActionView::SetupRings { channel_id },
            Action::TeardownRings { channel_id } => ActionView::TeardownRings { channel_id },
            Action::CleanupPort { channel_id } => ActionView::CleanupPort { channel_id },
            Action::Connect { bridge_id, guild_id, channel_id } => ActionView::Connect {
                bridge_id: bridge_id@,
                guild_id,
                channel_id,
            },
            Action::Disconnect { connection } => ActionView::Disconnect { connection },
            Action::WakeWaiters { channel_id } => ActionView::WakeWaiters { channel_id },
            Action::CreateFax {
                call_id,
                text_channel_id,
                guild_id,
                user_id,
                bot_token,
            } => ActionView::CreateFax {
                call_id,
                text_channel_id,
                guild_id,
                user_id: user_id@,
                bot_token: bot_token@,
            },
            Action::PostReceiving { session } => ActionView::PostReceiving { session },
            Action::CreateFaxPort { call_id, session } => ActionView::CreateFaxPort {
                call_id,
                session,
            },
            Action::RemoveFaxPort { call_id } => ActionView::RemoveFaxPort { call_id },
            Action::StartFaxAudio { call_id, session, has_port } => ActionView::StartFaxAudio {
                call_id,
                session,
                has_port,
            },
            Action::CancelFax { session } => ActionView::CancelFax { session },
            Action::FinishFax { call_id, session } => ActionView::FinishFax { call_id, session },
            Action::SwitchToT38 {
                call_id,
                session,
                remote_ip,
                remote_port,
                local_port,
            } => ActionView::SwitchToT38 {
                call_id,
                session,
                remote_ip: remote_ip@,
                remote_port,
                local_port,
            },
            Action::StartIncoming {
                call_id,
                instance_id,
                digest_auth,
                extension,
            } => ActionView::StartIncoming {
                call_id,
                instance_id,
                digest_auth: digest_auth@,
                extension: extension@,
            },
            Action::StartExtensionSound {
                call_id,
                instance_id,
                sound_name,
            } => ActionView::StartExtensionSound { call_id, instance_id, sound_name: sound_name@ },
            Action::StartAnswered { tracking_id, call_id } => ActionView::StartAnswered {
                tracking_id: tracking_id@,
                call_id,
            },
        }
    }
}

/// A list of actions in the model.
pub open spec fn action_views(list: Seq<Action>) -> Seq<ActionView> {
    list.map_values(|a: Action| a@)
}

/// The views of a list with one more action.
pub broadcast proof fn lemma_push_action(list: Seq<Action>, a: Action)
    ensures
        #[trigger] action_views(list.push(a)) == action_views(list).push(a@),
{
    assert(action_views(list.push(a)) =~= action_views(list).push(a@));
}

/// The views of an empty list.
pub broadcast proof fn lemma_no_action()
    ensures
        #[trigger] action_views(Seq::<Action>::empty()) == Seq::<ActionView>::empty(),
{
    assert(action_views(Seq::<Action>::empty()) =~= Seq::<ActionView>::empty());
}

pub broadcast group group_actions {
    lemma_push_action,
    lemma_no_action,
}

/// Hanging up a call, in the model.
pub open spec fn hangup(call_id: CallId) -> ActionView {
    ActionView::Sip { command: types::SipCommandView::Hangup { call_id } }
}

/// Answering a call, in the model.
pub open spec fn answer(call_id: CallId) -> ActionView {
    ActionView::Sip { command: types::SipCommandView::Answer { call_id } }
}

/// Playing samples to a call, in the model.
pub open spec fn play(call_id: CallId, samples: Seq<i16>) -> ActionView {
    ActionView::Sip { command: types::SipCommandView::PlayDirectToCall { call_id, samples } }
}

/// Whether an action is asked for exactly once, and none else of its kind.
pub open spec fn happens_once(
    actions: Seq<ActionView>,
    wanted: ActionView,
    kind: spec_fn(ActionView) -> bool,
) -> bool {
    exists|k: int|
        {
            &&& 0 <= k < actions.len()
            &&& #[trigger] actions[k] == wanted
            &&& forall|j: int| 0 <= j < actions.len() && kind(#[trigger] actions[j]) ==> j == k
        }
}

/// Whether no action is of a kind.
pub open spec fn never_happens(
    actions: Seq<ActionView>,
    kind: spec_fn(ActionView) -> bool,
) -> bool {
    forall|k: int| 0 <= k < actions.len() ==> !kind(#[trigger] actions[k])
}

/// Whether an action answers a call.
pub open spec fn answers(a: ActionView) -> bool {
    a matches ActionView::Sip { command } && command is Answer
}

/// Whether an action hangs up a call.
pub open spec fn hangs_up(a: ActionView) -> bool {
    a matches ActionView::Sip { command } && command is Hangup
}

/// Whether an action plays something to a call.
pub open spec fn plays(a: ActionView) -> bool {
    a matches ActionView::Sip { command } && command is PlayDirectToCall
}

/// The action that hangs up a call.
pub fn hangup_action(call_id: CallId) -> (a: Action)
    ensures
        a@ == hangup(call_id),
{
    Action::Sip { command: SipCommand::Hangup { call_id } }
}

/// The action that answers a call.
pub fn answer_action(call_id: CallId) -> (a: Action)
    ensures
        a@ == answer(call_id),
{
    Action::Sip { command: SipCommand::Answer { call_id } }
}

/// Appends actions to others.
pub fn push_actions(out: &mut Vec<Action>, more: Vec<Action>)
    ensures
        action_views(final(out)@) == action_views(old(out)@) + action_views(more@),
{
    let ghost before = out@;
    let ghost added = more@;
    let mut rest = more;
    out.append(&mut rest);
    assert(action_views(out@) =~= action_views(before) + action_views(added));
}

} // verus!
