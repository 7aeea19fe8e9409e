//! An incoming call, from its routing to its bridge or its fax session.
//!
//! The call goes through stages. Each stage waits for one event; `advance`
//! takes the event and says what is to be done and which stage comes next. At
//! each step the call may have ended, or its number may belong to another call.

use crate::call::action;
use crate::call::action::{answer_action, hangup_action, push_actions, Action};
use crate::call::bridges;
use crate::call::bridges::{
    wait_for_pending_bridge, BridgeWait, ChannelBridge, PendingBridgeLease,
};
use crate::call::calls;
use crate::call::calls::{call_is_current, remove_call_if_current, SipCallInfo};
use crate::call::coordinator;
use crate::call::coordinator::BridgeCoordinator;
use crate::call::fax_sessions::{
    fax_session_is_current, register_fax_session_if_current, remove_fax_session_if_current,
};
use crate::call::outbound;
use crate::call::sounds;
use crate::call::sounds::{
    connecting_loop_actions, playback_wait, queue_connected_call_audio, EARLY_MEDIA_WAIT_MS,
    ERROR_ANSWER_WAIT_MS,
};
use crate::ids::{CallId, Snowflake};
use crate::routing;
use crate::routing::{CallError, CallStartedInfo, RouteDecision};
use crate::text;
use crate::time::Instant;
use crate::transport::sip::types;
use crate::transport::sip::types::SipCommand;
use std::collections::HashSet;
use vstd::prelude::*;

verus! {

broadcast use {action::group_actions, vstd::std_specs::hash::group_hash_axioms};

/// How long a call waits for a pending bridge.
pub const BRIDGE_WAIT_MS: u64 = 15_000;

/// How long a fax call waits for its media after it was answered.
pub const FAX_MEDIA_WAIT_MS: u64 = 500;

/// The voice channel that a call is routed to.
#[derive(Debug)]
pub struct VoiceTarget {
    pub channel_id: Snowflake,
    pub guild_id: Snowflake,
    pub user_id: String,
    pub bot_token: String,
}

/// A voice channel in the model.
pub ghost struct TargetView {
    pub channel_id: Snowflake,
    pub guild_id: Snowflake,
    pub user_id: Seq<char>,
    pub bot_token: Seq<char>,
}

impl View for VoiceTarget {
    type V = TargetView;

    open spec fn view(&self) -> TargetView {
        TargetView {
            channel_id: self.channel_id,
            guild_id: self.guild_id,
            user_id: self.user_id@,
            bot_token: self.bot_token@,
        }
    }
}

/// A route decision in the model.
pub ghost enum RouteView {
    Connect { target: TargetView },
    ConnectFax {
        text_channel_id: Snowflake,
        guild_id: Snowflake,
        user_id: Seq<char>,
        bot_token: Seq<char>,
    },
    Redirect { domain: Seq<char>, extension: Seq<char> },
    RejectInvalidCredentials,
    RejectWithError { error: CallError },
}

/// A route decision, in the model.
pub open spec fn route_view(decision: RouteDecision) -> RouteView {
    match decision {
        RouteDecision::Connect { channel_id, guild_id, user_id, bot_token } => RouteView::Connect {
            target: TargetView { channel_id, guild_id, user_id: user_id@, bot_token: bot_token@ },
        },
        RouteDecision::ConnectFax {
            text_channel_id,
            guild_id,
            user_id,
            bot_token,
        } => RouteView::ConnectFax {
            text_channel_id,
            guild_id,
            user_id: user_id@,
            bot_token: bot_token@,
        },
        RouteDecision::Redirect { domain, extension } => RouteView::Redirect {
            domain: domain@,
            extension: extension@,
        },
        RouteDecision::RejectInvalidCredentials => RouteView::RejectInvalidCredentials,
        RouteDecision::RejectWithError { error } => RouteView::RejectWithError { error },
    }
}

/// A route decision in the model; none if the backend took too long.
pub open spec fn opt_route(decision: Option<RouteDecision>) -> Option<RouteView> {
    match decision {
        Some(d) => Some(route_view(d)),
        None => None,
    }
}

/// A stage of an incoming call.
#[derive(Debug)]
pub enum IncomingStage {
    /// The backend routes the call.
    Routing,
    /// 183 was sent. The decision is carried out afterwards.
    EarlyMedia { decision: Option<RouteDecision> },
    /// The call was answered to tell an error.
    ErrorAnswering { error: CallError, lease: Option<PendingBridgeLease> },
    /// The sound of the error plays.
    ErrorPlaying { wait_ms: u64, lease: Option<PendingBridgeLease> },
    /// Another call creates the bridge of the channel.
    WaitingForBridge { target: VoiceTarget },
    /// Discord is being connected.
    Connecting { target: VoiceTarget, own_lease: PendingBridgeLease },
    /// The fax session is being created.
    FaxCreating,
    /// The answer of the fax call is being queued.
    FaxAnswering { session: u64 },
    /// The message on the fax is being posted.
    FaxPosting { session: u64 },
    /// The media of the fax call is being set up.
    FaxSettling { session: u64 },
    /// The audio port of the fax call is being created.
    FaxPort { session: u64 },
    Done,
}

/// A stage in the model.
pub ghost enum StageView {
    Routing,
    EarlyMedia { decision: Option<RouteView> },
    ErrorAnswering { error: CallError, leased: Option<Snowflake> },
    ErrorPlaying { wait_ms: u64, leased: Option<Snowflake> },
    WaitingForBridge { target: TargetView },
    Connecting { target: TargetView, leased: Option<Snowflake> },
    FaxCreating,
    FaxAnswering { session: u64 },
    FaxPosting { session: u64 },
    FaxSettling { session: u64 },
    FaxPort { session: u64 },
    Done,
}

/// The channel of a lease.
pub open spec fn leased(lease: Option<PendingBridgeLease>) -> Option<Snowflake> {
    match lease {
        Some(l) => Some(l.channel_id),
        None => None,
    }
}

impl View for IncomingStage {
    type V = StageView;

    open spec fn view(&self) -> StageView {
        match *self {
            IncomingStage::Routing => StageView::Routing,
            IncomingStage::EarlyMedia { decision } => StageView::EarlyMedia {
                decision: opt_route(decision),
            },
            IncomingStage::ErrorAnswering { error, lease } => StageView::ErrorAnswering {
                error,
                leased: leased(lease),
            },
            IncomingStage::ErrorPlaying { wait_ms, lease } => StageView::ErrorPlaying {
                wait_ms,
                leased: leased(lease),
            },
            IncomingStage::WaitingForBridge { target } => StageView::WaitingForBridge {
                target: target@,
            },
            IncomingStage::Connecting { target, own_lease } => StageView::Connecting {
                target: target@,
                leased: Some(own_lease.channel_id),
            },
            IncomingStage::FaxCreating => StageView::FaxCreating,
            IncomingStage::FaxAnswering { session } => StageView::FaxAnswering { session },
            IncomingStage::FaxPosting { session } => StageView::FaxPosting { session },
            IncomingStage::FaxSettling { session } => StageView::FaxSettling { session },
            IncomingStage::FaxPort { session } => StageView::FaxPort { session },
            IncomingStage::Done => StageView::Done,
        }
    }
}

impl IncomingStage {
    /// How long the stage waits at most, if it waits for time to pass. The
    /// routing is bounded by the configuration of the backend.
    pub fn wait_ms(&self) -> (ms: Option<u64>)
        ensures
            ms == (match self@ {
                StageView::EarlyMedia { .. } => Some(100u64),
                StageView::ErrorAnswering { .. } => Some(200u64),
                StageView::ErrorPlaying { wait_ms, .. } => Some(wait_ms),
                StageView::WaitingForBridge { .. } => Some(15_000u64),
                StageView::FaxSettling { .. } => Some(500u64),
                _ => None,
            }),
    {
        match self {
            IncomingStage::EarlyMedia { .. } => Some(EARLY_MEDIA_WAIT_MS),
            IncomingStage::ErrorAnswering { .. } => Some(ERROR_ANSWER_WAIT_MS),
            IncomingStage::ErrorPlaying { wait_ms, .. } => Some(*wait_ms),
            IncomingStage::WaitingForBridge { .. } => Some(BRIDGE_WAIT_MS),
            IncomingStage::FaxSettling { .. } => Some(FAX_MEDIA_WAIT_MS),
            _ => None,
        }
    }
}

/// What came of the audio port of a fax call.
#[derive(Debug, Clone, Copy, PartialEq, Eq, Structural)]
pub enum FaxPortOutcome {
    /// It was not tried: the session uses T.38 already.
    Skipped,
    /// It was tried. The session may have switched to T.38 meanwhile.
    Tried { created: bool, uses_t38: bool },
}

/// An event for an incoming call.
#[derive(Debug)]
pub enum IncomingEvent {
    /// The backend decided, or took too long.
    Routed { decision: Option<RouteDecision> },
    /// The wait of the stage is over.
    Elapsed,
    /// The bridge of the channel may be there.
    BridgeWoken,
    /// Discord is connected, or the attempt failed.
    Connected { connection: Option<u64> },
    /// The fax session was created, or could not be.
    FaxCreated { created: Option<u64> },
    /// The answer was queued, or the SIP stack is gone.
    AnswerQueued { queued: bool },
    /// The message on the fax was posted, or could not be.
    Posted { posted: bool },
    /// The audio port of the fax call was dealt with.
    FaxPort { outcome: FaxPortOutcome },
}

/// The sounds that a step may need. That of an error is the one of the stage's
/// error.
#[derive(Debug)]
pub struct CallSounds {
    pub connecting: Option<Vec<i16>>,
    pub discord_join: Option<Vec<i16>>,
    pub error: Option<Vec<i16>>,
}

/// The sounds in the model.
pub ghost struct SoundsView {
    pub connecting: Option<Seq<i16>>,
    pub discord_join: Option<Seq<i16>>,
    pub error: Option<Seq<i16>>,
}

impl View for CallSounds {
    type V = SoundsView;

    open spec fn view(&self) -> SoundsView {
        SoundsView {
            connecting: sounds::opt_samples(self.connecting),
            discord_join: sounds::opt_samples(self.discord_join),
            error: sounds::opt_samples(self.error),
        }
    }
}

/// An incoming call.
#[derive(Debug)]
pub struct IncomingCall {
    pub call_id: CallId,
    pub instance_id: u64,
    pub extension: String,
}

/// An incoming call in the model.
pub ghost struct IncomingView {
    pub call: CallId,
    pub instance: u64,
    pub extension: Seq<char>,
}

impl View for IncomingCall {
    type V = IncomingView;

    open spec fn view(&self) -> IncomingView {
        IncomingView {
            call: self.call_id,
            instance: self.instance_id,
            extension: self.extension@,
        }
    }
}

/// A step: the state after it, the next stage, and what is to be done.
pub ghost struct StepView {
    pub state: coordinator::CoordView,
    pub stage: StageView,
    pub actions: Seq<action::ActionView>,
}

impl IncomingView {
    /// Whether the call is still there.
    pub open spec fn current(self, state: coordinator::CoordView) -> bool {
        state.calls.is_current(self.call, self.instance)
    }

    /// The end of the call's work.
    pub open spec fn done(
        self,
        state: coordinator::CoordView,
        actions: Seq<action::ActionView>,
    ) -> StepView {
        StepView { state, stage: StageView::Done, actions }
    }

    /// The state without the call.
    pub open spec fn gone(self, state: coordinator::CoordView) -> coordinator::CoordView {
        coordinator::CoordView {
            calls: state.calls.without_current(self.call, self.instance),
            ..state
        }
    }

    /// The end of the call's work, with a lease given back.
    pub open spec fn done_with(
        self,
        state: coordinator::CoordView,
        actions: Seq<action::ActionView>,
        lease: Option<Snowflake>,
    ) -> StepView {
        match lease {
            Some(channel) => self.done(
                coordinator::CoordView { bridges: state.bridges.released(channel), ..state },
                actions + seq![action::ActionView::WakeWaiters { channel_id: channel }],
            ),
            None => self.done(state, actions),
        }
    }

    /// The start of telling an error.
    pub open spec fn fail(
        self,
        state: coordinator::CoordView,
        error: CallError,
        lease: Option<Snowflake>,
    ) -> StepView {
        if self.current(state) {
            StepView {
                state,
                stage: StageView::ErrorAnswering { error, leased: lease },
                actions: seq![action::answer(self.call)],
            }
        } else {
            self.done_with(state, seq![], lease)
        }
    }

    /// The sound of an error. Without one the call is hung up at once.
    pub open spec fn tell(
        self,
        state: coordinator::CoordView,
        sound: Option<Seq<i16>>,
        stage_lease: Option<Snowflake>,
    ) -> StepView {
        if !self.current(state) {
            self.done_with(state, seq![], stage_lease)
        } else if let Some(samples) = sound {
            StepView {
                state,
                stage: StageView::ErrorPlaying {
                    wait_ms: sounds::playback_ms(samples.len()) as u64,
                    leased: stage_lease,
                },
                actions: seq![action::play(self.call, samples)],
            }
        } else {
            self.hang_up(state, stage_lease)
        }
    }

    /// The end of telling an error.
    pub open spec fn hang_up(
        self,
        state: coordinator::CoordView,
        lease: Option<Snowflake>,
    ) -> StepView {
        self.done_with(
            self.gone(state),
            if self.current(state) {
                seq![action::hangup(self.call)]
            } else {
                seq![]
            },
            lease,
        )
    }

    /// What was decided, or the timeout, is carried out.
    pub open spec fn route(
        self,
        state: coordinator::CoordView,
        decision: Option<RouteView>,
        sounds: SoundsView,
        now: Instant,
    ) -> StepView {
        match decision {
            None => self.fail(state, CallError::Unknown, None),
            Some(RouteView::Redirect { domain, extension }) => self.done(
                self.gone(state),
                seq![
                    action::ActionView::Sip {
                        command: types::SipCommandView::Redirect {
                            call_id: self.call,
                            domain,
                            extension,
                        },
                    },
                ],
            ),
            Some(RouteView::RejectInvalidCredentials) => self.done(
                self.gone(state),
                seq![action::hangup(self.call)],
            ),
            Some(RouteView::RejectWithError { error }) => self.fail(state, error, None),
            Some(RouteView::ConnectFax { text_channel_id, guild_id, user_id, bot_token }) => StepView {
                state,
                stage: StageView::FaxCreating,
                actions: seq![
                    action::ActionView::CreateFax {
                        call_id: self.call,
                        text_channel_id,
                        guild_id,
                        user_id,
                        bot_token,
                    },
                ],
            },
            Some(RouteView::Connect { target }) => self.connect(state, target, sounds, now),
        }
    }

    /// A call is connected to a voice channel: not past another channel of the
    /// guild, and not before a pending bridge is there.
    pub open spec fn connect(
        self,
        state: coordinator::CoordView,
        target: TargetView,
        sounds: SoundsView,
        now: Instant,
    ) -> StepView {
        if state.bridges.has_conflict(target.guild_id, Some(target.channel_id)) {
            self.fail(state, CallError::ServerBusy, None)
        } else if state.bridges.is_pending(target.channel_id) && !state.bridges.has(
            target.channel_id,
        ) {
            StepView { state, stage: StageView::WaitingForBridge { target }, actions: seq![] }
        } else {
            self.proceed(state, target, sounds, now)
        }
    }

    /// A call joins the bridge of its channel, or creates it.
    pub open spec fn proceed(
        self,
        state: coordinator::CoordView,
        target: TargetView,
        sounds: SoundsView,
        now: Instant,
    ) -> StepView {
        if !self.current(state) {
            self.done(state, seq![])
        } else if state.bridges.has(target.channel_id) {
            self.done(self.joined(state, target, now), self.joining(target, sounds))
        } else if state.bridges.is_pending(target.channel_id) {
            self.fail(state, CallError::ServerBusy, None)
        } else {
            StepView {
                state: coordinator::CoordView {
                    bridges: state.bridges.leased(target.channel_id),
                    ..state
                },
                stage: StageView::Connecting { target, leased: Some(target.channel_id) },
                actions: seq![
                    action::ActionView::Connect {
                        bridge_id: outbound::bridge_name(target.channel_id),
                        guild_id: target.guild_id,
                        channel_id: target.channel_id,
                    },
                ],
            }
        }
    }

    /// The call on its channel.
    pub open spec fn on_channel(
        self,
        state: coordinator::CoordView,
        target: TargetView,
    ) -> calls::CallsView {
        state.calls.with(
            self.call,
            calls::CallView {
                channel_id: Some(target.channel_id),
                user_id: Some(target.user_id),
                guild_id: Some(target.guild_id),
                ..state.calls.calls[self.call.raw]
            },
        )
    }

    /// The state after the call joined the bridge of its channel.
    pub open spec fn joined(
        self,
        state: coordinator::CoordView,
        target: TargetView,
        now: Instant,
    ) -> coordinator::CoordView {
        coordinator::CoordView {
            calls: self.on_channel(state, target),
            bridges: state.bridges.with(
                target.channel_id,
                state.bridges.bridges[target.channel_id.raw].joined(self.call, now),
            ),
            ..state
        }
    }

    /// What is told to the backend of a call that started.
    pub open spec fn started(self, target: TargetView) -> routing::CallStartedView {
        routing::CallStartedView {
            sip_call_id: text::signed_decimal(self.call.raw as int),
            user_id: target.user_id,
            guild_id: text::decimal(target.guild_id.raw as nat),
            channel_id: text::decimal(target.channel_id.raw as nat),
            extension: self.extension,
        }
    }

    /// What a call on its channel asks for: its audio is connected before it is
    /// answered.
    pub open spec fn joining(self, target: TargetView, sounds: SoundsView) -> Seq<
        action::ActionView,
    > {
        seq![
            action::ActionView::RegisterCallChannel {
                call_id: self.call,
                channel_id: target.channel_id,
            },
            action::ActionView::CallStarted { info: self.started(target) },
        ] + sounds::connected_audio(self.call, sounds.discord_join)
    }

    /// Discord is connected, or the attempt failed.
    pub open spec fn connected(
        self,
        state: coordinator::CoordView,
        target: TargetView,
        lease: Option<Snowflake>,
        connection: Option<u64>,
        sounds: SoundsView,
        now: Instant,
    ) -> StepView {
        match connection {
            Some(key) => if self.current(state) {
                self.done_with(
                    coordinator::CoordView {
                        calls: self.on_channel(state, target),
                        bridges: state.bridges.with(
                            target.channel_id,
                            bridges::BridgeView::fresh(
                                target.guild_id,
                                key,
                                self.call,
                                target.bot_token,
                                now,
                            ),
                        ),
                        ..state
                    },
                    seq![action::ActionView::SetupRings { channel_id: target.channel_id }]
                        + self.joining(target, sounds),
                    lease,
                )
            } else {
                self.done_with(
                    state,
                    seq![action::ActionView::Disconnect { connection: key }],
                    lease,
                )
            },
            None => self.fail(state, CallError::Unknown, lease),
        }
    }

    /// Whether the fax session is that of the call, and the call still there.
    pub open spec fn fax_current(self, state: coordinator::CoordView, session: u64) -> bool {
        self.current(state) && state.fax.holds(self.call, self.instance, session)
    }

    /// The fax session is given up, `before` it what else is to be done.
    pub open spec fn drop_fax(
        self,
        state: coordinator::CoordView,
        session: u64,
        before: Seq<action::ActionView>,
    ) -> StepView {
        self.done(
            coordinator::CoordView {
                fax: state.fax.without_current(self.call, self.instance, session),
                ..state
            },
            before + state.fax.removing(self.call, self.instance, session),
        )
    }

    /// The fax session was created. It is registered before the call is
    /// answered, so that a T.38 offer that follows the answer finds it.
    pub open spec fn fax_created(
        self,
        state: coordinator::CoordView,
        created: Option<u64>,
    ) -> StepView {
        match created {
            None => self.done(self.gone(state), seq![action::hangup(self.call)]),
            Some(session) => if state.fax.accepts(
                state.calls,
                self.call,
                self.instance,
                session,
            ) {
                StepView {
                    state: coordinator::CoordView {
                        fax: state.fax.registered(
                            state.calls,
                            self.call,
                            self.instance,
                            session,
                        ),
                        ..state
                    },
                    stage: StageView::FaxAnswering { session },
                    actions: state.fax.registering(
                        state.calls,
                        self.call,
                        self.instance,
                        session,
                    ) + seq![action::answer(self.call)],
                }
            } else {
                self.done(state, seq![])
            },
        }
    }

    /// The answer of the fax call was queued, or the SIP stack is gone.
    pub open spec fn fax_answered(
        self,
        state: coordinator::CoordView,
        session: u64,
        queued: bool,
    ) -> StepView {
        if queued {
            StepView {
                state,
                stage: StageView::FaxPosting { session },
                actions: seq![action::ActionView::PostReceiving { session }],
            }
        } else {
            self.drop_fax(self.gone(state), session, seq![])
        }
    }

    /// The message on the fax was posted, or could not be.
    pub open spec fn fax_posted(
        self,
        state: coordinator::CoordView,
        session: u64,
        posted: bool,
    ) -> StepView {
        if !posted {
            self.drop_fax(
                self.gone(state),
                session,
                if self.current(state) {
                    seq![action::hangup(self.call)]
                } else {
                    seq![]
                },
            )
        } else if self.fax_current(state, session) {
            StepView { state, stage: StageView::FaxSettling { session }, actions: seq![] }
        } else {
            self.drop_fax(state, session, seq![])
        }
    }

    /// The media of the fax call was given time.
    pub open spec fn fax_settled(self, state: coordinator::CoordView, session: u64) -> StepView {
        if self.fax_current(state, session) {
            StepView {
                state,
                stage: StageView::FaxPort { session },
                actions: seq![
                    action::ActionView::CreateFaxPort { call_id: self.call, session },
                ],
            }
        } else {
            self.drop_fax(state, session, seq![])
        }
    }

    /// The audio port of the fax call was dealt with. Once the session uses
    /// T.38, no audio task is started.
    pub open spec fn fax_port(
        self,
        state: coordinator::CoordView,
        session: u64,
        outcome: FaxPortOutcome,
    ) -> StepView {
        match outcome {
            FaxPortOutcome::Skipped => self.done(state, seq![]),
            FaxPortOutcome::Tried { created, uses_t38 } => self.done(
                state,
                if uses_t38 {
                    seq![action::ActionView::RemoveFaxPort { call_id: self.call }]
                } else {
                    seq![
                        action::ActionView::StartFaxAudio {
                            call_id: self.call,
                            session,
                            has_port: created,
                        },
                    ]
                },
            ),
        }
    }

    /// The call was routed. A call that is no fax gets a 183 response first.
    pub open spec fn routed(
        self,
        state: coordinator::CoordView,
        decision: Option<RouteView>,
        sounds: SoundsView,
        now: Instant,
    ) -> StepView {
        if !self.current(state) {
            self.done(state, seq![])
        } else if decision matches Some(RouteView::ConnectFax { .. }) {
            self.route(state, decision, sounds, now)
        } else {
            StepView {
                state,
                stage: StageView::EarlyMedia { decision },
                actions: seq![
                    action::ActionView::Sip {
                        command: types::SipCommandView::Send183 { call_id: self.call },
                    },
                ],
            }
        }
    }

    /// The wait after the 183 response is over: the connecting loop starts, and
    /// the decision is carried out.
    pub open spec fn media_started(
        self,
        state: coordinator::CoordView,
        decision: Option<RouteView>,
        sounds: SoundsView,
        now: Instant,
    ) -> StepView {
        if !self.current(state) {
            self.done(state, seq![])
        } else {
            let step = self.route(state, decision, sounds, now);
            StepView {
                actions: sounds::connecting_loop(self.call, sounds.connecting) + step.actions,
                ..step
            }
        }
    }

    /// One step of the call. An event that the stage does not wait for changes
    /// nothing.
    pub open spec fn step(
        self,
        state: coordinator::CoordView,
        stage: StageView,
        event: IncomingEvent,
        sounds: SoundsView,
        now: Instant,
    ) -> StepView {
        match (stage, event) {
            (StageView::Routing, IncomingEvent::Routed { decision }) => self.routed(
                state,
                opt_route(decision),
                sounds,
                now,
            ),
            (StageView::EarlyMedia { decision }, IncomingEvent::Elapsed) => self.media_started(
                state,
                decision,
                sounds,
                now,
            ),
            (StageView::ErrorAnswering { error, leased }, IncomingEvent::Elapsed) => self.tell(
                state,
                sounds.error,
                leased,
            ),
            (StageView::ErrorPlaying { wait_ms, leased }, IncomingEvent::Elapsed) => self.hang_up(
                state,
                leased,
            ),
            (StageView::WaitingForBridge { target }, IncomingEvent::Elapsed) => self.fail(
                state,
                CallError::Unknown,
                None,
            ),
            (StageView::WaitingForBridge { target }, IncomingEvent::BridgeWoken) => {
                match bridges::bridge_wait(
                    state.bridges,
                    state.calls,
                    target.channel_id,
                    self.call,
                    self.instance,
                ) {
                    BridgeWait::Ready => self.proceed(state, target, sounds, now),
                    BridgeWait::CallEnded => self.done(state, seq![]),
                    BridgeWait::Wait => StepView { state, stage, actions: seq![] },
                }
            },
            (
                StageView::Connecting { target, leased },
                IncomingEvent::Connected { connection },
            ) => self.connected(state, target, leased, connection, sounds, now),
            (StageView::FaxCreating, IncomingEvent::FaxCreated { created }) => self.fax_created(
                state,
                created,
            ),
            (
                StageView::FaxAnswering { session },
                IncomingEvent::AnswerQueued { queued },
            ) => self.fax_answered(state, session, queued),
            (StageView::FaxPosting { session }, IncomingEvent::Posted { posted }) => self.fax_posted(
                state,
                session,
                posted,
            ),
            (StageView::FaxSettling { session }, IncomingEvent::Elapsed) => self.fax_settled(
                state,
                session,
            ),
            (StageView::FaxPort { session }, IncomingEvent::FaxPort { outcome }) => self.fax_port(
                state,
                session,
                outcome,
            ),
            _ => StepView { state, stage, actions: seq![] },
        }
    }
}

/// What a step gives.
#[derive(Debug)]
pub struct IncomingStep {
    pub stage: IncomingStage,
    pub actions: Vec<Action>,
}

impl IncomingStep {
    /// The step in the model, with the state after it.
    pub open spec fn seen(self, state: coordinator::CoordView) -> StepView {
        StepView {
            state,
            stage: self.stage@,
            actions: action::action_views(self.actions@),
        }
    }
}

/// No actions.
fn nothing() -> (actions: Vec<Action>)
    ensures
        action::action_views(actions@) == (Seq::<action::ActionView>::empty()),
{
    Vec::new()
}

/// One action.
fn only(a: Action) -> (actions: Vec<Action>)
    ensures
        action::action_views(actions@) == seq![a@],
{
    let mut actions: Vec<Action> = Vec::new();
    actions.push(a);
    actions
}

impl IncomingCall {
    /// Whether the call is still there.
    fn is_current(&self, state: &BridgeCoordinator) -> (r: bool)
        ensures
            r == self@.current(state@),
    {
        call_is_current(&state.sip_calls, self.call_id, self.instance_id)
    }

    /// Takes the call out, if it is still there.
    fn remove(&self, state: &mut BridgeCoordinator)
        ensures
            final(state)@ == self@.gone(old(state)@),
    {
        let _ = remove_call_if_current(&mut state.sip_calls, self.call_id, self.instance_id);
    }

    /// The end of the call's work, with a lease given back.
    fn done_with(
        &self,
        state: &mut BridgeCoordinator,
        actions: Vec<Action>,
        lease: Option<PendingBridgeLease>,
    ) -> (step: IncomingStep)
        ensures
            step.seen(final(state)@) == self@.done_with(
                old(state)@,
                action::action_views(actions@),
                leased(lease),
            ),
    {
        let ghost before = action::action_views(actions@);
        let mut actions = actions;
        if let Some(lease) = lease {
            let ghost channel = lease.channel_id;
            actions.push(lease.release(&mut state.bridges));
            assert(action::action_views(actions@) =~= before + seq![
                action::ActionView::WakeWaiters { channel_id: channel },
            ]);
        }
        IncomingStep { stage: IncomingStage::Done, actions }
    }

    /// Starts to tell an error, after which the call is hung up.
    fn play_error_and_hangup(
        &self,
        state: &mut BridgeCoordinator,
        error: CallError,
        lease: Option<PendingBridgeLease>,
    ) -> (step: IncomingStep)
        ensures
            step.seen(final(state)@) == self@.fail(old(state)@, error, leased(lease)),
    {
        if self.is_current(state) {
            IncomingStep {
                stage: IncomingStage::ErrorAnswering { error, lease },
                actions: only(answer_action(self.call_id)),
            }
        } else {
            self.done_with(state, nothing(), lease)
        }
    }

    /// Hangs the call up after an error was told.
    fn hang_up(&self, state: &mut BridgeCoordinator, lease: Option<PendingBridgeLease>) -> (step:
        IncomingStep)
        ensures
            step.seen(final(state)@) == self@.hang_up(old(state)@, leased(lease)),
    {
        let actions = if self.is_current(state) {
            only(hangup_action(self.call_id))
        } else {
            nothing()
        };
        self.remove(state);
        self.done_with(state, actions, lease)
    }

    /// Plays the sound of an error.
    fn tell(
        &self,
        state: &mut BridgeCoordinator,
        sound: Option<Vec<i16>>,
        lease: Option<PendingBridgeLease>,
    ) -> (step: IncomingStep)
        requires
            sound matches Some(samples) ==> samples@.len() * 1000 <= u64::MAX,
        ensures
            step.seen(final(state)@) == self@.tell(
                old(state)@,
                sounds::opt_samples(sound),
                leased(lease),
            ),
    {
        if !self.is_current(state) {
            return self.done_with(state, nothing(), lease);
        }
        match sound {
            Some(samples) => {
                let wait_ms = playback_wait(samples.len());
                IncomingStep {
                    stage: IncomingStage::ErrorPlaying { wait_ms, lease },
                    actions: only(
                        Action::Sip {
                            command: SipCommand::PlayDirectToCall {
                                call_id: self.call_id,
                                samples,
                            },
                        },
                    ),
                }
            },
            None => self.hang_up(state, lease),
        }
    }

    /// Puts the call on its channel.
    fn put_on_channel(&self, state: &mut BridgeCoordinator, target: &VoiceTarget)
        requires
            self@.current(old(state)@),
        ensures
            final(state)@ == (coordinator::CoordView {
                calls: self@.on_channel(old(state)@, target@),
                ..old(state)@
            }),
    {
        let ghost before = state@;
        match state.sip_calls.remove(self.call_id) {
            Some(info) => {
                let joined = SipCallInfo {
                    channel_id: Some(target.channel_id),
                    _user_id: Some(target.user_id.clone()),
                    _guild_id: Some(target.guild_id),
                    ..info
                };
                state.sip_calls.insert(self.call_id, joined);
            },
            None => {},
        }
        assert(state@.calls.calls =~= self@.on_channel(before, target@).calls);
    }

    /// What a call on its channel asks for.
    fn joining(&self, target: &VoiceTarget, join: Option<Vec<i16>>) -> (actions: Vec<Action>)
        ensures
            action::action_views(actions@) == self@.joining(
                target@,
                SoundsView {
                    connecting: None,
                    discord_join: sounds::opt_samples(join),
                    error: None,
                },
            ),
    {
        let mut actions: Vec<Action> = Vec::new();
        actions.push(
            Action::RegisterCallChannel {
                call_id: self.call_id,
                channel_id: target.channel_id,
            },
        );
        actions.push(
            Action::CallStarted {
                info: CallStartedInfo {
                    sip_call_id: self.call_id.to_text(),
                    user_id: target.user_id.clone(),
                    guild_id: target.guild_id.to_text(),
                    channel_id: target.channel_id.to_text(),
                    extension: self.extension.clone(),
                },
            },
        );
        push_actions(&mut actions, queue_connected_call_audio(self.call_id, join));
        assert(action::action_views(actions@) =~= seq![
            action::ActionView::RegisterCallChannel {
                call_id: self.call_id,
                channel_id: target.channel_id,
            },
            action::ActionView::CallStarted { info: self@.started(target@) },
        ] + sounds::connected_audio(self.call_id, sounds::opt_samples(join)));
        actions
    }

    /// Joins the bridge of a channel, or creates it.
    fn proceed(
        &self,
        state: &mut BridgeCoordinator,
        target: VoiceTarget,
        sounds: CallSounds,
        now: Instant,
    ) -> (step: IncomingStep)
        ensures
            step.seen(final(state)@) == self@.proceed(old(state)@, target@, sounds@, now),
    {
        let channel_id = target.channel_id;
        let guild_id = target.guild_id;
        if !self.is_current(state) {
            return IncomingStep { stage: IncomingStage::Done, actions: nothing() };
        }
        if state.bridges.contains(channel_id) {
            self.put_on_channel(state, &target);
            state.bridges.join(channel_id, self.call_id, now);
            let actions = self.joining(&target, sounds.discord_join);
            return IncomingStep { stage: IncomingStage::Done, actions };
        }
        match PendingBridgeLease::try_acquire(channel_id, &mut state.bridges) {
            Some(lease) => IncomingStep {
                stage: IncomingStage::Connecting { target, own_lease: lease },
                actions: only(
                    Action::Connect {
                        bridge_id: outbound::bridge_id(channel_id),
                        guild_id,
                        channel_id,
                    },
                ),
            },
            None => self.play_error_and_hangup(state, CallError::ServerBusy, None),
        }
    }

    /// Connects the call to a voice channel.
    fn connect(
        &self,
        state: &mut BridgeCoordinator,
        target: VoiceTarget,
        sounds: CallSounds,
        now: Instant,
    ) -> (step: IncomingStep)
        ensures
            step.seen(final(state)@) == self@.connect(old(state)@, target@, sounds@, now),
    {
        let conflict = state.bridges.conflicting_channel(
            target.guild_id,
            Some(target.channel_id),
        );
        if conflict.is_some() {
            self.play_error_and_hangup(state, CallError::ServerBusy, None)
        } else if state.bridges.is_pending(target.channel_id) && !state.bridges.contains(
            target.channel_id,
        ) {
            IncomingStep {
                stage: IncomingStage::WaitingForBridge { target },
                actions: nothing(),
            }
        } else {
            self.proceed(state, target, sounds, now)
        }
    }

    /// Carries out what was decided.
    fn route(
        &self,
        state: &mut BridgeCoordinator,
        decision: Option<RouteDecision>,
        sounds: CallSounds,
        now: Instant,
    ) -> (step: IncomingStep)
        ensures
            step.seen(final(state)@) == self@.route(
                old(state)@,
                opt_route(decision),
                sounds@,
                now,
            ),
    {
        match decision {
            None => self.play_error_and_hangup(state, CallError::Unknown, None),
            Some(RouteDecision::Redirect { domain, extension }) => {
                self.remove(state);
                IncomingStep {
                    stage: IncomingStage::Done,
                    actions: only(
                        Action::Sip {
                            command: SipCommand::Redirect {
                                call_id: self.call_id,
                                domain,
                                extension,
                            },
                        },
                    ),
                }
            },
            Some(RouteDecision::RejectInvalidCredentials) => {
                self.remove(state);
                IncomingStep {
                    stage: IncomingStage::Done,
                    actions: only(hangup_action(self.call_id)),
                }
            },
            Some(RouteDecision::RejectWithError { error }) => {
                self.play_error_and_hangup(state, error, None)
            },
            Some(
                RouteDecision::ConnectFax { text_channel_id, guild_id, user_id, bot_token },
            ) => IncomingStep {
                stage: IncomingStage::FaxCreating,
                actions: only(
                    Action::CreateFax {
                        call_id: self.call_id,
                        text_channel_id,
                        guild_id,
                        user_id,
                        bot_token,
                    },
                ),
            },
            Some(RouteDecision::Connect { channel_id, guild_id, user_id, bot_token }) => {
                let target = VoiceTarget { channel_id, guild_id, user_id, bot_token };
                self.connect(state, target, sounds, now)
            },
        }
    }

    /// The call was routed: early media first, unless it is a fax.
    fn routed(
        &self,
        state: &mut BridgeCoordinator,
        decision: Option<RouteDecision>,
        sounds: CallSounds,
        now: Instant,
    ) -> (step: IncomingStep)
        ensures
            step.seen(final(state)@) == self@.routed(
                old(state)@,
                opt_route(decision),
                sounds@,
                now,
            ),
    {
        if !self.is_current(state) {
            return IncomingStep { stage: IncomingStage::Done, actions: nothing() };
        }
        let is_fax = match &decision {
            Some(RouteDecision::ConnectFax { .. }) => true,
            _ => false,
        };
        if is_fax {
            self.route(state, decision, sounds, now)
        } else {
            IncomingStep {
                stage: IncomingStage::EarlyMedia { decision },
                actions: only(
                    Action::Sip { command: SipCommand::Send183 { call_id: self.call_id } },
                ),
            }
        }
    }

    /// Starts the connecting loop, and carries out what was decided.
    fn start_connecting_early_media(
        &self,
        state: &mut BridgeCoordinator,
        decision: Option<RouteDecision>,
        sounds: CallSounds,
        now: Instant,
    ) -> (step: IncomingStep)
        ensures
            step.seen(final(state)@) == self@.media_started(
                old(state)@,
                opt_route(decision),
                sounds@,
                now,
            ),
    {
        if !self.is_current(state) {
            return IncomingStep { stage: IncomingStage::Done, actions: nothing() };
        }
        let CallSounds { connecting, discord_join, error } = sounds;
        let mut actions = connecting_loop_actions(self.call_id, connecting);
        let rest = CallSounds { connecting: None, discord_join, error };
        let IncomingStep { stage, actions: more } = self.route(state, decision, rest, now);
        push_actions(&mut actions, more);
        IncomingStep { stage, actions }
    }

    /// Discord is connected, or the attempt failed.
    fn connected(
        &self,
        state: &mut BridgeCoordinator,
        target: VoiceTarget,
        lease: PendingBridgeLease,
        connection: Option<u64>,
        sounds: CallSounds,
        now: Instant,
    ) -> (step: IncomingStep)
        ensures
            step.seen(final(state)@) == self@.connected(
                old(state)@,
                target@,
                Some(lease.channel_id),
                connection,
                sounds@,
                now,
            ),
    {
        let connection = match connection {
            Some(connection) => connection,
            None => {
                return self.play_error_and_hangup(state, CallError::Unknown, Some(lease));
            },
        };
        if !self.is_current(state) {
            return self.done_with(state, only(Action::Disconnect { connection }), Some(lease));
        }
        let channel_id = target.channel_id;
        let mut actions = only(Action::SetupRings { channel_id });
        push_actions(&mut actions, self.joining(&target, sounds.discord_join));
        self.put_on_channel(state, &target);
        let mut on_bridge: HashSet<i32> = HashSet::new();
        on_bridge.insert(self.call_id.raw);
        assert(on_bridge@ =~= set![self.call_id.raw]);
        let bridge = ChannelBridge {
            guild_id: target.guild_id,
            discord_connection: connection,
            sip_calls: on_bridge,
            bot_token: target.bot_token,
            last_call_time: now,
            created_at: now,
            reconnect_attempts: 0,
            last_reconnect_at: None,
        };
        state.bridges.insert(channel_id, bridge);
        self.done_with(state, actions, Some(lease))
    }

    /// Gives the fax session up.
    fn drop_fax(&self, state: &mut BridgeCoordinator, session: u64, actions: Vec<Action>) -> (step:
        IncomingStep)
        ensures
            step.seen(final(state)@) == self@.drop_fax(
                old(state)@,
                session,
                action::action_views(actions@),
            ),
    {
        let mut actions = actions;
        let removed = remove_fax_session_if_current(
            &mut state.fax_sessions,
            self.call_id,
            self.instance_id,
            session,
        );
        push_actions(&mut actions, removed.1);
        IncomingStep { stage: IncomingStage::Done, actions }
    }

    /// Registers the fax session, then answers the call.
    fn fax_created(&self, state: &mut BridgeCoordinator, created: Option<u64>) -> (step:
        IncomingStep)
        ensures
            step.seen(final(state)@) == self@.fax_created(old(state)@, created),
    {
        match created {
            None => {
                self.remove(state);
                IncomingStep {
                    stage: IncomingStage::Done,
                    actions: only(hangup_action(self.call_id)),
                }
            },
            Some(session) => {
                let ghost before = state@;
                let (accepted, mut actions) = register_fax_session_if_current(
                    &state.sip_calls,
                    &mut state.fax_sessions,
                    self.call_id,
                    self.instance_id,
                    session,
                );
                if !accepted {
                    assert(action::action_views(actions@) =~= Seq::<action::ActionView>::empty());
                    return IncomingStep { stage: IncomingStage::Done, actions };
                }
                let ghost replaced = action::action_views(actions@);
                actions.push(answer_action(self.call_id));
                assert(action::action_views(actions@) =~= replaced + seq![
                    action::answer(self.call_id),
                ]);
                IncomingStep { stage: IncomingStage::FaxAnswering { session }, actions }
            },
        }
    }

    /// Posts that a fax is coming.
    fn fax_answered(&self, state: &mut BridgeCoordinator, session: u64, queued: bool) -> (step:
        IncomingStep)
        ensures
            step.seen(final(state)@) == self@.fax_answered(old(state)@, session, queued),
    {
        if queued {
            IncomingStep {
                stage: IncomingStage::FaxPosting { session },
                actions: only(Action::PostReceiving { session }),
            }
        } else {
            self.remove(state);
            self.drop_fax(state, session, nothing())
        }
    }

    /// Whether the fax session is that of the call.
    fn fax_is_current(&self, state: &BridgeCoordinator, session: u64) -> (r: bool)
        ensures
            r == self@.fax_current(state@, session),
    {
        fax_session_is_current(
            &state.sip_calls,
            &state.fax_sessions,
            self.call_id,
            self.instance_id,
            session,
        )
    }

    /// Gives the media time.
    fn fax_posted(&self, state: &mut BridgeCoordinator, session: u64, posted: bool) -> (step:
        IncomingStep)
        ensures
            step.seen(final(state)@) == self@.fax_posted(old(state)@, session, posted),
    {
        if !posted {
            let actions = if self.is_current(state) {
                only(hangup_action(self.call_id))
            } else {
                nothing()
            };
            self.remove(state);
            self.drop_fax(state, session, actions)
        } else if self.fax_is_current(state, session) {
            IncomingStep { stage: IncomingStage::FaxSettling { session }, actions: nothing() }
        } else {
            self.drop_fax(state, session, nothing())
        }
    }

    /// Creates the audio port.
    fn fax_settled(&self, state: &mut BridgeCoordinator, session: u64) -> (step: IncomingStep)
        ensures
            step.seen(final(state)@) == self@.fax_settled(old(state)@, session),
    {
        if self.fax_is_current(state, session) {
            IncomingStep {
                stage: IncomingStage::FaxPort { session },
                actions: only(Action::CreateFaxPort { call_id: self.call_id, session }),
            }
        } else {
            self.drop_fax(state, session, nothing())
        }
    }

    /// Starts the audio task, unless the session uses T.38.
    fn fax_port(&self, session: u64, outcome: FaxPortOutcome) -> (step: IncomingStep)
        ensures
            forall|state: coordinator::CoordView| #[trigger]
                step.seen(state) == self@.fax_port(state, session, outcome),
    {
        let actions = match outcome {
            FaxPortOutcome::Skipped => nothing(),
            FaxPortOutcome::Tried { created, uses_t38 } => if uses_t38 {
                only(Action::RemoveFaxPort { call_id: self.call_id })
            } else {
                only(
                    Action::StartFaxAudio {
                        call_id: self.call_id,
                        session,
                        has_port: created,
                    },
                )
            },
        };
        IncomingStep { stage: IncomingStage::Done, actions }
    }

    /// Looks again for the bridge of a channel.
    fn bridge_woken(
        &self,
        state: &mut BridgeCoordinator,
        target: VoiceTarget,
        sounds: CallSounds,
        now: Instant,
    ) -> (step: IncomingStep)
        ensures
            step.seen(final(state)@) == self@.step(
                old(state)@,
                StageView::WaitingForBridge { target: target@ },
                IncomingEvent::BridgeWoken,
                sounds@,
                now,
            ),
    {
        match wait_for_pending_bridge(
            target.channel_id,
            self.call_id,
            self.instance_id,
            &state.bridges,
            &state.sip_calls,
        ) {
            BridgeWait::Ready => self.proceed(state, target, sounds, now),
            BridgeWait::CallEnded => IncomingStep {
                stage: IncomingStage::Done,
                actions: nothing(),
            },
            BridgeWait::Wait => IncomingStep {
                stage: IncomingStage::WaitingForBridge { target },
                actions: nothing(),
            },
        }
    }

    /// One step of the call: takes the event that the stage waits for, and
    /// gives the next stage and what is to be done. An event that the stage
    /// does not wait for changes nothing.
    pub fn advance(
        &self,
        state: &mut BridgeCoordinator,
        stage: IncomingStage,
        event: IncomingEvent,
        sounds: CallSounds,
        now: Instant,
    ) -> (step: IncomingStep)
        requires
            sounds.error matches Some(samples) ==> samples@.len() * 1000 <= u64::MAX,
        ensures
            step.seen(final(state)@) == self@.step(old(state)@, stage@, event, sounds@, now),
    {
        match (stage, event) {
            (IncomingStage::Routing, IncomingEvent::Routed { decision }) => self.routed(
                state,
                decision,
                sounds,
                now,
            ),
            (IncomingStage::EarlyMedia { decision }, IncomingEvent::Elapsed) => {
                self.start_connecting_early_media(state, decision, sounds, now)
            },
            (IncomingStage::ErrorAnswering { error: _, lease }, IncomingEvent::Elapsed) => self.tell(
                state,
                sounds.error,
                lease,
            ),
            (IncomingStage::ErrorPlaying { wait_ms: _, lease }, IncomingEvent::Elapsed) => {
                self.hang_up(state, lease)
            },
            (IncomingStage::WaitingForBridge { target: _ }, IncomingEvent::Elapsed) => {
                self.play_error_and_hangup(state, CallError::Unknown, None)
            },
            (IncomingStage::WaitingForBridge { target }, IncomingEvent::BridgeWoken) => {
                self.bridge_woken(state, target, sounds, now)
            },
            (
                IncomingStage::Connecting { target, own_lease },
                IncomingEvent::Connected { connection },
            ) => self.connected(state, target, own_lease, connection, sounds, now),
            (IncomingStage::FaxCreating, IncomingEvent::FaxCreated { created }) => {
                self.fax_created(state, created)
            },
            (
                IncomingStage::FaxAnswering { session },
                IncomingEvent::AnswerQueued { queued },
            ) => self.fax_answered(state, session, queued),
            (IncomingStage::FaxPosting { session }, IncomingEvent::Posted { posted }) => {
                self.fax_posted(state, session, posted)
            },
            (IncomingStage::FaxSettling { session }, IncomingEvent::Elapsed) => self.fax_settled(
                state,
                session,
            ),
            (IncomingStage::FaxPort { session }, IncomingEvent::FaxPort { outcome }) => {
                self.fax_port(session, outcome)
            },
            (stage, _) => IncomingStep { stage, actions: nothing() },
        }
    }
}

// Laws

/// The lease that a stage holds.
pub open spec fn lease_of(stage: StageView) -> Option<Snowflake> {
    match stage {
        StageView::ErrorAnswering { leased, .. } => leased,
        StageView::ErrorPlaying { leased, .. } => leased,
        StageView::Connecting { leased, .. } => leased,
        _ => None,
    }
}

/// Once a call has ended, or its number belongs to another call, no step for it
/// sends a command to the SIP stack or touches a call. The one exception is a
/// fax session that could not be created: the number is hung up then.
pub proof fn law_late_steps_leave_calls_alone(
    task: IncomingView,
    state: coordinator::CoordView,
    stage: StageView,
    event: IncomingEvent,
    sounds: SoundsView,
    now: Instant,
)
    requires
        !task.current(state),
        !(event matches IncomingEvent::FaxCreated { created } && created is None),
    ensures
        ({
            let step = task.step(state, stage, event, sounds, now);
            &&& step.state.calls == state.calls
            &&& forall|k: int|
                0 <= k < step.actions.len() ==> !((#[trigger] step.actions[k]) is Sip)
        }),
{
}

/// No lease is lost: after a step it is either held by the next stage, or given
/// back, and the calls that wait are woken.
pub proof fn law_lease_is_kept_or_given_back(
    task: IncomingView,
    state: coordinator::CoordView,
    stage: StageView,
    event: IncomingEvent,
    sounds: SoundsView,
    now: Instant,
    channel: Snowflake,
)
    requires
        lease_of(stage) == Some(channel),
        state.bridges.is_pending(channel),
    ensures
        ({
            let step = task.step(state, stage, event, sounds, now);
            ||| lease_of(step.stage) == Some(channel) && step.state.bridges.is_pending(channel)
            ||| step.stage is Done && !step.state.bridges.is_pending(channel)
                && step.actions.len() > 0 && step.actions.last()
                == (action::ActionView::WakeWaiters { channel_id: channel })
        }),
{
}

/// When Discord is connected, everything is in place before the call is
/// answered: the ring buffers, the bridge with the call on it, and the channel
/// of the call.
pub proof fn law_bridge_is_ready_before_answer(
    task: IncomingView,
    state: coordinator::CoordView,
    target: TargetView,
    lease: Option<Snowflake>,
    connection: u64,
    sounds: SoundsView,
    now: Instant,
)
    requires
        task.current(state),
    ensures
        ({
            let step = task.connected(state, target, lease, Some(connection), sounds, now);
            let channel = target.channel_id;
            &&& step.stage is Done
            &&& step.state.bridges.has(channel)
            &&& step.state.bridges.bridges[channel.raw].calls.contains(task.call.raw)
            &&& step.state.bridges.bridges[channel.raw].connection == connection
            &&& step.state.channel_of(task.call) == Some(channel)
            &&& step.actions.len() >= 4
            &&& step.actions[0] == (action::ActionView::SetupRings { channel_id: channel })
            &&& step.actions[1] == (action::ActionView::RegisterCallChannel {
                call_id: task.call,
                channel_id: channel,
            })
            &&& step.actions[3] == action::answer(task.call)
        }),
{
}

/// A call that joins a bridge is on it, and its audio is connected, before it
/// is answered. The calls that are on the bridge stay.
pub proof fn law_call_joins_before_answer(
    task: IncomingView,
    state: coordinator::CoordView,
    target: TargetView,
    sounds: SoundsView,
    now: Instant,
    other: i32,
)
    requires
        task.current(state),
        state.bridges.has(target.channel_id),
    ensures
        ({
            let step = task.proceed(state, target, sounds, now);
            let channel = target.channel_id;
            let bridge = step.state.bridges.bridges[channel.raw];
            &&& step.stage is Done
            &&& step.state.bridges.has(channel)
            &&& bridge.calls.contains(task.call.raw)
            &&& state.bridges.bridges[channel.raw].calls.contains(other) ==> bridge.calls.contains(
                other,
            )
            &&& bridge.connection == state.bridges.bridges[channel.raw].connection
            &&& step.state.channel_of(task.call) == Some(channel)
            &&& step.actions.len() >= 3
            &&& step.actions[0] == (action::ActionView::RegisterCallChannel {
                call_id: task.call,
                channel_id: channel,
            })
            &&& step.actions[2] == action::answer(task.call)
        }),
{
}

/// A fax session can be found by the time its call is answered.
pub proof fn law_fax_is_registered_before_answer(
    task: IncomingView,
    state: coordinator::CoordView,
    session: u64,
)
    ensures
        ({
            let step = task.fax_created(state, Some(session));
            (exists|k: int|
                0 <= k < step.actions.len() && #[trigger] step.actions[k] == action::answer(
                    task.call,
                )) ==> task.fax_current(step.state, session) && step.state.takes_t38(task.call)
        }),
{
}

/// A guild whose bot is in another channel takes no call: no bridge is touched.
pub proof fn law_busy_guild_takes_no_call(
    task: IncomingView,
    state: coordinator::CoordView,
    target: TargetView,
    sounds: SoundsView,
    now: Instant,
)
    requires
        state.bridges.has_conflict(target.guild_id, Some(target.channel_id)),
        task.current(state),
    ensures
        task.connect(state, target, sounds, now) == (StepView {
            state,
            stage: StageView::ErrorAnswering { error: CallError::ServerBusy, leased: None },
            actions: seq![action::answer(task.call)],
        }),
{
}

} // verus!
