//! What becomes of an incoming call, from its routing to its end.
//!
//! The laws speak of the state and of what is asked for, not of the way there.

use crate::call::action;
use crate::call::action::Action;
use crate::call::calls;
use crate::call::coordinator;
use crate::call::coordinator::BridgeCoordinator;
use crate::call::incoming;
use crate::call::incoming::{
    CallSounds, FaxPortOutcome, IncomingCall, IncomingEvent, IncomingStage, IncomingStep,
    VoiceTarget,
};
use crate::ids::{CallId, Snowflake};
use crate::routing;
use crate::routing::{CallError, RouteDecision};
use crate::text;
use crate::time::Instant;
use crate::transport::sip::types;
use crate::transport::sip::types::SipCommand;
use vstd::prelude::*;

verus! {

/// Whether a call is there, in this instance.
pub open spec fn call_is_there(state: coordinator::CoordView, call: CallId, instance: u64) -> bool {
    state.calls.calls.contains_key(call.raw) && state.calls.calls[call.raw].instance_id == instance
}

/// Whether neither a bridge nor a lease is in the way of a bridge to a channel.
pub open spec fn way_is_free(
    state: coordinator::CoordView,
    guild: Snowflake,
    channel: Snowflake,
) -> bool {
    &&& !state.bridges.bridges.contains_key(channel.raw)
    &&& !state.bridges.pending.contains(channel.raw)
    &&& forall|other: u64| #[trigger]
        state.bridges.bridges.contains_key(other) ==> state.bridges.bridges[other].guild_id != guild
}

/// Whether two states differ in a call and in the bridge of a channel at most.
pub open spec fn same_elsewhere(
    before: coordinator::CoordView,
    after: coordinator::CoordView,
    call: CallId,
    channel: Snowflake,
) -> bool {
    &&& forall|other: i32|
        #![trigger after.calls.calls.contains_key(other)]
        other != call.raw ==> (after.calls.calls.contains_key(other)
            <==> before.calls.calls.contains_key(other)) && after.calls.calls[other]
            == before.calls.calls[other]
    &&& forall|other: u64|
        #![trigger after.bridges.bridges.contains_key(other)]
        other != channel.raw ==> (after.bridges.bridges.contains_key(other)
            <==> before.bridges.bridges.contains_key(other)) && after.bridges.bridges[other]
            == before.bridges.bridges[other] && (after.bridges.pending.contains(other)
            <==> before.bridges.pending.contains(other))
    &&& after.fax == before.fax
    &&& after.outbound == before.outbound
    &&& after.calls.next_instance == before.calls.next_instance
}

/// A caller gets early media first: a call that is no fax is sent a 183 response,
/// and nothing else is asked for. The decision is kept as it came.
pub proof fn law_early_media_comes_first(
    task: incoming::IncomingView,
    state: coordinator::CoordView,
    decision: Option<RouteDecision>,
    sounds: incoming::SoundsView,
    now: Instant,
)
    requires
        call_is_there(state, task.call, task.instance),
        !(decision matches Some(RouteDecision::ConnectFax { .. })),
    ensures
        ({
            let step = task.step(
                state,
                incoming::StageView::Routing,
                IncomingEvent::Routed { decision },
                sounds,
                now,
            );
            &&& step.state == state
            &&& step.actions.len() == 1
            &&& step.actions[0] == (action::ActionView::Sip {
                command: types::SipCommandView::Send183 { call_id: task.call },
            })
            &&& step.stage matches incoming::StageView::EarlyMedia { decision: kept }
            &&& match decision {
                Some(RouteDecision::Connect { channel_id, guild_id, user_id, bot_token }) => {
                    &&& kept matches Some(incoming::RouteView::Connect { target })
                    &&& target.channel_id == channel_id
                    &&& target.guild_id == guild_id
                    &&& target.user_id == user_id@
                    &&& target.bot_token == bot_token@
                },
                Some(RouteDecision::Redirect { domain, extension }) => {
                    &&& kept matches Some(incoming::RouteView::Redirect { domain: d, extension: e })
                    &&& d == domain@
                    &&& e == extension@
                },
                Some(RouteDecision::RejectInvalidCredentials) => kept
                    == Some(incoming::RouteView::RejectInvalidCredentials),
                Some(RouteDecision::RejectWithError { error }) => kept
                    == Some(incoming::RouteView::RejectWithError { error }),
                Some(RouteDecision::ConnectFax { .. }) => false,
                None => kept is None,
            }
        }),
{
}

/// A call that is routed to a voice channel reaches it: where no bridge and no
/// lease is in the way, exactly one connection to Discord is asked for, to the
/// guild and the channel of the decision. Meanwhile the channel is leased, and
/// the caller hears the connecting sound and nothing else.
pub proof fn law_call_reaches_its_voice_channel(
    task: incoming::IncomingView,
    state: coordinator::CoordView,
    target: incoming::TargetView,
    sounds: incoming::SoundsView,
    now: Instant,
)
    requires
        call_is_there(state, task.call, task.instance),
        way_is_free(state, target.guild_id, target.channel_id),
    ensures
        ({
            let step = task.step(
                state,
                incoming::StageView::EarlyMedia {
                    decision: Some(incoming::RouteView::Connect { target }),
                },
                IncomingEvent::Elapsed,
                sounds,
                now,
            );
            &&& action::happens_once(
                step.actions,
                action::ActionView::Connect {
                    bridge_id: "bridge_"@ + text::decimal(target.channel_id.raw as nat),
                    guild_id: target.guild_id,
                    channel_id: target.channel_id,
                },
                |a: action::ActionView| a is Connect,
            )
            &&& step.actions.last() is Connect
            &&& sounds.connecting matches Some(samples) ==> step.actions[0]
                == (action::ActionView::Sip {
                command: types::SipCommandView::StartConnectingLoop { call_id: task.call, samples },
            })
            &&& step.actions.len() == (if sounds.connecting is Some {
                2int
            } else {
                1int
            })
            &&& step.stage == (incoming::StageView::Connecting {
                target,
                leased: Some(target.channel_id),
            })
            &&& step.state.bridges.pending.contains(target.channel_id.raw)
            &&& !step.state.bridges.bridges.contains_key(target.channel_id.raw)
            &&& step.state.calls == state.calls
            &&& same_elsewhere(state, step.state, task.call, target.channel_id)
        }),
{
    let step = task.step(
        state,
        incoming::StageView::EarlyMedia {
            decision: Some(incoming::RouteView::Connect { target }),
        },
        IncomingEvent::Elapsed,
        sounds,
        now,
    );
    let last = step.actions.len() - 1;
    assert(step.actions[last] == step.actions.last());
}

/// The same holds of a call that waited for a bridge which was then given up.
pub proof fn law_waiting_call_creates_the_bridge(
    task: incoming::IncomingView,
    state: coordinator::CoordView,
    target: incoming::TargetView,
    sounds: incoming::SoundsView,
    now: Instant,
)
    requires
        call_is_there(state, task.call, task.instance),
        !state.bridges.bridges.contains_key(target.channel_id.raw),
        !state.bridges.pending.contains(target.channel_id.raw),
    ensures
        ({
            let step = task.step(
                state,
                incoming::StageView::WaitingForBridge { target },
                IncomingEvent::BridgeWoken,
                sounds,
                now,
            );
            &&& step.actions.len() == 1
            &&& step.actions[0] == (action::ActionView::Connect {
                bridge_id: "bridge_"@ + text::decimal(target.channel_id.raw as nat),
                guild_id: target.guild_id,
                channel_id: target.channel_id,
            })
            &&& step.stage == (incoming::StageView::Connecting {
                target,
                leased: Some(target.channel_id),
            })
            &&& step.state.bridges.pending.contains(target.channel_id.raw)
            &&& step.state.calls == state.calls
            &&& same_elsewhere(state, step.state, task.call, target.channel_id)
        }),
{
}

/// A call waits where another one creates the bridge of its channel, and asks for
/// nothing but the connecting sound meanwhile.
pub proof fn law_call_waits_for_a_pending_bridge(
    task: incoming::IncomingView,
    state: coordinator::CoordView,
    target: incoming::TargetView,
    sounds: incoming::SoundsView,
    now: Instant,
)
    requires
        call_is_there(state, task.call, task.instance),
        !state.bridges.bridges.contains_key(target.channel_id.raw),
        state.bridges.pending.contains(target.channel_id.raw),
        forall|other: u64| #[trigger]
            state.bridges.bridges.contains_key(other) ==> state.bridges.bridges[other].guild_id
                != target.guild_id,
    ensures
        ({
            let step = task.step(
                state,
                incoming::StageView::EarlyMedia {
                    decision: Some(incoming::RouteView::Connect { target }),
                },
                IncomingEvent::Elapsed,
                sounds,
                now,
            );
            &&& step.stage == (incoming::StageView::WaitingForBridge { target })
            &&& step.state == state
            &&& action::never_happens(step.actions, |a: action::ActionView| a is Connect)
            &&& action::never_happens(step.actions, |a: action::ActionView| action::answers(a))
            &&& action::never_happens(step.actions, |a: action::ActionView| action::hangs_up(a))
            &&& task.step(
                state,
                step.stage,
                IncomingEvent::BridgeWoken,
                sounds,
                now,
            ).stage == step.stage
        }),
{
}

/// What a call on its channel asks for: its audio is registered with the channel,
/// the backend is told who called where, and the call is answered once; only then
/// it hears that it is connected. It is not hung up.
pub open spec fn joins(
    actions: Seq<action::ActionView>,
    task: incoming::IncomingView,
    target: incoming::TargetView,
    join: Option<Seq<i16>>,
    first: int,
) -> bool {
    &&& actions.len() >= first + 3
    &&& actions[first] == (action::ActionView::RegisterCallChannel {
        call_id: task.call,
        channel_id: target.channel_id,
    })
    &&& actions[first + 1] matches action::ActionView::CallStarted { info }
    &&& info.sip_call_id == text::signed_decimal(task.call.raw as int)
    &&& info.user_id == target.user_id
    &&& info.guild_id == text::decimal(target.guild_id.raw as nat)
    &&& info.channel_id == text::decimal(target.channel_id.raw as nat)
    &&& info.extension == task.extension
    &&& actions[first + 2] == (action::ActionView::Sip {
        command: types::SipCommandView::Answer { call_id: task.call },
    })
    &&& action::happens_once(
        actions,
        action::ActionView::Sip { command: types::SipCommandView::Answer { call_id: task.call } },
        |a: action::ActionView| action::answers(a),
    )
    &&& action::never_happens(actions, |a: action::ActionView| action::hangs_up(a))
    &&& action::never_happens(actions, |a: action::ActionView| a is Disconnect)
    &&& action::never_happens(actions, |a: action::ActionView| a is Connect)
    &&& match join {
        Some(samples) => actions.len() > first + 3 && actions[first + 3]
            == (action::ActionView::Sip {
            command: types::SipCommandView::PlayDirectToCall { call_id: task.call, samples },
        }),
        None => action::never_happens(actions, |a: action::ActionView| action::plays(a)),
    }
}

/// Whether a call is known with the channel, the guild and the user of its
/// decision. Its instance and its tracking id are as before.
pub open spec fn is_on_channel(
    before: coordinator::CoordView,
    after: coordinator::CoordView,
    call: CallId,
    target: incoming::TargetView,
) -> bool {
    &&& after.calls.calls.contains_key(call.raw)
    &&& ({
        let info: calls::CallView = after.calls.calls[call.raw];
        &&& info.instance_id == before.calls.calls[call.raw].instance_id
        &&& info.tracking_id == before.calls.calls[call.raw].tracking_id
        &&& info.channel_id == Some(target.channel_id)
        &&& info.guild_id == Some(target.guild_id)
        &&& info.user_id == Some(target.user_id)
    })
}

/// Once Discord is connected, the call stands on a new bridge: the bridge is that
/// of the decision's channel, in its guild, with its token, over the connection
/// that was made, and the call is the only one on it. The lease is given back.
pub proof fn law_connection_carries_the_call(
    task: incoming::IncomingView,
    state: coordinator::CoordView,
    target: incoming::TargetView,
    connection: u64,
    sounds: incoming::SoundsView,
    now: Instant,
)
    requires
        call_is_there(state, task.call, task.instance),
    ensures
        ({
            let step = task.step(
                state,
                incoming::StageView::Connecting { target, leased: Some(target.channel_id) },
                IncomingEvent::Connected { connection: Some(connection) },
                sounds,
                now,
            );
            let bridge = step.state.bridges.bridges[target.channel_id.raw];
            &&& step.state.bridges.bridges.contains_key(target.channel_id.raw)
            &&& bridge.guild_id == target.guild_id
            &&& bridge.connection == connection
            &&& bridge.bot_token == target.bot_token
            &&& forall|id: i32| bridge.calls.contains(id) <==> id == task.call.raw
            &&& bridge.created_at == now
            &&& bridge.last_call_time == now
            &&& bridge.reconnect_attempts == 0
            &&& bridge.last_reconnect_at is None
            &&& !step.state.bridges.pending.contains(target.channel_id.raw)
            &&& is_on_channel(state, step.state, task.call, target)
            &&& same_elsewhere(state, step.state, task.call, target.channel_id)
            &&& step.actions[0] == (action::ActionView::SetupRings {
                channel_id: target.channel_id,
            })
            &&& joins(step.actions, task, target, sounds.discord_join, 1)
            &&& step.actions.len() == (if sounds.discord_join is Some {
                6int
            } else {
                5int
            })
            &&& step.actions.last() == (action::ActionView::WakeWaiters {
                channel_id: target.channel_id,
            })
            &&& step.stage is Done
        }),
{
    let step = task.step(
        state,
        incoming::StageView::Connecting { target, leased: Some(target.channel_id) },
        IncomingEvent::Connected { connection: Some(connection) },
        sounds,
        now,
    );
    assert(step.actions[3] == (action::ActionView::Sip {
        command: types::SipCommandView::Answer { call_id: task.call },
    }));
}

/// A connection that could not be made leaves no bridge, and the caller is told
/// of an unknown error; one that came too late for its call is given up.
pub proof fn law_missing_party_leaves_no_bridge(
    task: incoming::IncomingView,
    state: coordinator::CoordView,
    target: incoming::TargetView,
    connection: Option<u64>,
    sounds: incoming::SoundsView,
    now: Instant,
)
    requires
        connection is None || !call_is_there(state, task.call, task.instance),
    ensures
        ({
            let step = task.step(
                state,
                incoming::StageView::Connecting { target, leased: Some(target.channel_id) },
                IncomingEvent::Connected { connection },
                sounds,
                now,
            );
            &&& step.state.bridges.bridges == state.bridges.bridges
            &&& step.state.calls == state.calls
            &&& connection matches Some(key) ==> action::happens_once(
                step.actions,
                action::ActionView::Disconnect { connection: key },
                |a: action::ActionView| a is Disconnect,
            )
            &&& connection is Some ==> step.actions.len() == 2 && step.actions[1] == (
            action::ActionView::WakeWaiters { channel_id: target.channel_id })
            &&& connection is None && call_is_there(state, task.call, task.instance)
                ==> step.stage == (incoming::StageView::ErrorAnswering {
                error: CallError::Unknown,
                leased: Some(target.channel_id),
            }) && step.actions.len() == 1 && step.actions[0] == (action::ActionView::Sip {
                command: types::SipCommandView::Answer { call_id: task.call },
            })
            &&& connection is None && !call_is_there(state, task.call, task.instance)
                ==> step.stage is Done && step.actions.len() == 1
            &&& step.state.fax == state.fax
            &&& step.state.outbound == state.outbound
        }),
{
    let step = task.step(
        state,
        incoming::StageView::Connecting { target, leased: Some(target.channel_id) },
        IncomingEvent::Connected { connection },
        sounds,
        now,
    );
    if let Some(key) = connection {
        assert(step.actions[0] == (action::ActionView::Disconnect { connection: key }));
    }
}

/// A call whose channel has a bridge joins it, and no second connection is made:
/// the bridge is as before but for the call on it and the time of its last call.
pub proof fn law_call_joins_the_bridge_of_its_channel(
    task: incoming::IncomingView,
    state: coordinator::CoordView,
    target: incoming::TargetView,
    sounds: incoming::SoundsView,
    now: Instant,
)
    requires
        call_is_there(state, task.call, task.instance),
        state.bridges.bridges.contains_key(target.channel_id.raw),
        forall|other: u64| #[trigger]
            state.bridges.bridges.contains_key(other) && other != target.channel_id.raw
                ==> state.bridges.bridges[other].guild_id != target.guild_id,
    ensures
        ({
            let stage = incoming::StageView::EarlyMedia {
                decision: Some(incoming::RouteView::Connect { target }),
            };
            let step = task.step(state, stage, IncomingEvent::Elapsed, sounds, now);
            let woken = task.step(
                state,
                incoming::StageView::WaitingForBridge { target },
                IncomingEvent::BridgeWoken,
                sounds,
                now,
            );
            let before = state.bridges.bridges[target.channel_id.raw];
            let bridge = step.state.bridges.bridges[target.channel_id.raw];
            let first: int = if sounds.connecting is Some {
                1
            } else {
                0
            };
            &&& step.state.bridges.bridges.contains_key(target.channel_id.raw)
            &&& bridge.guild_id == before.guild_id
            &&& bridge.connection == before.connection
            &&& bridge.bot_token == before.bot_token
            &&& bridge.created_at == before.created_at
            &&& bridge.reconnect_attempts == before.reconnect_attempts
            &&& bridge.last_reconnect_at == before.last_reconnect_at
            &&& bridge.last_call_time == now
            &&& forall|id: i32|
                bridge.calls.contains(id) <==> before.calls.contains(id) || id == task.call.raw
            &&& step.state.bridges.pending == state.bridges.pending
            &&& is_on_channel(state, step.state, task.call, target)
            &&& same_elsewhere(state, step.state, task.call, target.channel_id)
            &&& joins(step.actions, task, target, sounds.discord_join, first)
            &&& step.actions.len() == first + (if sounds.discord_join is Some {
                4int
            } else {
                3int
            })
            &&& first == 1 ==> step.actions[0] == (action::ActionView::Sip {
                command: types::SipCommandView::StartConnectingLoop {
                    call_id: task.call,
                    samples: sounds.connecting->0,
                },
            })
            &&& step.stage is Done
            &&& !state.bridges.pending.contains(target.channel_id.raw) ==> woken.state
                == step.state && joins(woken.actions, task, target, sounds.discord_join, 0)
        }),
{
    let first: int = if sounds.connecting is Some {
        1
    } else {
        0
    };
    let stage = incoming::StageView::EarlyMedia {
        decision: Some(incoming::RouteView::Connect { target }),
    };
    let step = task.step(state, stage, IncomingEvent::Elapsed, sounds, now);
    let woken = task.step(
        state,
        incoming::StageView::WaitingForBridge { target },
        IncomingEvent::BridgeWoken,
        sounds,
        now,
    );
    let answer = action::ActionView::Sip {
        command: types::SipCommandView::Answer { call_id: task.call },
    };
    assert(step.actions[first + 2] == answer);
    if !state.bridges.pending.contains(target.channel_id.raw) {
        assert(woken.actions[2] == answer);
    }
}

/// A guild whose bot is in another channel is busy: the caller is told so, and
/// neither a connection nor a bridge is touched.
pub proof fn law_busy_guild_is_told(
    task: incoming::IncomingView,
    state: coordinator::CoordView,
    target: incoming::TargetView,
    other: Snowflake,
    sounds: incoming::SoundsView,
    now: Instant,
)
    requires
        call_is_there(state, task.call, task.instance),
        other != target.channel_id,
        state.bridges.bridges.contains_key(other.raw),
        state.bridges.bridges[other.raw].guild_id == target.guild_id,
    ensures
        ({
            let step = task.step(
                state,
                incoming::StageView::EarlyMedia {
                    decision: Some(incoming::RouteView::Connect { target }),
                },
                IncomingEvent::Elapsed,
                sounds,
                now,
            );
            &&& step.state == state
            &&& step.stage == (incoming::StageView::ErrorAnswering {
                error: CallError::ServerBusy,
                leased: None,
            })
            &&& action::never_happens(step.actions, |a: action::ActionView| a is Connect)
            &&& action::never_happens(step.actions, |a: action::ActionView| a is Disconnect)
        }),
{
    assert(other.raw != target.channel_id.raw);
    assert(state.bridges.conflicts(target.guild_id, Some(target.channel_id), other.raw));
}

/// A redirected caller is sent to the domain and the extension of the decision; a
/// caller with invalid credentials is hung up. Either way the call is gone, and
/// it is neither answered nor connected.
pub proof fn law_turned_away_call_is_gone(
    task: incoming::IncomingView,
    state: coordinator::CoordView,
    domain: Seq<char>,
    extension: Seq<char>,
    sounds: incoming::SoundsView,
    now: Instant,
    other: i32,
)
    requires
        call_is_there(state, task.call, task.instance),
    ensures
        ({
            let redirected = task.step(
                state,
                incoming::StageView::EarlyMedia {
                    decision: Some(incoming::RouteView::Redirect { domain, extension }),
                },
                IncomingEvent::Elapsed,
                sounds,
                now,
            );
            let rejected = task.step(
                state,
                incoming::StageView::EarlyMedia {
                    decision: Some(incoming::RouteView::RejectInvalidCredentials),
                },
                IncomingEvent::Elapsed,
                sounds,
                now,
            );
            &&& action::happens_once(
                redirected.actions,
                action::ActionView::Sip {
                    command: types::SipCommandView::Redirect {
                        call_id: task.call,
                        domain,
                        extension,
                    },
                },
                |a: action::ActionView|
                    a matches action::ActionView::Sip { command } && command is Redirect,
            )
            &&& action::never_happens(redirected.actions, |a: action::ActionView|
                action::hangs_up(a) || action::answers(a) || a is Connect)
            &&& action::happens_once(
                rejected.actions,
                action::ActionView::Sip {
                    command: types::SipCommandView::Hangup { call_id: task.call },
                },
                |a: action::ActionView| action::hangs_up(a),
            )
            &&& action::never_happens(rejected.actions, |a: action::ActionView|
                action::answers(a) || a is Connect)
            &&& sounds.connecting is None ==> redirected.actions.len() == 1
                && rejected.actions.len() == 1
            &&& sounds.connecting is Some ==> redirected.actions.len() == 2
                && rejected.actions.len() == 2
            &&& redirected.stage is Done
            &&& rejected.stage is Done
            &&& redirected.state == rejected.state
            &&& !redirected.state.calls.calls.contains_key(task.call.raw)
            &&& other != task.call.raw ==> (redirected.state.calls.calls.contains_key(other)
                <==> state.calls.calls.contains_key(other)) && redirected.state.calls.calls[other]
                == state.calls.calls[other]
            &&& redirected.state.bridges == state.bridges
            &&& redirected.state.fax == state.fax
            &&& redirected.state.outbound == state.outbound
        }),
{
    let redirected = task.step(
        state,
        incoming::StageView::EarlyMedia {
            decision: Some(incoming::RouteView::Redirect { domain, extension }),
        },
        IncomingEvent::Elapsed,
        sounds,
        now,
    );
    let rejected = task.step(
        state,
        incoming::StageView::EarlyMedia {
            decision: Some(incoming::RouteView::RejectInvalidCredentials),
        },
        IncomingEvent::Elapsed,
        sounds,
        now,
    );
    let n = redirected.actions.len() - 1;
    assert(redirected.actions[n] is Sip);
    assert(rejected.actions[n] is Sip);
}

/// An error is told in full and then the call is hung up: it is answered, hears
/// the sound of the error for at least its length, and is hung up and gone
/// afterwards. Without a sound it is hung up at once. A routing that took too long
/// counts as an unknown error.
pub proof fn law_error_is_told_before_the_hangup(
    task: incoming::IncomingView,
    state: coordinator::CoordView,
    error: CallError,
    target: incoming::TargetView,
    sounds: incoming::SoundsView,
    now: Instant,
)
    requires
        call_is_there(state, task.call, task.instance),
        sounds.error matches Some(samples) ==> samples.len() * 1000 <= u64::MAX,
    ensures
        ({
            let told = task.step(
                state,
                incoming::StageView::EarlyMedia {
                    decision: Some(incoming::RouteView::RejectWithError { error }),
                },
                IncomingEvent::Elapsed,
                sounds,
                now,
            );
            let late = task.step(
                state,
                incoming::StageView::EarlyMedia { decision: None },
                IncomingEvent::Elapsed,
                sounds,
                now,
            );
            let stuck = task.step(
                state,
                incoming::StageView::WaitingForBridge { target },
                IncomingEvent::Elapsed,
                sounds,
                now,
            );
            let playing = task.step(state, told.stage, IncomingEvent::Elapsed, sounds, now);
            let ended = task.step(
                playing.state,
                playing.stage,
                IncomingEvent::Elapsed,
                sounds,
                now,
            );
            let last = if sounds.error is Some {
                ended
            } else {
                playing
            };
            &&& told.stage == (incoming::StageView::ErrorAnswering { error, leased: None })
            &&& late.stage == (incoming::StageView::ErrorAnswering {
                error: CallError::Unknown,
                leased: None,
            })
            &&& stuck.stage == late.stage
            &&& told.state == state
            &&& told.actions.last() == (action::ActionView::Sip {
                command: types::SipCommandView::Answer { call_id: task.call },
            })
            &&& sounds.error matches Some(samples) ==> {
                &&& playing.actions.len() == 1
                &&& playing.actions[0] == (action::ActionView::Sip {
                    command: types::SipCommandView::PlayDirectToCall {
                        call_id: task.call,
                        samples,
                    },
                })
                &&& playing.state == state
                &&& playing.stage matches incoming::StageView::ErrorPlaying { wait_ms, leased }
                &&& leased is None
                &&& wait_ms * 16 >= samples.len()
                &&& wait_ms * 16 <= samples.len() + 200 * 16
            }
            &&& last.actions.len() == 1
            &&& last.actions[0] == (action::ActionView::Sip {
                command: types::SipCommandView::Hangup { call_id: task.call },
            })
            &&& last.stage is Done
            &&& !last.state.calls.calls.contains_key(task.call.raw)
            &&& last.state.bridges == state.bridges
        }),
{
}

/// A fax goes to the text channel of its decision: the session is created with
/// what the decision says, and the call is not answered before.
pub proof fn law_fax_goes_to_its_text_channel(
    task: incoming::IncomingView,
    state: coordinator::CoordView,
    text_channel_id: Snowflake,
    guild_id: Snowflake,
    user_id: String,
    bot_token: String,
    sounds: incoming::SoundsView,
    now: Instant,
)
    requires
        call_is_there(state, task.call, task.instance),
    ensures
        ({
            let decision = Some(
                RouteDecision::ConnectFax { text_channel_id, guild_id, user_id, bot_token },
            );
            let step = task.step(
                state,
                incoming::StageView::Routing,
                IncomingEvent::Routed { decision },
                sounds,
                now,
            );
            &&& step.state == state
            &&& step.stage is FaxCreating
            &&& step.actions.len() == 1
            &&& step.actions[0] matches action::ActionView::CreateFax {
                call_id,
                text_channel_id: text_channel,
                guild_id: guild,
                user_id: user,
                bot_token: token,
            }
            &&& call_id == task.call
            &&& text_channel == text_channel_id
            &&& guild == guild_id
            &&& user == user_id@
            &&& token == bot_token@
        }),
{
}

/// A fax call that stays goes through its steps with its own session: answered,
/// announced, given its port and its decoder, in this order.
pub proof fn law_fax_call_is_received(
    task: incoming::IncomingView,
    state: coordinator::CoordView,
    session: u64,
    created: bool,
    uses_t38: bool,
    sounds: incoming::SoundsView,
    now: Instant,
)
    requires
        call_is_there(state, task.call, task.instance),
        !state.fax.sessions.contains_key(task.call.raw),
    ensures
        ({
            let made = task.step(
                state,
                incoming::StageView::FaxCreating,
                IncomingEvent::FaxCreated { created: Some(session) },
                sounds,
                now,
            );
            let answered = task.step(
                made.state,
                made.stage,
                IncomingEvent::AnswerQueued { queued: true },
                sounds,
                now,
            );
            let posted = task.step(
                answered.state,
                answered.stage,
                IncomingEvent::Posted { posted: true },
                sounds,
                now,
            );
            let settled = task.step(
                posted.state,
                posted.stage,
                IncomingEvent::Elapsed,
                sounds,
                now,
            );
            let started = task.step(
                settled.state,
                settled.stage,
                IncomingEvent::FaxPort { outcome: FaxPortOutcome::Tried { created, uses_t38 } },
                sounds,
                now,
            );
            let skipped = task.step(
                settled.state,
                settled.stage,
                IncomingEvent::FaxPort { outcome: FaxPortOutcome::Skipped },
                sounds,
                now,
            );
            &&& made.state.fax.sessions.contains_key(task.call.raw)
            &&& made.state.fax.sessions[task.call.raw].session == session
            &&& made.state.fax.sessions[task.call.raw].instance_id == task.instance
            &&& made.state.calls == state.calls
            &&& made.state.bridges == state.bridges
            &&& made.actions == seq![
                action::ActionView::Sip {
                    command: types::SipCommandView::Answer { call_id: task.call },
                },
            ]
            &&& answered.actions == seq![action::ActionView::PostReceiving { session }]
            &&& posted.actions.len() == 0
            &&& settled.actions == seq![
                action::ActionView::CreateFaxPort { call_id: task.call, session },
            ]
            &&& started.actions == (if uses_t38 {
                seq![action::ActionView::RemoveFaxPort { call_id: task.call }]
            } else {
                seq![
                    action::ActionView::StartFaxAudio {
                        call_id: task.call,
                        session,
                        has_port: created,
                    },
                ]
            })
            &&& skipped.actions.len() == 0
            &&& started.state == made.state
            &&& started.stage is Done
            &&& skipped.stage is Done
        }),
{
    let made = task.step(
        state,
        incoming::StageView::FaxCreating,
        IncomingEvent::FaxCreated { created: Some(session) },
        sounds,
        now,
    );
    assert(made.actions =~= seq![
        action::ActionView::Sip { command: types::SipCommandView::Answer { call_id: task.call } },
    ]);
}

/// A fax call whose announcement fails is hung up, and its session ends with it:
/// its tasks are cancelled and its port is removed. So does the session where the
/// answer could not be queued, or the call is gone.
pub proof fn law_failed_fax_call_ends_its_session(
    task: incoming::IncomingView,
    state: coordinator::CoordView,
    session: u64,
    sounds: incoming::SoundsView,
    now: Instant,
)
    requires
        state.fax.sessions.contains_key(task.call.raw),
        state.fax.sessions[task.call.raw].session == session,
        state.fax.sessions[task.call.raw].instance_id == task.instance,
    ensures
        ({
            let unqueued = task.step(
                state,
                incoming::StageView::FaxAnswering { session },
                IncomingEvent::AnswerQueued { queued: false },
                sounds,
                now,
            );
            let unposted = task.step(
                state,
                incoming::StageView::FaxPosting { session },
                IncomingEvent::Posted { posted: false },
                sounds,
                now,
            );
            let stale = task.step(
                state,
                incoming::StageView::FaxSettling { session },
                IncomingEvent::Elapsed,
                sounds,
                now,
            );
            let cleanup = seq![
                action::ActionView::CancelFax { session },
                action::ActionView::RemoveFaxPort { call_id: task.call },
            ];
            &&& unqueued.actions =~= cleanup
            &&& !unqueued.state.fax.sessions.contains_key(task.call.raw)
            &&& unposted.actions =~= (if call_is_there(state, task.call, task.instance) {
                seq![
                    action::ActionView::Sip {
                        command: types::SipCommandView::Hangup { call_id: task.call },
                    },
                ] + cleanup
            } else {
                cleanup
            })
            &&& !unposted.state.fax.sessions.contains_key(task.call.raw)
            &&& !call_is_there(unqueued.state, task.call, task.instance)
            &&& !call_is_there(unposted.state, task.call, task.instance)
            &&& !call_is_there(state, task.call, task.instance) ==> stale.actions =~= cleanup
                && !stale.state.fax.sessions.contains_key(task.call.raw)
        }),
{
}

/// Every step of `advance` is the step of its call: with the number, the instance
/// and the extension of the call, on the state, the stage and the sounds that it
/// was given.
pub proof fn law_advance_is_a_step_of_its_call(
    task: &IncomingCall,
    state: &mut BridgeCoordinator,
    stage: IncomingStage,
    event: IncomingEvent,
    sounds: CallSounds,
    now: Instant,
    step: IncomingStep,
)
    requires
        call_ensures(IncomingCall::advance, (task, state, stage, event, sounds, now), step),
    ensures
        ({
            let seen = (incoming::IncomingView {
                call: task.call_id,
                instance: task.instance_id,
                extension: task.extension@,
            }).step(old(state)@, stage@, event, sounds@, now);
            &&& final(state)@ == seen.state
            &&& step.stage@ == seen.stage
            &&& action::action_views(step.actions@) == seen.actions
        }),
{
}

/// The bot joins the voice channel that a call is routed to. After early media,
/// where neither a bridge nor a lease is in the way, `advance` asks for one
/// connection to Discord: to the guild and the channel of the decision.
pub proof fn law_bot_joins_the_channel_of_the_decision(
    task: &IncomingCall,
    state: &mut BridgeCoordinator,
    channel_id: Snowflake,
    guild_id: Snowflake,
    user_id: String,
    bot_token: String,
    sounds: CallSounds,
    now: Instant,
    step: IncomingStep,
)
    requires
        call_ensures(
            IncomingCall::advance,
            (
                task,
                state,
                IncomingStage::EarlyMedia {
                    decision: Some(
                        RouteDecision::Connect { channel_id, guild_id, user_id, bot_token },
                    ),
                },
                IncomingEvent::Elapsed,
                sounds,
                now,
            ),
            step,
        ),
        call_is_there(old(state)@, task.call_id, task.instance_id),
        way_is_free(old(state)@, guild_id, channel_id),
    ensures
        ({
            let actions = step.actions@;
            &&& actions.len() > 0
            &&& actions.last() matches Action::Connect { bridge_id, guild_id: g, channel_id: c }
            &&& g == guild_id
            &&& c == channel_id
            &&& bridge_id@ == "bridge_"@ + text::decimal(channel_id.raw as nat)
            &&& forall|k: int|
                0 <= k < actions.len() - 1 ==> !((#[trigger] actions[k]) is Connect)
            &&& step.stage matches IncomingStage::Connecting { target, own_lease }
            &&& target.channel_id == channel_id
            &&& target.guild_id == guild_id
            &&& target.user_id@ == user_id@
            &&& target.bot_token@ == bot_token@
            &&& own_lease.channel_id == channel_id
            &&& final(state)@.bridges.pending.contains(channel_id.raw)
            &&& final(state)@.calls == old(state)@.calls
        }),
{
    let seen = action::action_views(step.actions@);
    assert(seen.len() == step.actions@.len());
    assert(seen.last() == step.actions@.last()@);
    assert forall|k: int| 0 <= k < step.actions@.len() - 1 implies !(
    (#[trigger] step.actions@[k]) is Connect) by {
        assert(seen[k] == step.actions@[k]@);
    }
}

/// Once Discord is connected, the bridge of the decision's channel stands over
/// that connection, and the call, which is on it, is answered.
pub proof fn law_connected_call_is_on_the_bridge(
    task: &IncomingCall,
    state: &mut BridgeCoordinator,
    target: VoiceTarget,
    own_lease: crate::call::bridges::PendingBridgeLease,
    connection: u64,
    sounds: CallSounds,
    now: Instant,
    step: IncomingStep,
)
    requires
        call_ensures(
            IncomingCall::advance,
            (
                task,
                state,
                IncomingStage::Connecting { target, own_lease },
                IncomingEvent::Connected { connection: Some(connection) },
                sounds,
                now,
            ),
            step,
        ),
        call_is_there(old(state)@, task.call_id, task.instance_id),
    ensures
        ({
            let bridge = final(state)@.bridges.bridges[target.channel_id.raw];
            let info = final(state)@.calls.calls[task.call_id.raw];
            &&& final(state)@.bridges.bridges.contains_key(target.channel_id.raw)
            &&& bridge.connection == connection
            &&& bridge.guild_id == target.guild_id
            &&& bridge.bot_token == target.bot_token@
            &&& bridge.calls.contains(task.call_id.raw)
            &&& !final(state)@.bridges.pending.contains(own_lease.channel_id.raw)
            &&& info.channel_id == Some(target.channel_id)
            &&& info.guild_id == Some(target.guild_id)
            &&& info.user_id == Some(target.user_id@)
            &&& info.instance_id == task.instance_id
            &&& step.actions@.len() >= 4
            &&& step.actions@[0] == (Action::SetupRings { channel_id: target.channel_id })
            &&& step.actions@[1] == (Action::RegisterCallChannel {
                call_id: task.call_id,
                channel_id: target.channel_id,
            })
            &&& step.actions@[2] matches Action::CallStarted { info: told }
            &&& told.user_id@ == target.user_id@
            &&& told.guild_id@ == text::decimal(target.guild_id.raw as nat)
            &&& told.channel_id@ == text::decimal(target.channel_id.raw as nat)
            &&& told.sip_call_id@ == text::signed_decimal(task.call_id.raw as int)
            &&& told.extension@ == task.extension@
            &&& step.actions@[3] == (Action::Sip {
                command: SipCommand::Answer { call_id: task.call_id },
            })
        }),
{
    let seen = action::action_views(step.actions@);
    assert(seen.len() == step.actions@.len());
    assert(seen[0] == step.actions@[0]@);
    assert(seen[1] == step.actions@[1]@);
    assert(seen[2] == step.actions@[2]@);
    assert(seen[3] == step.actions@[3]@);
}

/// What is seen of a route decision is what it says.
pub proof fn law_decision_is_seen_as_it_is(decision: RouteDecision)
    ensures
        match decision {
            RouteDecision::Connect { channel_id, guild_id, user_id, bot_token } => {
                &&& incoming::route_view(decision) matches incoming::RouteView::Connect { target }
                &&& target.channel_id == channel_id
                &&& target.guild_id == guild_id
                &&& target.user_id == user_id@
                &&& target.bot_token == bot_token@
            },
            RouteDecision::ConnectFax { text_channel_id, guild_id, user_id, bot_token } => {
                &&& incoming::route_view(decision) matches incoming::RouteView::ConnectFax {
                    text_channel_id: t,
                    guild_id: g,
                    user_id: u,
                    bot_token: b,
                }
                &&& t == text_channel_id
                &&& g == guild_id
                &&& u == user_id@
                &&& b == bot_token@
            },
            RouteDecision::Redirect { domain, extension } => incoming::route_view(decision)
                == (incoming::RouteView::Redirect { domain: domain@, extension: extension@ }),
            RouteDecision::RejectInvalidCredentials => incoming::route_view(
                decision,
            ) is RejectInvalidCredentials,
            RouteDecision::RejectWithError { error } => incoming::route_view(decision) == (
            incoming::RouteView::RejectWithError { error }),
        },
{
}

/// What is seen of a started call is what is told of it.
pub proof fn law_started_call_is_seen_as_it_is(info: routing::CallStartedInfo)
    ensures
        info@.sip_call_id == info.sip_call_id@,
        info@.user_id == info.user_id@,
        info@.guild_id == info.guild_id@,
        info@.channel_id == info.channel_id@,
        info@.extension == info.extension@,
{
}

/// A stage waits for the time that it is meant to: 100 ms after a 183 response, 200
/// ms after an answer that is followed by an error, the length of a sound, 15 s for
/// a bridge that another call creates, and half a second for the media of a fax
/// call. The others wait for their event.
pub proof fn law_stage_waits_for_its_time(stage: &IncomingStage, ms: Option<u64>)
    requires
        call_ensures(IncomingStage::wait_ms, (stage,), ms),
    ensures
        match *stage {
            IncomingStage::EarlyMedia { .. } => ms == Some(100u64),
            IncomingStage::ErrorAnswering { .. } => ms == Some(200u64),
            IncomingStage::ErrorPlaying { wait_ms, .. } => ms == Some(wait_ms),
            IncomingStage::WaitingForBridge { .. } => ms == Some(15_000u64),
            IncomingStage::FaxSettling { .. } => ms == Some(500u64),
            _ => ms is None,
        },
{
}

/// A call that ended while it was routed, or while it waited, asks for nothing more
/// and changes nothing.
pub proof fn law_ended_call_asks_for_nothing(
    task: incoming::IncomingView,
    state: coordinator::CoordView,
    decision: Option<RouteDecision>,
    routed: Option<incoming::RouteView>,
    target: incoming::TargetView,
    sounds: incoming::SoundsView,
    now: Instant,
)
    requires
        !call_is_there(state, task.call, task.instance),
    ensures
        ({
            let first = task.step(
                state,
                incoming::StageView::Routing,
                IncomingEvent::Routed { decision },
                sounds,
                now,
            );
            let second = task.step(
                state,
                incoming::StageView::EarlyMedia { decision: routed },
                IncomingEvent::Elapsed,
                sounds,
                now,
            );
            let third = task.step(
                state,
                incoming::StageView::WaitingForBridge { target },
                IncomingEvent::BridgeWoken,
                sounds,
                now,
            );
            let fourth = task.step(
                state,
                incoming::StageView::WaitingForBridge { target },
                IncomingEvent::Elapsed,
                sounds,
                now,
            );
            &&& first.state == state && first.actions.len() == 0 && first.stage is Done
            &&& second.state == state && second.actions.len() == 0 && second.stage is Done
            &&& third.state == state && third.actions.len() == 0 && third.stage is Done
            &&& fourth.state == state && fourth.actions.len() == 0 && fourth.stage is Done
        }),
{
}

/// Whatever becomes of a call that creates a bridge, its channel is free again at
/// the end, and those who wait for it are woken: when the connection came too late,
/// and when the caller was told of an error instead, or was gone by then.
pub proof fn law_channel_is_free_at_the_end(
    task: incoming::IncomingView,
    state: coordinator::CoordView,
    target: incoming::TargetView,
    connection: Option<u64>,
    error: CallError,
    wait_ms: u64,
    channel: Snowflake,
    sounds: incoming::SoundsView,
    now: Instant,
    other: u64,
)
    ensures
        ({
            let late = task.step(
                state,
                incoming::StageView::Connecting { target, leased: Some(target.channel_id) },
                IncomingEvent::Connected { connection },
                sounds,
                now,
            );
            let told = task.step(
                state,
                incoming::StageView::ErrorPlaying { wait_ms, leased: Some(channel) },
                IncomingEvent::Elapsed,
                sounds,
                now,
            );
            let silent = task.step(
                state,
                incoming::StageView::ErrorAnswering { error, leased: Some(channel) },
                IncomingEvent::Elapsed,
                sounds,
                now,
            );
            let there = call_is_there(state, task.call, task.instance);
            &&& !there ==> {
                &&& late.stage is Done
                &&& !late.state.bridges.pending.contains(target.channel_id.raw)
                &&& late.actions.last() == (action::ActionView::WakeWaiters {
                    channel_id: target.channel_id,
                })
                &&& silent.stage is Done
            }
            &&& !there || sounds.error is None ==> {
                &&& silent.stage is Done
                &&& !silent.state.bridges.pending.contains(channel.raw)
                &&& silent.actions.last() == (action::ActionView::WakeWaiters {
                    channel_id: channel,
                })
            }
            &&& there && sounds.error is Some ==> silent.state == state && silent.stage == (
            incoming::StageView::ErrorPlaying {
                wait_ms: (sounds.error->0.len() * 1000 / 16000 + 200) as u64,
                leased: Some(channel),
            })
            &&& told.stage is Done
            &&& !told.state.bridges.pending.contains(channel.raw)
            &&& told.actions.last() == (action::ActionView::WakeWaiters { channel_id: channel })
            &&& there ==> told.actions[0] == (action::ActionView::Sip {
                command: types::SipCommandView::Hangup { call_id: task.call },
            }) && !told.state.calls.calls.contains_key(task.call.raw)
            &&& !there ==> told.state.calls == state.calls && told.actions.len() == 1
            &&& told.state.bridges.bridges == state.bridges.bridges
            &&& other != channel.raw ==> (told.state.bridges.pending.contains(other)
                <==> state.bridges.pending.contains(other))
        }),
{
}

/// A fax session that could not be created ends its call; one that the call cannot
/// take leaves everything as it is.
pub proof fn law_fax_without_session_ends(
    task: incoming::IncomingView,
    state: coordinator::CoordView,
    session: u64,
    sounds: incoming::SoundsView,
    now: Instant,
    other: i32,
)
    ensures
        ({
            let none = task.step(
                state,
                incoming::StageView::FaxCreating,
                IncomingEvent::FaxCreated { created: None },
                sounds,
                now,
            );
            let late = task.step(
                state,
                incoming::StageView::FaxCreating,
                IncomingEvent::FaxCreated { created: Some(session) },
                sounds,
                now,
            );
            let there = call_is_there(state, task.call, task.instance);
            &&& none.stage is Done
            &&& none.actions.len() == 1
            &&& none.actions[0] == (action::ActionView::Sip {
                command: types::SipCommandView::Hangup { call_id: task.call },
            })
            &&& there ==> !none.state.calls.calls.contains_key(task.call.raw)
            &&& !there ==> none.state == state
            &&& other != task.call.raw ==> (none.state.calls.calls.contains_key(other)
                <==> state.calls.calls.contains_key(other)) && none.state.calls.calls[other]
                == state.calls.calls[other]
            &&& none.state.bridges == state.bridges
            &&& none.state.fax == state.fax
            &&& !there ==> late.state == state && late.actions.len() == 0 && late.stage is Done
        }),
{
}

/// An event that a stage does not wait for changes nothing and asks for nothing; a
/// call whose work is done stays so.
pub proof fn law_other_events_change_nothing(
    task: incoming::IncomingView,
    state: coordinator::CoordView,
    stage: incoming::StageView,
    event: IncomingEvent,
    sounds: incoming::SoundsView,
    now: Instant,
)
    requires
        match stage {
            incoming::StageView::Routing => !(event is Routed),
            incoming::StageView::EarlyMedia { .. } => !(event is Elapsed),
            incoming::StageView::ErrorAnswering { .. } => !(event is Elapsed),
            incoming::StageView::ErrorPlaying { .. } => !(event is Elapsed),
            incoming::StageView::WaitingForBridge { .. } => !(event is Elapsed) && !(
            event is BridgeWoken),
            incoming::StageView::Connecting { .. } => !(event is Connected),
            incoming::StageView::FaxCreating => !(event is FaxCreated),
            incoming::StageView::FaxAnswering { .. } => !(event is AnswerQueued),
            incoming::StageView::FaxPosting { .. } => !(event is Posted),
            incoming::StageView::FaxSettling { .. } => !(event is Elapsed),
            incoming::StageView::FaxPort { .. } => !(event is FaxPort),
            incoming::StageView::Done => true,
        },
    ensures
        ({
            let step = task.step(state, stage, event, sounds, now);
            &&& step.state == state
            &&& step.stage == stage
            &&& step.actions.len() == 0
        }),
{
}

/// What is seen of the sounds, of a target and of a call is what they are.
pub proof fn law_parts_of_a_call_are_seen_as_they_are(
    sounds: CallSounds,
    target: VoiceTarget,
    task: IncomingCall,
)
    ensures
        sounds.connecting is Some <==> sounds@.connecting is Some,
        sounds.connecting is Some ==> sounds@.connecting->0 == sounds.connecting->0@,
        sounds.discord_join is Some <==> sounds@.discord_join is Some,
        sounds.discord_join is Some ==> sounds@.discord_join->0 == sounds.discord_join->0@,
        sounds.error is Some <==> sounds@.error is Some,
        sounds.error is Some ==> sounds@.error->0 == sounds.error->0@,
        target@.channel_id == target.channel_id,
        target@.guild_id == target.guild_id,
        target@.user_id == target.user_id@,
        target@.bot_token == target.bot_token@,
        task@.call == task.call_id,
        task@.instance == task.instance_id,
        task@.extension == task.extension@,
{
}

/// What is seen of an action is what it asks for.
pub proof fn law_action_is_seen_as_it_is(a: Action)
    ensures
        match a {
            Action::Connect { bridge_id, guild_id, channel_id } => a@ == (
            action::ActionView::Connect { bridge_id: bridge_id@, guild_id, channel_id }),
            Action::Disconnect { connection } => a@ == (action::ActionView::Disconnect {
                connection,
            }),
            Action::RegisterCallChannel { call_id, channel_id } => a@ == (
            action::ActionView::RegisterCallChannel { call_id, channel_id }),
            Action::CreateFax { call_id, text_channel_id, guild_id, user_id, bot_token } => a@ == (
            action::ActionView::CreateFax {
                call_id,
                text_channel_id,
                guild_id,
                user_id: user_id@,
                bot_token: bot_token@,
            }),
            Action::SwitchToT38 { call_id, session, remote_ip, remote_port, local_port } => a@ == (
            action::ActionView::SwitchToT38 {
                call_id,
                session,
                remote_ip: remote_ip@,
                remote_port,
                local_port,
            }),
            Action::StartAnswered { tracking_id, call_id } => a@ == (
            action::ActionView::StartAnswered { tracking_id: tracking_id@, call_id }),
            Action::StartFaxAudio { call_id, session, has_port } => a@ == (
            action::ActionView::StartFaxAudio { call_id, session, has_port }),
            Action::FinishFax { call_id, session } => a@ == (action::ActionView::FinishFax {
                call_id,
                session,
            }),
            Action::Report { tracking_id, status } => a@ == (action::ActionView::Report {
                tracking_id: tracking_id@,
                status,
            }),
            Action::Sip { command } => a@ == (action::ActionView::Sip { command: command@ }),
            Action::CallStarted { info } => a@ == (action::ActionView::CallStarted {
                info: info@,
            }),
            Action::CallEnded { sip_call_id } => a@ == (action::ActionView::CallEnded {
                sip_call_id: sip_call_id@,
            }),
            _ => true,
        },
{
}

} // verus!
