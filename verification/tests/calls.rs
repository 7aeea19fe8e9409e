//! Tests of the calls and the bridges.

use sipcord_bridge::call::action::Action;
use sipcord_bridge::call::bridges::{
    wait_for_pending_bridge, BridgeWait, Bridges, ChannelBridge, PendingBridgeLease,
};
use sipcord_bridge::call::calls::{
    call_is_current, remove_call_if_current, take_outbound_call_legs, SipCallInfo, SipCalls,
};
use sipcord_bridge::call::coordinator::BridgeCoordinator;
use sipcord_bridge::call::failures::{classify_failure_reason, classify_failure_reasons};
use sipcord_bridge::call::fax_sessions::{
    fax_session_is_current, register_fax_session_if_current, remove_fax_session_if_current,
    FaxSessions,
};
use sipcord_bridge::call::health::{
    BridgeVerdict, HealthReading, ReconnectCandidate, ReconnectConfig,
};
use sipcord_bridge::call::incoming::{
    CallSounds, FaxPortOutcome, IncomingCall, IncomingEvent, IncomingStage, IncomingStep,
};
use sipcord_bridge::call::sip_events::extension_number;
use sipcord_bridge::call::sounds::{
    end_playback, play_extension_sound_and_hangup, playback_wait, queue_connected_call_audio,
    ExtensionSound,
};
use sipcord_bridge::ids::{CallId, Snowflake};
use sipcord_bridge::routing::{
    CallError, OutboundCallFailureReason, OutboundCallLegFailure, OutboundCallRequest,
    OutboundCallStatus, RouteDecision,
};
use sipcord_bridge::services::registrar::{
    RegisteredContact, Registrar, Registration, SipTransport, SourceAddr,
};
use sipcord_bridge::time::Instant;
use sipcord_bridge::transport::sip::fork_group;
use sipcord_bridge::transport::sip::fork_group::ForkGroups;
use sipcord_bridge::transport::sip::types::{DigestAuthParams, SipCommand, SipEvent};
use std::collections::HashSet;

fn at(secs: u64) -> Instant {
    Instant { nanos: secs * 1_000_000_000 }
}

fn info(instance_id: u64, tracking_id: Option<&str>) -> SipCallInfo {
    SipCallInfo {
        instance_id,
        channel_id: None,
        _user_id: None,
        _guild_id: None,
        tracking_id: tracking_id.map(str::to_string),
    }
}

fn bridge(guild: u64, connection: u64, calls: &[i32]) -> ChannelBridge {
    ChannelBridge {
        guild_id: Snowflake::new(guild),
        discord_connection: connection,
        sip_calls: calls.iter().copied().collect(),
        bot_token: "token".to_string(),
        last_call_time: at(100),
        created_at: at(100),
        reconnect_attempts: 0,
        last_reconnect_at: None,
    }
}

fn is_hangup(action: &Action, call: CallId) -> bool {
    matches!(action, Action::Sip { command: SipCommand::Hangup { call_id } } if *call_id == call)
}

fn is_answer(action: &Action, call: CallId) -> bool {
    matches!(action, Action::Sip { command: SipCommand::Answer { call_id } } if *call_id == call)
}

// Failures

#[test]
fn classifies_common_sip_failures() {
    assert_eq!(
        classify_failure_reason("486 Busy Here"),
        OutboundCallFailureReason::Busy
    );
    assert_eq!(
        classify_failure_reason("603 Decline"),
        OutboundCallFailureReason::Declined
    );
    assert_eq!(
        classify_failure_reason("408 Request Timeout"),
        OutboundCallFailureReason::NoAnswer
    );
    assert_eq!(
        classify_failure_reason("503 Service Unavailable"),
        OutboundCallFailureReason::Transport
    );
    assert_eq!(
        classify_failure_reason("503 Connection refused"),
        OutboundCallFailureReason::Transport
    );
    assert_eq!(
        classify_failure_reason("480 SIPS Required"),
        OutboundCallFailureReason::Transport
    );
}

#[test]
fn useful_failure_wins_across_forked_legs() {
    let failures = vec![
        OutboundCallLegFailure {
            sip_call_id: Some("11".into()),
            detail: "500 Internal Server Error".into(),
        },
        OutboundCallLegFailure {
            sip_call_id: Some("12".into()),
            detail: "486 Busy Here".into(),
        },
        OutboundCallLegFailure {
            sip_call_id: Some("13".into()),
            detail: "503 Connection refused".into(),
        },
    ];

    assert_eq!(
        classify_failure_reasons(&failures),
        OutboundCallFailureReason::Busy
    );
}

#[test]
fn other_failures_are_internal() {
    assert_eq!(
        classify_failure_reason("500 Internal Server Error"),
        OutboundCallFailureReason::Internal
    );
    assert_eq!(
        classify_failure_reasons(&Vec::new()),
        OutboundCallFailureReason::Internal
    );
    let failures = vec![
        OutboundCallLegFailure { sip_call_id: None, detail: "503 x".into() },
        OutboundCallLegFailure { sip_call_id: None, detail: "No Answer".into() },
    ];
    assert_eq!(
        classify_failure_reasons(&failures),
        OutboundCallFailureReason::NoAnswer
    );
}

// Sounds

#[test]
fn connected_call_is_answered_before_join_audio_is_queued() {
    let call_id = CallId::new(30_001);

    let actions = queue_connected_call_audio(call_id, Some(vec![1, 2, 3]));

    assert!(matches!(
        &actions[0],
        Action::Sip { command: SipCommand::Answer { call_id: actual } } if *actual == call_id
    ));
    assert!(matches!(
        &actions[1],
        Action::Sip { command: SipCommand::PlayDirectToCall { call_id: actual, samples } }
            if *actual == call_id && *samples == vec![1, 2, 3]
    ));
    assert!(actions.get(2).is_none());
}

#[test]
fn connected_call_without_join_sound_still_answers_exactly_once() {
    let call_id = CallId::new(30_002);

    let actions = queue_connected_call_audio(call_id, None);

    assert!(matches!(&actions[0], Action::Sip { command: SipCommand::Answer { .. } }));
    assert!(actions.get(1).is_none());
}

#[test]
fn playback_lasts_as_long_as_its_sound() {
    assert_eq!(playback_wait(16_000), 1_200);
    assert_eq!(playback_wait(0), 200);
}

#[test]
fn extension_sounds_play_in_their_own_way() {
    let call = CallId::new(5);
    let mut calls = SipCalls::new();
    calls.insert(call, info(1, None));
    let sound = |is_test_tone, path: Option<&str>, preloaded| ExtensionSound {
        is_test_tone,
        streaming_path: path.map(|path| path.as_bytes().to_vec()),
        preloaded,
    };
    let tone = play_extension_sound_and_hangup(&calls, call, 1, sound(true, None, None));
    assert!(is_answer(&tone.actions[0], call));
    assert!(matches!(
        &tone.actions[1],
        Action::Sip { command: SipCommand::StartTestTone { .. } }
    ));
    assert_eq!(tone.wait_ms, None);
    let stream = play_extension_sound_and_hangup(&calls, call, 1, sound(false, Some("a.wav"), None));
    assert!(matches!(
        &stream.actions[1],
        Action::Sip { command: SipCommand::StartStreaming { path, .. } } if path == b"a.wav"
    ));
    let loaded =
        play_extension_sound_and_hangup(&calls, call, 1, sound(false, None, Some((vec![7], 50))));
    assert_eq!(loaded.wait_ms, Some(250));
    let missing = play_extension_sound_and_hangup(&calls, call, 1, sound(false, None, None));
    assert!(is_hangup(&missing.actions[1], call));
    let late = play_extension_sound_and_hangup(&calls, call, 2, sound(true, None, None));
    assert!(late.actions.is_empty());
    assert!(is_hangup(&end_playback(&calls, call, 1).actions[0], call));
    assert!(end_playback(&calls, call, 2).actions.is_empty());
}

// Calls

#[test]
fn stale_async_task_cannot_remove_reused_pjsua_call_id() {
    let mut calls = SipCalls::new();
    let call_id = CallId::new(30_003);
    let old_instance = calls.next_call_instance_id();
    let new_instance = calls.next_call_instance_id();
    calls.insert(call_id, info(new_instance, None));

    assert!(!call_is_current(&calls, call_id, old_instance));
    assert!(remove_call_if_current(&mut calls, call_id, old_instance).is_none());
    assert!(call_is_current(&calls, call_id, new_instance));
    assert!(remove_call_if_current(&mut calls, call_id, new_instance).is_some());
    assert!(!calls.contains(call_id));
}

#[test]
fn many_stale_completions_cannot_delete_reused_call() {
    let mut calls = SipCalls::new();
    let call_id = CallId::new(30_004);
    let stale_instance = calls.next_call_instance_id();
    let current_instance = calls.next_call_instance_id();
    calls.insert(call_id, info(current_instance, None));
    for _ in 0..16_000 {
        assert!(remove_call_if_current(&mut calls, call_id, stale_instance).is_none());
    }
    assert!(call_is_current(&calls, call_id, current_instance));
    assert!(remove_call_if_current(&mut calls, call_id, current_instance).is_some());
}

#[test]
fn instance_numbers_start_at_one() {
    let mut calls = SipCalls::new();
    assert_eq!(calls.next_call_instance_id(), 1);
    assert_eq!(calls.next_call_instance_id(), 2);
}

#[test]
fn cancellation_collects_ringing_and_connected_legs_once() {
    let tracking_id = "cancel_all";
    let ringing = CallId::new(10_001);
    let overlapping = CallId::new(10_002);
    let connected = CallId::new(10_003);
    let mut forks = ForkGroups::new();
    assert!(fork_group::add_member(&mut forks, tracking_id, ringing, 2));
    assert!(fork_group::add_member(&mut forks, tracking_id, overlapping, 2));

    let mut calls = SipCalls::new();
    for call_id in [overlapping, connected] {
        let instance = calls.next_call_instance_id();
        calls.insert(call_id, info(instance, Some(tracking_id)));
    }
    let instance = calls.next_call_instance_id();
    calls.insert(CallId::new(10_004), info(instance, Some("different-call")));

    let legs = take_outbound_call_legs(tracking_id, &calls, &mut forks, at(1));
    assert_eq!(
        legs,
        HashSet::from([ringing.raw, overlapping.raw, connected.raw])
    );
    assert!(take_outbound_call_legs(tracking_id, &calls, &mut forks, at(1))
        .contains(&connected.raw));
    assert!(!fork_group::add_member(&mut forks, tracking_id, CallId::new(10_005), 1));
}

// Bridges

#[test]
fn pending_bridge_lease_is_exclusive_and_reusable() {
    let mut bridges = Bridges::new();
    let channel_id = Snowflake::new(1);

    let lease = PendingBridgeLease::try_acquire(channel_id, &mut bridges).unwrap();
    assert!(PendingBridgeLease::try_acquire(channel_id, &mut bridges).is_none());

    let wake = lease.release(&mut bridges);
    assert!(matches!(wake, Action::WakeWaiters { channel_id: woken } if woken == channel_id));
    assert!(!bridges.is_pending(channel_id));
    assert!(PendingBridgeLease::try_acquire(channel_id, &mut bridges).is_some());
}

#[test]
fn a_waiting_call_goes_on_when_the_lease_is_given_back() {
    let channel = Snowflake::new(50_000);
    let call = CallId::new(50_000);
    let mut bridges = Bridges::new();
    let mut calls = SipCalls::new();
    calls.insert(call, info(1, None));
    let lease = PendingBridgeLease::try_acquire(channel, &mut bridges).unwrap();
    let look = |bridges: &Bridges, calls: &SipCalls| {
        wait_for_pending_bridge(channel, call, 1, bridges, calls)
    };
    assert_eq!(look(&bridges, &calls), BridgeWait::Wait);
    calls.insert(call, info(2, None));
    assert_eq!(look(&bridges, &calls), BridgeWait::CallEnded);
    lease.release(&mut bridges);
    assert_eq!(look(&bridges, &calls), BridgeWait::Ready);
}

#[test]
fn a_bridge_goes_with_its_last_call() {
    let channel = Snowflake::new(9);
    let mut bridges = Bridges::new();
    bridges.insert(channel, bridge(1, 77, &[1, 2]));
    assert!(bridges.leave(channel, CallId::new(1)).is_none());
    assert!(bridges.contains(channel));
    let last = bridges.leave(channel, CallId::new(2)).unwrap();
    assert_eq!(last.discord_connection, 77);
    assert!(!bridges.contains(channel));
}

#[test]
fn one_channel_of_a_guild_stands_in_the_way_of_another() {
    let mut bridges = Bridges::new();
    bridges.insert(Snowflake::new(9), bridge(1, 77, &[]));
    let guild = Snowflake::new(1);
    assert_eq!(
        bridges.conflicting_channel(guild, Some(Snowflake::new(8))),
        Some(Snowflake::new(9))
    );
    assert_eq!(bridges.conflicting_channel(guild, Some(Snowflake::new(9))), None);
    assert_eq!(bridges.conflicting_channel(guild, None), Some(Snowflake::new(9)));
    assert_eq!(bridges.conflicting_channel(Snowflake::new(2), None), None);
    assert_eq!(bridges.channels(), vec![9]);
}

// Fax sessions

#[test]
fn a_call_has_one_fax_session() {
    let call = CallId::new(1);
    let mut calls = SipCalls::new();
    let mut fax = FaxSessions::new();
    calls.insert(call, info(5, None));
    let (ok, actions) = register_fax_session_if_current(&calls, &mut fax, call, 4, 100);
    assert!(!ok && actions.is_empty());
    let (ok, actions) = register_fax_session_if_current(&calls, &mut fax, call, 5, 100);
    assert!(ok && actions.is_empty());
    assert!(register_fax_session_if_current(&calls, &mut fax, call, 5, 100).0);
    assert!(!register_fax_session_if_current(&calls, &mut fax, call, 5, 101).0);
    assert!(fax_session_is_current(&calls, &fax, call, 5, 100));
    assert!(!fax_session_is_current(&calls, &fax, call, 5, 101));

    calls.insert(call, info(6, None));
    let (ok, actions) = register_fax_session_if_current(&calls, &mut fax, call, 6, 200);
    assert!(ok);
    assert!(matches!(actions[0], Action::CancelFax { session: 100 }));
    assert!(matches!(actions[1], Action::RemoveFaxPort { .. }));

    let (removed, actions) = remove_fax_session_if_current(&mut fax, call, 5, 100);
    assert!(!removed && actions.is_empty());
    let (removed, actions) = remove_fax_session_if_current(&mut fax, call, 6, 200);
    assert!(removed);
    assert!(matches!(actions[0], Action::CancelFax { session: 200 }));
    assert!(fax.get(call).is_none());
}

// Events of the SIP stack

fn event(state: &mut BridgeCoordinator, forks: &mut ForkGroups, event: SipEvent) -> Vec<Action> {
    state.on_sip_event(forks, event, None, at(200))
}

#[test]
fn an_incoming_call_is_routed_or_played_a_sound() {
    let mut state = BridgeCoordinator::new();
    let mut forks = ForkGroups::new();
    let call = CallId::new(1);
    let incoming = || SipEvent::IncomingCall {
        call_id: call,
        digest_auth: DigestAuthParams::default(),
        extension: "42".to_string(),
        source_ip: None,
    };
    let routed = event(&mut state, &mut forks, incoming());
    assert!(matches!(
        &routed[0],
        Action::StartIncoming { instance_id: 1, extension, .. } if extension == "42"
    ));
    let played =
        state.on_sip_event(&mut forks, incoming(), Some("egg".to_string()), at(200));
    assert!(matches!(
        &played[0],
        Action::StartExtensionSound { instance_id: 2, sound_name, .. } if sound_name == "egg"
    ));
    assert!(call_is_current(&state.sip_calls, call, 2));
    assert_eq!(extension_number("42"), Some(42));
    assert_eq!(extension_number("4x"), None);
}

#[test]
fn the_end_of_a_voice_call_takes_its_bridge_down() {
    let mut state = BridgeCoordinator::new();
    let mut forks = ForkGroups::new();
    let call = CallId::new(-3);
    let channel = Snowflake::new(9);
    let mut on_channel = info(1, Some("t1"));
    on_channel.channel_id = Some(channel);
    state.sip_calls.insert(call, on_channel);
    state.bridges.insert(channel, bridge(1, 77, &[-3]));
    let actions = event(&mut state, &mut forks, SipEvent::CallEnded { call_id: call });
    assert!(matches!(
        &actions[0],
        Action::Report { tracking_id, status: OutboundCallStatus::Ended } if tracking_id == "t1"
    ));
    assert!(matches!(&actions[1], Action::UnregisterCallChannel { .. }));
    assert!(matches!(&actions[2], Action::StopLoop { .. }));
    assert!(matches!(&actions[3], Action::CallEnded { sip_call_id } if sip_call_id == "-3"));
    assert!(matches!(&actions[4], Action::CleanupPort { .. }));
    assert!(matches!(&actions[5], Action::TeardownRings { .. }));
    assert!(matches!(&actions[6], Action::Disconnect { connection: 77 }));
    assert_eq!(actions.len(), 7);
    assert!(!state.sip_calls.contains(call));
    assert!(!state.bridges.contains(channel));
}

#[test]
fn the_end_of_a_fax_call_finishes_its_session() {
    let mut state = BridgeCoordinator::new();
    let mut forks = ForkGroups::new();
    let call = CallId::new(3);
    state.sip_calls.insert(call, info(1, None));
    register_fax_session_if_current(&state.sip_calls, &mut state.fax_sessions, call, 1, 50);
    let offer = event(
        &mut state,
        &mut forks,
        SipEvent::T38Offered {
            call_id: call,
            remote_ip: "1.2.3.4".to_string(),
            remote_port: 4000,
            local_port: 5000,
        },
    );
    assert!(matches!(
        &offer[0],
        Action::SwitchToT38 { session: 50, remote_port: 4000, local_port: 5000, .. }
    ));
    let actions = event(&mut state, &mut forks, SipEvent::CallEnded { call_id: call });
    assert!(matches!(&actions[2], Action::CancelFax { session: 50 }));
    assert!(matches!(&actions[3], Action::RemoveFaxPort { .. }));
    assert!(matches!(&actions[4], Action::FinishFax { session: 50, .. }));
    assert!(state.sip_calls.contains(call));
    state.on_fax_finished(call);
    assert!(!state.sip_calls.contains(call));
    let late = event(
        &mut state,
        &mut forks,
        SipEvent::T38Offered {
            call_id: call,
            remote_ip: "1.2.3.4".to_string(),
            remote_port: 4000,
            local_port: 5000,
        },
    );
    assert!(is_hangup(&late[0], call));
}

#[test]
fn a_silent_call_is_hung_up() {
    let mut state = BridgeCoordinator::new();
    let mut forks = ForkGroups::new();
    let call = CallId::new(3);
    state.sip_calls.insert(call, info(1, Some("t1")));
    let actions = event(
        &mut state,
        &mut forks,
        SipEvent::CallTimeout { call_id: call, rx_count: 0 },
    );
    assert!(matches!(
        &actions[0],
        Action::Report { status: OutboundCallStatus::NoAudio, .. }
    ));
    assert!(is_hangup(&actions[1], call));
    let actions = event(
        &mut state,
        &mut forks,
        SipEvent::CallTimeout { call_id: call, rx_count: 9 },
    );
    assert_eq!(actions.len(), 1);
}

#[test]
fn the_first_answer_wins_and_drops_the_other_legs() {
    let mut state = BridgeCoordinator::new();
    let mut forks = ForkGroups::new();
    let (a, b) = (CallId::new(1), CallId::new(2));
    fork_group::add_member(&mut forks, "t", a, 2);
    fork_group::add_member(&mut forks, "t", b, 2);
    let answered = |call_id| SipEvent::OutboundCallAnswered {
        tracking_id: "t".to_string(),
        call_id,
    };
    let actions = event(&mut state, &mut forks, answered(a));
    assert!(matches!(&actions[0], Action::ForgetOutbound { call_id } if *call_id == b));
    assert!(is_hangup(&actions[1], b));
    assert!(matches!(
        &actions[2],
        Action::Report { status: OutboundCallStatus::Answered, .. }
    ));
    assert!(matches!(&actions[3], Action::StartAnswered { call_id, .. } if *call_id == a));
    let late = event(&mut state, &mut forks, answered(b));
    assert!(matches!(&late[0], Action::ForgetOutbound { call_id } if *call_id == b));
    assert!(is_hangup(&late[1], b));
    assert_eq!(late.len(), 2);
}

#[test]
fn ringing_is_reported_with_its_words() {
    let mut state = BridgeCoordinator::new();
    let mut forks = ForkGroups::new();
    let actions = event(
        &mut state,
        &mut forks,
        SipEvent::OutboundCallRinging {
            tracking_id: "t".to_string(),
            call_id: CallId::new(12),
            status_code: 180,
            status_text: "Ringing".to_string(),
        },
    );
    match &actions[0] {
        Action::Diagnose { status, diagnostics, .. } => {
            assert_eq!(*status, OutboundCallStatus::Ringing);
            assert_eq!(diagnostics.phase, "sip_ringing");
            assert_eq!(
                diagnostics.detail.as_deref(),
                Some("SIP leg 12 received 180 Ringing")
            );
        }
        _ => panic!("expected a report"),
    }
}

fn outbound_request() -> OutboundCallRequest {
    OutboundCallRequest {
        call_id: "t".to_string(),
        discord_user_id: "1001".to_string(),
        discord_username: "fallback".to_string(),
        guild_id: "1".to_string(),
        channel_id: "9".to_string(),
        bot_token: "token".to_string(),
        caller_username: "carol".to_string(),
        created_at: at(190),
    }
}

#[test]
fn a_call_fails_when_all_its_legs_have() {
    let mut state = BridgeCoordinator::new();
    let mut forks = ForkGroups::new();
    let (a, b) = (CallId::new(1), CallId::new(2));
    fork_group::add_member(&mut forks, "t", a, 2);
    fork_group::add_member(&mut forks, "t", b, 2);
    state.outbound.insert_request(outbound_request());
    let failed = |call, reason: &str| SipEvent::OutboundCallFailed {
        tracking_id: "t".to_string(),
        failed_call_id: Some(call),
        reason: reason.to_string(),
    };
    assert!(event(&mut state, &mut forks, failed(a, "486 Busy Here")).is_empty());
    let actions = event(&mut state, &mut forks, failed(b, "408 Timeout"));
    match &actions[0] {
        Action::Diagnose { tracking_id, status, diagnostics } => {
            assert_eq!(tracking_id, "t");
            assert_eq!(
                *status,
                OutboundCallStatus::Failed(OutboundCallFailureReason::Busy)
            );
            assert_eq!(diagnostics.phase, "sip_dial");
            assert_eq!(diagnostics.elapsed_ms, Some(10_000));
            assert_eq!(diagnostics.leg_failures.len(), 2);
            assert_eq!(diagnostics.leg_failures[1].sip_call_id.as_deref(), Some("2"));
        }
        _ => panic!("expected a report"),
    }
}

// Outbound calls

fn registrar() -> Registrar {
    let mut registrar = Registrar::new();
    for (index, (uri, transport)) in [
        ("sip:3001@10.0.1.151:5060", SipTransport::Udp),
        ("sips:3002@10.0.1.152", SipTransport::Tls),
        ("tel:1", SipTransport::Tcp),
    ]
    .into_iter()
    .enumerate()
    {
        registrar.add_registration(Registration {
            sip_username: "alice".to_string(),
            discord_user_id: "1001".to_string(),
            contact: RegisteredContact::new(
                uri.to_string(),
                uri.to_string(),
                None,
                uri.to_string(),
            ),
            source_addr: SourceAddr {
                ip: "203.0.113.8".to_string(),
                port: 5_000 + index as u16,
                is_ipv6: false,
            },
            transport,
            expires_at: at(500),
            registered_at: at(100),
        });
    }
    registrar
}

#[test]
fn all_phones_of_a_user_are_dialed_at_once() {
    let mut state = BridgeCoordinator::new();
    let registrar = registrar();
    let actions = state.on_outbound_start(outbound_request(), Some(&registrar), at(200));
    let uris: Vec<&str> = actions
        .iter()
        .filter_map(|action| match action {
            Action::Sip {
                command:
                    SipCommand::MakeOutboundCall {
                        sip_uri,
                        fork_total: 3,
                        tracking_id,
                        caller_display_name,
                    },
            } if tracking_id == "t" && caller_display_name.as_deref() == Some("carol") => {
                Some(sip_uri.as_str())
            }
            _ => None,
        })
        .collect();
    assert_eq!(
        uris,
        vec![
            "sip:3001@203.0.113.8:5000;transport=udp",
            "sips:3002@203.0.113.8:5001",
            "sip:fallback@203.0.113.8:5002;transport=tcp",
        ]
    );
    match &actions[3] {
        Action::Diagnose { status, diagnostics, .. } => {
            assert_eq!(*status, OutboundCallStatus::Dialing);
            assert_eq!(
                diagnostics.detail.as_deref(),
                Some("queued 3 outbound SIP leg(s)")
            );
            assert!(diagnostics.registration.is_some());
        }
        _ => panic!("expected a report"),
    }
    assert!(state.take_answered_request("t", CallId::new(1)).is_ok());
}

#[test]
fn reports_do_not_hold_the_token() {
    let request = || OutboundCallRequest {
        bot_token: "hidden-token".to_string(),
        ..outbound_request()
    };
    let mut state = BridgeCoordinator::new();
    let registrar = registrar();
    let mut actions = state.on_outbound_start(request(), Some(&registrar), at(200));
    let start = state.on_answered_request(
        request(),
        "t".to_string(),
        CallId::new(4),
        Ok(Snowflake::new(1)),
        Ok(Snowflake::new(9)),
        None,
        at(200),
    );
    actions.extend(start.actions);
    actions.extend(state.on_answered_connected(
        start.waiting.unwrap(),
        Err("no voice".to_string()),
        None,
        at(201),
    ));
    assert!(!actions.is_empty());
    assert!(!format!("{actions:?}").contains("hidden-token"));
}

#[test]
fn a_user_without_phones_is_unavailable() {
    let mut state = BridgeCoordinator::new();
    for registrar in [None, Some(&Registrar::new())] {
        let actions = state.on_outbound_start(outbound_request(), registrar, at(200));
        assert!(matches!(
            &actions[0],
            Action::Diagnose { status: OutboundCallStatus::Unavailable, diagnostics, .. }
                if diagnostics.phase == "registration_lookup"
        ));
        assert_eq!(actions.len(), 1);
    }
    let missing = state.take_answered_request("t", CallId::new(1)).unwrap_err();
    assert!(is_hangup(&missing[0], CallId::new(1)));
}

#[test]
fn a_cancelled_call_drops_its_legs() {
    let mut state = BridgeCoordinator::new();
    let mut forks = ForkGroups::new();
    let (ringing, connected) = (CallId::new(1), CallId::new(2));
    fork_group::add_member(&mut forks, "t", ringing, 1);
    state.sip_calls.insert(connected, info(1, Some("t")));
    state.outbound.insert_request(outbound_request());
    let actions = state.on_outbound_cancel(&mut forks, "t", at(200));
    assert_eq!(actions.len(), 4);
    assert!(actions.iter().any(|action| is_hangup(action, ringing)));
    assert!(actions.iter().any(|action| is_hangup(action, connected)));
    assert!(state.take_answered_request("t", ringing).is_err());
}

#[test]
fn an_answered_call_gets_a_bridge() {
    let mut state = BridgeCoordinator::new();
    let call = CallId::new(4);
    let channel = Snowflake::new(9);
    let start = state.on_answered_request(
        outbound_request(),
        "t".to_string(),
        call,
        Ok(Snowflake::new(1)),
        Ok(channel),
        Some(vec![1]),
        at(200),
    );
    assert!(matches!(
        &start.actions[0],
        Action::Sip { command: SipCommand::StartConnectingLoop { .. } }
    ));
    assert!(matches!(
        &start.actions[1],
        Action::Connect { bridge_id, .. } if bridge_id == "bridge_9"
    ));
    assert!(state.bridges.is_pending(channel));
    let actions =
        state.on_answered_connected(start.waiting.unwrap(), Ok(77), Some(vec![2]), at(201));
    assert!(matches!(&actions[0], Action::SetupRings { .. }));
    assert!(matches!(&actions[1], Action::RegisterCallChannel { .. }));
    assert!(matches!(
        &actions[2],
        Action::Diagnose { status: OutboundCallStatus::Connected, diagnostics, .. }
            if diagnostics.detail.as_deref()
                == Some("SIP call 4 connected to Discord channel 9")
            && diagnostics.elapsed_ms == Some(11_000)
    ));
    assert!(matches!(&actions[3], Action::ForgetOutbound { .. }));
    assert!(matches!(
        &actions[4],
        Action::Sip { command: SipCommand::PlayDirectToCall { .. } }
    ));
    assert!(matches!(&actions[5], Action::WakeWaiters { .. }));
    assert!(!state.bridges.is_pending(channel));
    assert!(state.bridges.get(channel).unwrap().sip_calls.contains(&4));
}

#[test]
fn an_answered_call_fails_in_each_of_its_ways() {
    let call = CallId::new(4);
    let detail = |actions: &Vec<Action>| match &actions[0] {
        Action::Diagnose { status, diagnostics, .. } => {
            assert_eq!(
                *status,
                OutboundCallStatus::Failed(OutboundCallFailureReason::Internal)
            );
            (
                diagnostics.phase.clone(),
                diagnostics.detail.clone().unwrap(),
            )
        }
        _ => panic!("expected a report"),
    };
    let begin = |state: &mut BridgeCoordinator, guild: Result<u64, &str>, channel: Result<u64, &str>| {
        state.on_answered_request(
            outbound_request(),
            "t".to_string(),
            call,
            guild.map(Snowflake::new).map_err(str::to_string),
            channel.map(Snowflake::new).map_err(str::to_string),
            None,
            at(200),
        )
    };
    let mut state = BridgeCoordinator::new();
    let start = begin(&mut state, Err("bad"), Ok(9));
    assert_eq!(
        detail(&start.actions),
        ("request_validation".to_string(), "invalid guild_id: bad".to_string())
    );
    let start = begin(&mut state, Ok(1), Err("worse"));
    assert_eq!(
        detail(&start.actions),
        ("request_validation".to_string(), "invalid channel_id: worse".to_string())
    );
    state.bridges.insert(Snowflake::new(8), bridge(1, 5, &[]));
    let start = begin(&mut state, Ok(1), Ok(9));
    assert_eq!(
        detail(&start.actions),
        (
            "discord_preflight".to_string(),
            "guild already active on channel 8; requested 9".to_string()
        )
    );
    assert!(is_hangup(&start.actions[1], call));
    assert!(!state.sip_calls.contains(call));

    let start = begin(&mut state, Ok(2), Ok(9));
    let actions = state.on_answered_connected(
        start.waiting.unwrap(),
        Err("no voice".to_string()),
        None,
        at(201),
    );
    assert_eq!(
        detail(&actions),
        ("discord_connect".to_string(), "no voice".to_string())
    );
    assert!(is_hangup(&actions[1], call));

    let start = begin(&mut state, Ok(2), Ok(9));
    state.sip_calls.remove(call);
    let actions = state.on_answered_connected(start.waiting.unwrap(), Ok(6), None, at(201));
    assert!(matches!(&actions[0], Action::Disconnect { connection: 6 }));
    assert!(matches!(&actions[1], Action::WakeWaiters { .. }));
    assert_eq!(actions.len(), 2);
}

// Incoming calls

struct Incoming {
    state: BridgeCoordinator,
    call: IncomingCall,
    stage: IncomingStage,
}

fn incoming() -> Incoming {
    let mut state = BridgeCoordinator::new();
    let call_id = CallId::new(20);
    state.sip_calls.insert(call_id, info(3, None));
    Incoming {
        state,
        call: IncomingCall { call_id, instance_id: 3, extension: "77".to_string() },
        stage: IncomingStage::Routing,
    }
}

fn sounds() -> CallSounds {
    CallSounds {
        connecting: Some(vec![1]),
        discord_join: Some(vec![2]),
        error: Some(vec![3; 1_600]),
    }
}

fn step(task: &mut Incoming, event: IncomingEvent) -> Vec<Action> {
    let stage = std::mem::replace(&mut task.stage, IncomingStage::Done);
    let IncomingStep { stage, actions } =
        task.call.advance(&mut task.state, stage, event, sounds(), at(200));
    task.stage = stage;
    actions
}

fn connect(guild: u64, channel: u64) -> IncomingEvent {
    IncomingEvent::Routed {
        decision: Some(RouteDecision::Connect {
            channel_id: Snowflake::new(channel),
            guild_id: Snowflake::new(guild),
            user_id: "u".to_string(),
            bot_token: "token".to_string(),
        }),
    }
}

#[test]
fn a_routed_call_creates_its_bridge_before_it_is_answered() {
    let mut task = incoming();
    let call = task.call.call_id;
    let actions = step(&mut task, connect(1, 9));
    assert!(matches!(
        &actions[0],
        Action::Sip { command: SipCommand::Send183 { .. } }
    ));
    assert_eq!(task.stage.wait_ms(), Some(100));
    let actions = step(&mut task, IncomingEvent::Elapsed);
    assert!(matches!(
        &actions[0],
        Action::Sip { command: SipCommand::StartConnectingLoop { .. } }
    ));
    assert!(matches!(&actions[1], Action::Connect { bridge_id, .. } if bridge_id == "bridge_9"));
    let actions = step(&mut task, IncomingEvent::Connected { connection: Some(70) });
    assert!(matches!(&actions[0], Action::SetupRings { .. }));
    assert!(matches!(&actions[1], Action::RegisterCallChannel { .. }));
    match &actions[2] {
        Action::CallStarted { info } => {
            assert_eq!(info.sip_call_id, "20");
            assert_eq!(info.guild_id, "1");
            assert_eq!(info.channel_id, "9");
            assert_eq!(info.extension, "77");
            assert_eq!(info.user_id, "u");
        }
        _ => panic!("expected a notice"),
    }
    assert!(is_answer(&actions[3], call));
    assert!(matches!(
        &actions[4],
        Action::Sip { command: SipCommand::PlayDirectToCall { .. } }
    ));
    assert!(matches!(&actions[5], Action::WakeWaiters { .. }));
    assert!(matches!(task.stage, IncomingStage::Done));
    let bridge = task.state.bridges.get(Snowflake::new(9)).unwrap();
    assert_eq!(bridge.discord_connection, 70);
    assert!(bridge.sip_calls.contains(&20));
    assert_eq!(
        task.state.sip_calls.get(call).unwrap().channel_id,
        Some(Snowflake::new(9))
    );
}

#[test]
fn a_call_joins_a_bridge_that_is_there() {
    let mut task = incoming();
    task.state.bridges.insert(Snowflake::new(9), bridge(1, 70, &[1]));
    step(&mut task, connect(1, 9));
    let actions = step(&mut task, IncomingEvent::Elapsed);
    assert!(matches!(&actions[1], Action::RegisterCallChannel { .. }));
    assert!(is_answer(&actions[3], CallId::new(20)));
    let bridge = task.state.bridges.get(Snowflake::new(9)).unwrap();
    assert!(bridge.sip_calls.contains(&20) && bridge.sip_calls.contains(&1));
    assert_eq!(bridge.last_call_time, at(200));
}

#[test]
fn a_call_waits_for_a_bridge_in_the_making() {
    let mut task = incoming();
    let channel = Snowflake::new(9);
    let lease = PendingBridgeLease::try_acquire(channel, &mut task.state.bridges).unwrap();
    step(&mut task, connect(1, 9));
    step(&mut task, IncomingEvent::Elapsed);
    assert_eq!(task.stage.wait_ms(), Some(15_000));
    assert!(step(&mut task, IncomingEvent::BridgeWoken).is_empty());
    assert!(matches!(task.stage, IncomingStage::WaitingForBridge { .. }));
    lease.release(&mut task.state.bridges);
    let actions = step(&mut task, IncomingEvent::BridgeWoken);
    assert!(matches!(&actions[0], Action::Connect { .. }));
}

#[test]
fn a_wait_that_takes_too_long_is_an_error() {
    let mut task = incoming();
    let channel = Snowflake::new(9);
    let _lease = PendingBridgeLease::try_acquire(channel, &mut task.state.bridges).unwrap();
    step(&mut task, connect(1, 9));
    step(&mut task, IncomingEvent::Elapsed);
    let actions = step(&mut task, IncomingEvent::Elapsed);
    assert!(is_answer(&actions[0], CallId::new(20)));
    assert!(matches!(
        task.stage,
        IncomingStage::ErrorAnswering { error: CallError::Unknown, .. }
    ));
}

#[test]
fn an_error_is_told_before_the_call_is_hung_up() {
    let mut task = incoming();
    let call = task.call.call_id;
    step(
        &mut task,
        IncomingEvent::Routed {
            decision: Some(RouteDecision::RejectWithError { error: CallError::NoPermissions }),
        },
    );
    let actions = step(&mut task, IncomingEvent::Elapsed);
    assert!(is_answer(&actions[1], call));
    assert_eq!(task.stage.wait_ms(), Some(200));
    let actions = step(&mut task, IncomingEvent::Elapsed);
    assert!(matches!(
        &actions[0],
        Action::Sip { command: SipCommand::PlayDirectToCall { .. } }
    ));
    assert_eq!(task.stage.wait_ms(), Some(300));
    let actions = step(&mut task, IncomingEvent::Elapsed);
    assert!(is_hangup(&actions[0], call));
    assert!(!task.state.sip_calls.contains(call));
}

#[test]
fn a_failed_connection_gives_its_lease_back() {
    let mut task = incoming();
    let channel = Snowflake::new(9);
    step(&mut task, connect(1, 9));
    step(&mut task, IncomingEvent::Elapsed);
    step(&mut task, IncomingEvent::Connected { connection: None });
    assert!(task.state.bridges.is_pending(channel));
    step(&mut task, IncomingEvent::Elapsed);
    let actions = step(&mut task, IncomingEvent::Elapsed);
    assert!(is_hangup(&actions[0], CallId::new(20)));
    assert!(matches!(&actions[1], Action::WakeWaiters { .. }));
    assert!(!task.state.bridges.is_pending(channel));
}

#[test]
fn redirects_and_bad_credentials_end_the_call() {
    let mut task = incoming();
    step(
        &mut task,
        IncomingEvent::Routed {
            decision: Some(RouteDecision::Redirect {
                domain: "eu.example.com".to_string(),
                extension: "8".to_string(),
            }),
        },
    );
    let actions = step(&mut task, IncomingEvent::Elapsed);
    assert!(matches!(
        &actions[1],
        Action::Sip { command: SipCommand::Redirect { domain, .. } } if domain == "eu.example.com"
    ));
    assert!(!task.state.sip_calls.contains(CallId::new(20)));

    let mut task = incoming();
    step(
        &mut task,
        IncomingEvent::Routed { decision: Some(RouteDecision::RejectInvalidCredentials) },
    );
    let actions = step(&mut task, IncomingEvent::Elapsed);
    assert!(is_hangup(&actions[1], CallId::new(20)));
}

#[test]
fn a_busy_guild_takes_no_call() {
    let mut task = incoming();
    task.state.bridges.insert(Snowflake::new(8), bridge(1, 70, &[]));
    step(&mut task, connect(1, 9));
    step(&mut task, IncomingEvent::Elapsed);
    assert!(matches!(
        task.stage,
        IncomingStage::ErrorAnswering { error: CallError::ServerBusy, .. }
    ));
}

#[test]
fn a_late_decision_does_not_reach_another_call() {
    let mut task = incoming();
    task.state.sip_calls.insert(CallId::new(20), info(4, None));
    assert!(step(&mut task, connect(1, 9)).is_empty());
    assert!(matches!(task.stage, IncomingStage::Done));
    assert!(call_is_current(&task.state.sip_calls, CallId::new(20), 4));
}

#[test]
fn routing_that_takes_too_long_is_an_error() {
    let mut task = incoming();
    step(&mut task, IncomingEvent::Routed { decision: None });
    step(&mut task, IncomingEvent::Elapsed);
    assert!(matches!(
        task.stage,
        IncomingStage::ErrorAnswering { error: CallError::Unknown, .. }
    ));
}

#[test]
fn a_fax_is_registered_before_its_call_is_answered() {
    let mut task = incoming();
    let call = task.call.call_id;
    let actions = step(
        &mut task,
        IncomingEvent::Routed {
            decision: Some(RouteDecision::ConnectFax {
                text_channel_id: Snowflake::new(5),
                guild_id: Snowflake::new(1),
                user_id: "u".to_string(),
                bot_token: "token".to_string(),
            }),
        },
    );
    assert!(matches!(&actions[0], Action::CreateFax { .. }));
    let actions = step(&mut task, IncomingEvent::FaxCreated { created: Some(60) });
    assert!(is_answer(&actions[0], call));
    assert!(fax_session_is_current(
        &task.state.sip_calls,
        &task.state.fax_sessions,
        call,
        3,
        60
    ));
    let actions = step(&mut task, IncomingEvent::AnswerQueued { queued: true });
    assert!(matches!(&actions[0], Action::PostReceiving { session: 60 }));
    assert!(step(&mut task, IncomingEvent::Posted { posted: true }).is_empty());
    assert_eq!(task.stage.wait_ms(), Some(500));
    let actions = step(&mut task, IncomingEvent::Elapsed);
    assert!(matches!(&actions[0], Action::CreateFaxPort { session: 60, .. }));
    let outcome = FaxPortOutcome::Tried { created: false, uses_t38: false };
    let actions = step(&mut task, IncomingEvent::FaxPort { outcome });
    assert!(matches!(
        &actions[0],
        Action::StartFaxAudio { session: 60, has_port: false, .. }
    ));
}

#[test]
fn a_fax_that_cannot_be_posted_is_dropped() {
    let fax = || {
        let mut task = incoming();
        step(
            &mut task,
            IncomingEvent::Routed {
                decision: Some(RouteDecision::ConnectFax {
                    text_channel_id: Snowflake::new(5),
                    guild_id: Snowflake::new(1),
                    user_id: "u".to_string(),
                    bot_token: "token".to_string(),
                }),
            },
        );
        task
    };
    let call = CallId::new(20);
    let mut task = fax();
    let actions = step(&mut task, IncomingEvent::FaxCreated { created: None });
    assert!(is_hangup(&actions[0], call));
    let mut task = fax();
    step(&mut task, IncomingEvent::FaxCreated { created: Some(60) });
    let actions = step(&mut task, IncomingEvent::AnswerQueued { queued: false });
    assert!(matches!(&actions[0], Action::CancelFax { session: 60 }));
    let mut task = fax();
    step(&mut task, IncomingEvent::FaxCreated { created: Some(60) });
    step(&mut task, IncomingEvent::AnswerQueued { queued: true });
    let actions = step(&mut task, IncomingEvent::Posted { posted: false });
    assert!(is_hangup(&actions[0], call));
    assert!(matches!(&actions[1], Action::CancelFax { session: 60 }));
    assert!(task.state.fax_sessions.get(call).is_none());
    assert!(!task.state.sip_calls.contains(call));
}

// Health

fn config() -> ReconnectConfig {
    ReconnectConfig {
        reconnect_min_age_secs: 10,
        reconnect_max_attempts: 5,
        reconnect_base_delay_secs: 5,
        reconnect_max_delay_secs: 30,
        reconnect_max_per_cycle: 1,
    }
}

const BAD: HealthReading =
    HealthReading { is_healthy: false, queue_fill: 0, consecutive_overflows: 0 };

const GOOD: HealthReading =
    HealthReading { is_healthy: true, queue_fill: 95, consecutive_overflows: 50 };

#[test]
fn reconnection_backs_off() {
    let delays: Vec<u64> = (0..6).map(|n| config().backoff_secs(n)).collect();
    assert_eq!(delays, vec![5, 5, 10, 20, 30, 30]);
    let mut b = bridge(1, 7, &[]);
    assert_eq!(b.verdict(GOOD, &config(), at(200)), BridgeVerdict::Fine);
    assert_eq!(b.verdict(BAD, &config(), at(109)), BridgeVerdict::TooYoung);
    assert_eq!(b.verdict(BAD, &config(), at(110)), BridgeVerdict::Reconnect);
    b.reconnect_attempts = 2;
    b.last_reconnect_at = Some(at(191));
    assert_eq!(b.verdict(BAD, &config(), at(200)), BridgeVerdict::BackingOff);
    assert_eq!(b.verdict(BAD, &config(), at(201)), BridgeVerdict::Reconnect);
    b.reconnect_attempts = 5;
    assert_eq!(b.verdict(BAD, &config(), at(201)), BridgeVerdict::Exhausted);
    let full = HealthReading { is_healthy: true, queue_fill: 91, consecutive_overflows: 51 };
    assert!(full.needs_reconnect());
}

#[test]
fn only_a_delay_that_is_waited_for_must_fit() {
    let slow = ReconnectConfig { reconnect_base_delay_secs: u64::MAX, ..config() };
    assert!(slow.backoff_can_be_computed(1));
    assert!(!slow.backoff_can_be_computed(2));
    let mut b = bridge(1, 7, &[]);
    b.reconnect_attempts = 2;
    b.last_reconnect_at = Some(at(191));
    assert!(!b.has_delay(BAD, &slow, at(200)));
    assert!(b.has_delay(BAD, &config(), at(200)));
    assert!(b.has_delay(GOOD, &slow, at(200)));
    assert!(b.has_delay(BAD, &slow, at(109)));
    assert_eq!(b.verdict(GOOD, &slow, at(200)), BridgeVerdict::Fine);
    assert_eq!(b.verdict(BAD, &slow, at(109)), BridgeVerdict::TooYoung);
    b.reconnect_attempts = 5;
    assert!(b.has_delay(BAD, &slow, at(200)));
}

#[test]
fn a_check_reconnects_a_few_bridges_and_gives_up_others() {
    let mut state = BridgeCoordinator::new();
    state.bridges.insert(Snowflake::new(1), bridge(1, 11, &[]));
    state.bridges.insert(Snowflake::new(2), bridge(2, 12, &[]));
    let mut worn = bridge(3, 13, &[4]);
    worn.reconnect_attempts = 5;
    state.bridges.insert(Snowflake::new(3), worn);
    let readings = vec![
        (Snowflake::new(1), BAD),
        (Snowflake::new(2), BAD),
        (Snowflake::new(3), BAD),
        (Snowflake::new(4), BAD),
    ];
    let plan = state.plan_health(&readings, &config(), at(200));
    assert_eq!(plan.exhausted, vec![Snowflake::new(3)]);
    assert_eq!(
        plan.reconnect,
        vec![ReconnectCandidate {
            channel_id: Snowflake::new(1),
            guild_id: Snowflake::new(1),
            attempts: 0
        }]
    );
    let actions = state.on_bridge_exhausted(Snowflake::new(3));
    assert!(is_hangup(&actions[0], CallId::new(4)));
    assert!(matches!(&actions[3], Action::Disconnect { connection: 13 }));
}

#[test]
fn a_reconnected_bridge_keeps_its_live_calls() {
    let mut state = BridgeCoordinator::new();
    let channel = Snowflake::new(1);
    state.bridges.insert(channel, bridge(1, 11, &[5, 6]));
    state.sip_calls.insert(CallId::new(6), info(1, None));
    let candidate = ReconnectCandidate {
        channel_id: channel,
        guild_id: Snowflake::new(1),
        attempts: 2,
    };
    let (reconnecting, actions) = state.begin_reconnect(candidate);
    assert!(matches!(&actions[0], Action::TeardownRings { .. }));
    assert!(matches!(&actions[1], Action::Disconnect { connection: 11 }));
    assert!(matches!(&actions[2], Action::Connect { .. }));
    let (again, nothing) = state.begin_reconnect(candidate);
    assert!(again.is_none() && nothing.is_empty());
    let actions = state.finish_reconnect(reconnecting.unwrap(), Some(19), at(300));
    assert!(matches!(&actions[0], Action::SetupRings { .. }));
    assert!(matches!(&actions[1], Action::WakeWaiters { .. }));
    let b = state.bridges.get(channel).unwrap();
    assert_eq!(b.discord_connection, 19);
    assert_eq!(b.reconnect_attempts, 3);
    assert_eq!(b.last_reconnect_at, Some(at(300)));
    assert_eq!(b.sip_calls, HashSet::from([6]));

    let (reconnecting, _) = state.begin_reconnect(candidate);
    let actions = state.finish_reconnect(reconnecting.unwrap(), None, at(400));
    assert!(matches!(&actions[0], Action::CleanupPort { .. }));
    assert!(!state.bridges.contains(channel));
}

#[test]
fn unused_bridges_are_found() {
    let mut state = BridgeCoordinator::new();
    state.bridges.insert(Snowflake::new(1), bridge(1, 11, &[]));
    state.bridges.insert(Snowflake::new(2), bridge(2, 12, &[5]));
    state.bridges.insert(Snowflake::new(3), bridge(3, 13, &[6]));
    state.sip_calls.insert(CallId::new(6), info(1, None));
    let mut orphans = state.orphaned_bridges(40, at(161));
    orphans.sort_by_key(|channel| channel.raw);
    assert_eq!(orphans, vec![Snowflake::new(1), Snowflake::new(2)]);
    assert!(state.orphaned_bridges(61, at(160)).is_empty());
    let actions = state.on_bridge_orphaned(Snowflake::new(1));
    assert!(matches!(&actions[2], Action::Disconnect { connection: 11 }));
    assert!(state.on_bridge_orphaned(Snowflake::new(1)).is_empty());
}

#[test]
fn active_channels_are_told_to_the_backend() {
    let mut state = BridgeCoordinator::new();
    assert!(state.heartbeat().is_empty());
    state.bridges.insert(Snowflake::new(12), bridge(1, 11, &[]));
    match &state.heartbeat()[0] {
        Action::Heartbeat { channel_ids } => assert_eq!(*channel_ids, vec!["12".to_string()]),
        _ => panic!("expected a heartbeat"),
    }
}

#[test]
fn unanswered_requests_are_swept() {
    let mut state = BridgeCoordinator::new();
    let mut forks = ForkGroups::new();
    state.outbound.insert_request(outbound_request());
    fork_group::cancel(&mut forks, "old", at(100));
    assert_eq!(state.sweep_stale(&mut forks, at(249)), 0);
    assert!(fork_group::add_member(&mut forks, "old", CallId::new(1), 1));
    assert_eq!(state.sweep_stale(&mut forks, at(250)), 1);
    assert!(state.take_answered_request("t", CallId::new(1)).is_err());
}

#[test]
fn errors_have_their_sounds() {
    assert_eq!(CallError::NoChannelMapping.sound_name(), "no_channel_mapping");
    assert_eq!(CallError::NoPermissions.sound_name(), "no_permissions");
    assert_eq!(CallError::DiscordApiError.sound_name(), "server_is_busy");
    assert_eq!(CallError::ServerBusy.sound_name(), "server_is_busy");
    assert_eq!(CallError::Unknown.sound_name(), "unknown_error");
    assert_eq!(CallError::Unknown.message(), "unknown call error");
}
