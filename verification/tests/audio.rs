//! Tests of the audio between channels, calls and players.

use sipcord_bridge::call::rings::{setup_channel_ring_buffers, teardown_channel_ring_buffers};
use sipcord_bridge::ids::{CallId, ConfPort, Snowflake};
use sipcord_bridge::ring::SampleRing;
use sipcord_bridge::time::Instant;
use sipcord_bridge::transport::sip::channel_audio::{
    connect_call_to_channel, disconnect_call_from_channel, ChannelAudio, ChannelPort, ConfOp,
};
use sipcord_bridge::transport::sip::ffi::frame_utils::{
    fill_audio_frame, fill_silence_frame, SAMPLES_PER_FRAME,
};
use sipcord_bridge::transport::sip::ffi::looping_player::{
    LoopStart, LoopingPlayerState, LoopingPlayers,
};
use sipcord_bridge::transport::sip::ffi::streaming_player::{
    streaming_deliver, streaming_get_frame, watch_streaming, StreamRequest, StreamingPlayerState,
    WatchStep,
};
use sipcord_bridge::transport::sip::ffi::test_tone::{
    start_test_tone, test_tone_get_frame, watch_test_tone,
};

fn at_ms(ms: u64) -> Instant {
    Instant { nanos: ms * 1_000_000 }
}

fn op(connect: bool, source: i32, sink: i32) -> ConfOp {
    ConfOp { connect, source: ConfPort::new(source), sink: ConfPort::new(sink) }
}

#[test]
fn discord_to_sip_ring_buffer_wraparound_preserves_sample_order() {
    let channel_id = Snowflake::new(9_000_000);
    let mut audio = ChannelAudio::new();
    setup_channel_ring_buffers(&mut audio, channel_id);

    let first: Vec<i16> = (0..3_000).map(|sample| sample as i16).collect();
    assert!(audio.write_discord_to_sip(channel_id, &first));
    assert!(!audio.write_discord_to_sip(channel_id, &vec![7; SAMPLES_PER_FRAME]));

    let mut actual = Vec::new();
    let mut frame = vec![0_i16; SAMPLES_PER_FRAME];
    for _ in 0..9 {
        let count = audio.get_samples_from_buffer(channel_id, &mut frame);
        assert_eq!(count, SAMPLES_PER_FRAME);
        actual.extend_from_slice(&frame[..count]);
    }
    assert_eq!(actual, first[..actual.len()]);

    let second: Vec<i16> = (10_000..12_880).map(|sample| sample as i16).collect();
    assert!(audio.write_discord_to_sip(channel_id, &second));

    let mut expected = first[actual.len()..].to_vec();
    expected.extend_from_slice(&second);
    let mut wrapped = Vec::new();
    loop {
        frame.fill(-1);
        let count = audio.get_samples_from_buffer(channel_id, &mut frame);
        if count == 0 {
            break;
        }
        wrapped.extend_from_slice(&frame[..count]);
    }
    assert_eq!(wrapped, expected);

    teardown_channel_ring_buffers(&mut audio, channel_id);
}

#[test]
fn ring_buffer_teardown_blocks_stale_audio_in_both_directions() {
    let channel_id = Snowflake::new(9_000_001);
    let mut audio = ChannelAudio::new();
    setup_channel_ring_buffers(&mut audio, channel_id);
    assert!(audio.write_discord_to_sip(channel_id, &vec![42; SAMPLES_PER_FRAME]));

    teardown_channel_ring_buffers(&mut audio, channel_id);

    assert!(!audio.write_discord_to_sip(channel_id, &vec![99; SAMPLES_PER_FRAME]));
    let mut frame = vec![-1_i16; SAMPLES_PER_FRAME];
    assert_eq!(audio.get_samples_from_buffer(channel_id, &mut frame), 0);
    assert_eq!(frame, [0; SAMPLES_PER_FRAME]);

    // Teardown is intentionally idempotent for overlapping failure paths.
    teardown_channel_ring_buffers(&mut audio, channel_id);
}

#[test]
fn ring_buffers_keep_simultaneous_channels_isolated() {
    let first_channel = Snowflake::new(9_000_002);
    let second_channel = Snowflake::new(9_000_003);
    let mut audio = ChannelAudio::new();
    setup_channel_ring_buffers(&mut audio, first_channel);
    setup_channel_ring_buffers(&mut audio, second_channel);

    assert!(audio.write_discord_to_sip(first_channel, &vec![11; SAMPLES_PER_FRAME]));
    assert!(audio.write_discord_to_sip(second_channel, &vec![22; SAMPLES_PER_FRAME]));

    let mut frame = vec![0_i16; SAMPLES_PER_FRAME];
    assert_eq!(
        audio.get_samples_from_buffer(second_channel, &mut frame),
        SAMPLES_PER_FRAME
    );
    assert_eq!(frame, [22; SAMPLES_PER_FRAME]);
    assert_eq!(
        audio.get_samples_from_buffer(first_channel, &mut frame),
        SAMPLES_PER_FRAME
    );
    assert_eq!(frame, [11; SAMPLES_PER_FRAME]);

    teardown_channel_ring_buffers(&mut audio, first_channel);
    teardown_channel_ring_buffers(&mut audio, second_channel);
}

#[test]
fn ring_buffer_writer_and_reader_make_progress_in_turn() {
    const FRAME_COUNT: i16 = 500;
    let channel_id = Snowflake::new(9_000_004);
    let mut audio = ChannelAudio::new();
    setup_channel_ring_buffers(&mut audio, channel_id);
    let mut written = 0_i16;
    let mut expected = 0_i16;
    let mut frame = vec![0_i16; SAMPLES_PER_FRAME];
    while expected < FRAME_COUNT {
        while written < FRAME_COUNT
            && audio.write_discord_to_sip(channel_id, &vec![written; SAMPLES_PER_FRAME])
        {
            written += 1;
        }
        assert_eq!(
            audio.get_samples_from_buffer(channel_id, &mut frame),
            SAMPLES_PER_FRAME
        );
        assert!(frame.iter().all(|sample| *sample == expected));
        expected += 1;
    }
}

#[test]
fn ring_takes_a_write_whole_or_not_at_all() {
    let mut ring = SampleRing::new(4);
    assert!(ring.write(&vec![1, 2, 3]));
    assert!(!ring.write(&vec![4, 5]));
    assert_eq!(ring.readable(), 3);
    assert_eq!(ring.writable(), 1);
    assert_eq!(ring.read(2), vec![1, 2]);
    assert!(ring.write(&vec![4, 5]));
    assert_eq!(ring.read(3), vec![3, 4, 5]);
    assert_eq!(ring.readable(), 0);
}

#[test]
fn callers_of_a_channel_get_the_same_frame() {
    let channel = Snowflake::new(7);
    let mut audio = ChannelAudio::new();
    setup_channel_ring_buffers(&mut audio, channel);
    audio.write_discord_to_sip(channel, &vec![5; SAMPLES_PER_FRAME]);
    audio.write_discord_to_sip(channel, &vec![6; SAMPLES_PER_FRAME]);
    let first = audio.channel_port_get_frame(channel, at_ms(1_000)).unwrap();
    let again = audio.channel_port_get_frame(channel, at_ms(1_001)).unwrap();
    assert_eq!(first, vec![5; SAMPLES_PER_FRAME]);
    assert_eq!(first, again);
    let later = audio.channel_port_get_frame(channel, at_ms(1_100)).unwrap();
    assert_eq!(later, vec![6; SAMPLES_PER_FRAME]);
}

#[test]
fn sound_of_callers_waits_for_discord() {
    let channel = Snowflake::new(8);
    let mut audio = ChannelAudio::new();
    audio.channel_port_put_frame(channel, &vec![3; SAMPLES_PER_FRAME], 10_000);
    audio.channel_port_put_frame(channel, &vec![4; SAMPLES_PER_FRAME], 10_000);
    let mut buf = vec![0; SAMPLES_PER_FRAME];
    assert_eq!(audio.drain_sip_to_discord_audio(channel, &mut buf), SAMPLES_PER_FRAME);
    assert_eq!(buf, vec![3; SAMPLES_PER_FRAME]);
    audio.clear_channel_stale_audio(channel);
    assert_eq!(audio.drain_sip_to_discord_audio(channel, &mut buf), 0);
}

#[test]
fn calls_are_connected_with_their_channel_and_each_other() {
    let others = vec![(CallId::new(2), ConfPort::new(12))];
    let slot = Some(ConfPort::new(3));
    let connect = connect_call_to_channel(ConfPort::new(11), &others, slot);
    assert!(connect.contains(&op(true, 11, 3)));
    assert!(connect.contains(&op(true, 3, 11)));
    assert!(connect.contains(&op(true, 11, 12)));
    assert!(connect.contains(&op(true, 12, 11)));
    let disconnect = disconnect_call_from_channel(ConfPort::new(11), &others, slot);
    assert_eq!(disconnect.len(), connect.len());
    assert!(disconnect.iter().all(|o| !o.connect));
}

#[test]
fn a_call_joins_its_channel_once_its_media_are_active() {
    let call = CallId::new(1);
    let channel = Snowflake::new(5);
    let mut audio = ChannelAudio::new();
    audio.channel_port_created(channel, ChannelPort { port: 1, slot: ConfPort::new(3) });
    assert_eq!(audio.get_channel_slot(channel), Some(ConfPort::new(3)));
    audio.register_call_channel(call, channel);
    assert!(audio.take_pending_connections().is_empty());
    let joined = audio
        .complete_pending_channel_registration(call, ConfPort::new(11))
        .unwrap();
    assert_eq!(joined.channel_id, channel);
    let mut active = Vec::new();
    audio.get_active_channels_into(&mut active);
    assert_eq!(active, vec![channel]);
    audio.unregister_call_channel(call);
    active.clear();
    audio.get_active_channels_into(&mut active);
    assert!(active.is_empty());
}

#[test]
fn a_call_on_hold_leaves_and_comes_back() {
    let call = CallId::new(1);
    let channel = Snowflake::new(5);
    let mut audio = ChannelAudio::new();
    audio.channel_port_created(channel, ChannelPort { port: 1, slot: ConfPort::new(3) });
    audio.set_call_conf_port(call, ConfPort::new(11));
    audio.register_call_channel(call, channel);
    let ops = audio.disconnect_call_for_hold(call);
    assert!(ops.iter().all(|o| !o.connect));
    assert_eq!(audio.call_conf_port(call), Some(ConfPort::new(11)));
    let mut active = Vec::new();
    audio.get_active_channels_into(&mut active);
    assert!(active.is_empty());
    let joined = audio
        .complete_pending_channel_registration(call, ConfPort::new(14))
        .unwrap();
    assert_eq!(joined.conf_port, ConfPort::new(14));
    audio.get_active_channels_into(&mut active);
    assert_eq!(active, vec![channel]);
}

#[test]
fn a_channel_port_is_cleaned_up_once() {
    let channel = Snowflake::new(5);
    let mut audio = ChannelAudio::new();
    audio.channel_port_created(channel, ChannelPort { port: 9, slot: ConfPort::new(3) });
    let removed = audio.cleanup_channel_port(channel).unwrap();
    assert_eq!(removed.port, 9);
    assert!(audio.cleanup_channel_port(channel).is_none());
    assert!(audio.get_channel_slot(channel).is_none());
}

#[test]
fn short_frames_are_padded_with_silence() {
    let frame = fill_audio_frame(&vec![1, 2]);
    assert_eq!(frame.len(), SAMPLES_PER_FRAME);
    assert_eq!(&frame[..3], &[1, 2, 0]);
    assert_eq!(fill_silence_frame(), vec![0; SAMPLES_PER_FRAME]);
}

#[test]
fn a_loop_starts_over_after_its_last_frame() {
    let call = CallId::new(1);
    let mut players = LoopingPlayers::new();
    assert!(matches!(players.start_loop(call, None), LoopStart::NoConfPort));
    assert!(matches!(
        players.start_loop(call, Some(ConfPort::new(4))),
        LoopStart::CreatePort { call_conf_port } if call_conf_port == ConfPort::new(4)
    ));
    let samples: Vec<i16> = (0..500).collect();
    let state = LoopingPlayerState { conf_slot: ConfPort::new(9), port_key: 77 };
    players.loop_started(call, state, samples.clone());
    assert!(matches!(
        players.start_loop(call, Some(ConfPort::new(4))),
        LoopStart::AlreadyPlaying
    ));
    assert_eq!(players.looping_player_get_frame(77), samples[..SAMPLES_PER_FRAME]);
    let mut tail = samples[SAMPLES_PER_FRAME..].to_vec();
    tail.resize(SAMPLES_PER_FRAME, 0);
    assert_eq!(players.looping_player_get_frame(77), tail);
    assert_eq!(players.looping_player_get_frame(77), samples[..SAMPLES_PER_FRAME]);
    assert_eq!(players.stop_loop(call), Some(ConfPort::new(9)));
    assert_eq!(players.looping_player_get_frame(77), vec![0; SAMPLES_PER_FRAME]);
    assert_eq!(players.stop_loop(call), None);
}

#[test]
fn a_stream_ends_with_a_hangup() {
    let call = CallId::new(3);
    let mut state = Some(StreamingPlayerState::new(call, true));
    assert!(matches!(streaming_get_frame(&mut state, true), StreamRequest::NextSamples));
    let mut inner = state.take().unwrap();
    assert_eq!(
        streaming_deliver(&mut inner, Some(vec![9; 10]), false)[..11],
        [9, 9, 9, 9, 9, 9, 9, 9, 9, 9, 0]
    );
    assert!(matches!(watch_streaming(Some(StreamingPlayerState::new(call, true))), WatchStep::Wait));
    streaming_deliver(&mut inner, None, true);
    assert!(matches!(
        watch_streaming(Some(inner)),
        WatchStep::Finish { hangup: Some(c) } if c == call
    ));
    assert!(matches!(watch_streaming(None), WatchStep::Gone));
}

#[test]
fn the_test_tone_repeats_its_period() {
    let mut state = Some(start_test_tone(CallId::new(1)));
    let period: Vec<i16> = (0..400).collect();
    let mut heard = test_tone_get_frame(&mut state, true, &period);
    heard.extend(test_tone_get_frame(&mut state, true, &period));
    let expected: Vec<i16> = period.iter().cycle().take(640).copied().collect();
    assert_eq!(heard, expected);
    assert_eq!(watch_test_tone(state), WatchStep::Wait);
    assert_eq!(
        test_tone_get_frame(&mut state, false, &period),
        vec![0; SAMPLES_PER_FRAME]
    );
    assert_eq!(watch_test_tone(state), WatchStep::Finish { hangup: None });
    assert_eq!(watch_test_tone(None), WatchStep::Gone);
}
