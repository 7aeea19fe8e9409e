//! Tests of the fax reception.

use sipcord_bridge::fax::audio_port::{
    create_fax_audio_port, fax_port_connected, get_rx_drop_count, remove_fax_audio_port, FaxPorts,
};
use sipcord_bridge::fax::error::{FaxError, FaxPageDataError};
use sipcord_bridge::fax::reception::{
    finish_session, handle_t38_switch, process_fax_audio, process_fax_t38, remote_address,
    session_posted, AudioEvent, AudioStage, FaxAction, FaxFailure, SwitchStage, T38Event,
    T38Stage,
};
use sipcord_bridge::ids::{CallId, ConfPort};
use sipcord_bridge::transport::sip::channel_audio::ChannelAudio;
use sipcord_bridge::transport::sip::ffi::frame_utils::SAMPLES_PER_FRAME;

#[test]
fn corrupt_page_error_has_stable_user_message_and_diagnostic_detail() {
    let error = FaxError::CorruptPageData(FaxPageDataError::TooShort {
        page_number: 2,
        decoded_rows: 4,
        minimum_rows: 64,
    });

    assert_eq!(
        error.message(),
        "Fax received with corrupt/incomplete page data"
    );
    let FaxError::CorruptPageData(source) = error else {
        panic!("expected corrupt page data error");
    };
    assert_eq!(
        source.message(),
        "TIFF page 2 decoded only 4 rows (minimum 64)"
    );
}

#[test]
fn each_error_has_its_text() {
    let mismatch = FaxPageDataError::RowCountMismatch {
        page_number: 1,
        decoded_rows: 90,
        declared_rows: 100,
        difference: 10,
        allowed_difference: 5,
    };
    assert_eq!(
        mismatch.message(),
        "TIFF page 1 decoded 90 rows, but TIFF declares 100 (difference 10, allowed 5)"
    );
    assert_eq!(
        FaxError::Discord("down".to_string()).message(),
        "Discord post failed: down"
    );
    assert_eq!(
        FaxError::InvalidToken("x".to_string()).message(),
        "invalid Discord bot token: x"
    );
    let io = FaxError::Io { context: "read".to_string(), source: "gone".to_string() };
    assert_eq!(io.message(), "fax I/O (read): gone");
    assert_eq!(
        FaxError::NonUtf8Path("p".to_string()).message(),
        "path is not valid UTF-8: p"
    );
    let dsp = FaxError::SpanDsp { operation: "init".to_string(), detail: "null".to_string() };
    assert_eq!(dsp.message(), "SpanDSP (init): null");
    assert_eq!(FaxError::Tiff("bad".to_string()).message(), "TIFF decode: bad");
    assert_eq!(FaxError::NoPages.message(), "no pages in received fax");
}

#[test]
fn a_fax_port_needs_the_slot_of_its_call() {
    let call = CallId::new(4);
    let mut audio = ChannelAudio::new();
    assert_eq!(create_fax_audio_port(&audio, call), None);
    audio.set_call_conf_port(call, ConfPort::new(-1));
    assert_eq!(create_fax_audio_port(&audio, call), None);
    audio.set_call_conf_port(call, ConfPort::new(6));
    assert_eq!(create_fax_audio_port(&audio, call), Some(ConfPort::new(6)));
}

#[test]
fn sound_of_the_caller_reaches_the_decoder_in_whole_frames() {
    let call = CallId::new(4);
    let mut ports = FaxPorts::new();
    ports.fax_port_created(call, 1, ConfPort::new(9));
    let sound: Vec<i16> = (0..500).collect();
    ports.fax_port_put_frame(call, &sound);
    let frames = ports.take_rx_frames(call);
    assert_eq!(frames, vec![sound[..SAMPLES_PER_FRAME].to_vec()]);
    ports.fax_port_put_frame(call, &sound);
    let frames = ports.take_rx_frames(call);
    let mut rest = sound[SAMPLES_PER_FRAME..].to_vec();
    rest.extend_from_slice(&sound);
    assert_eq!(frames.len(), 2);
    assert_eq!(frames.concat(), rest[..2 * SAMPLES_PER_FRAME]);
}

#[test]
fn sound_that_does_not_fit_is_counted() {
    let call = CallId::new(4);
    let mut ports = FaxPorts::new();
    assert_eq!(get_rx_drop_count(&ports, call), 0);
    ports.fax_port_created(call, 1, ConfPort::new(9));
    for _ in 0..50 {
        ports.fax_port_put_frame(call, &vec![1; SAMPLES_PER_FRAME]);
    }
    assert_eq!(get_rx_drop_count(&ports, call), 0);
    ports.fax_port_put_frame(call, &vec![1; SAMPLES_PER_FRAME]);
    assert_eq!(get_rx_drop_count(&ports, call), 1);
    remove_fax_audio_port(&mut ports, call);
    assert_eq!(get_rx_drop_count(&ports, call), 0);
}

#[test]
fn sound_of_the_decoder_reaches_the_caller() {
    let call = CallId::new(4);
    let mut ports = FaxPorts::new();
    assert_eq!(ports.fax_port_get_frame(call), vec![0; SAMPLES_PER_FRAME]);
    ports.fax_port_created(call, 1, ConfPort::new(9));
    ports.write_tx(call, &vec![8; SAMPLES_PER_FRAME], SAMPLES_PER_FRAME - 1);
    assert_eq!(ports.fax_port_get_frame(call), vec![0; SAMPLES_PER_FRAME]);
    ports.write_tx(call, &vec![8; SAMPLES_PER_FRAME], 1);
    assert_eq!(ports.fax_port_get_frame(call), vec![8; SAMPLES_PER_FRAME]);
}

#[test]
fn a_port_that_was_not_connected_is_removed() {
    let call = CallId::new(4);
    let mut ports = FaxPorts::new();
    ports.fax_port_created(call, 11, ConfPort::new(9));
    assert_eq!(fax_port_connected(&mut ports, call, Some(true)), None);
    assert_eq!(
        fax_port_connected(&mut ports, call, Some(false)),
        Some((11, ConfPort::new(9)))
    );
    assert_eq!(remove_fax_audio_port(&mut ports, call), None);
    ports.fax_port_created(call, 12, ConfPort::new(9));
    assert_eq!(
        fax_port_connected(&mut ports, call, None),
        Some((12, ConfPort::new(9)))
    );
}

#[test]
fn an_audio_task_retries_its_port_once() {
    let (stage, actions) = process_fax_audio(
        AudioStage::Starting,
        AudioEvent::Started { uses_t38: false, has_port: false },
    );
    assert_eq!((stage, actions), (AudioStage::WaitingForPort, vec![]));
    let (stage, actions) = process_fax_audio(
        stage,
        AudioEvent::Waited { cancelled: false, uses_t38: false },
    );
    assert_eq!((stage, actions), (AudioStage::CreatingPort, vec![FaxAction::CreatePort]));
    let (stage, actions) = process_fax_audio(
        stage,
        AudioEvent::PortCreated { created: false, uses_t38: false },
    );
    assert_eq!(stage, AudioStage::Done);
    assert_eq!(
        actions,
        vec![
            FaxAction::PostFailure { failure: FaxFailure::NoAudioPath },
            FaxAction::Hangup
        ]
    );
    assert_eq!(
        FaxFailure::NoAudioPath.message(),
        "Failed to establish audio path for fax reception"
    );
}

#[test]
fn an_audio_task_gives_way_to_t38() {
    let (stage, actions) = process_fax_audio(
        AudioStage::Starting,
        AudioEvent::Started { uses_t38: true, has_port: true },
    );
    assert_eq!((stage, actions), (AudioStage::Done, vec![FaxAction::RemovePort]));
    let (stage, actions) = process_fax_audio(
        AudioStage::Running,
        AudioEvent::Tick { cancelled: false, uses_t38: true },
    );
    assert_eq!((stage, actions), (AudioStage::Done, vec![]));
}

#[test]
fn an_audio_task_ends_in_each_of_its_ways() {
    let done = |finished, fax_received, timed_out| {
        process_fax_audio(
            AudioStage::Running,
            AudioEvent::TickDone { finished, fax_received, timed_out },
        )
    };
    assert_eq!(done(false, false, false), (AudioStage::Running, vec![]));
    assert_eq!(done(true, false, false), (AudioStage::Done, vec![FaxAction::Hangup]));
    assert_eq!(
        done(true, true, true),
        (AudioStage::Posting, vec![FaxAction::ConvertAndPost])
    );
    assert_eq!(
        done(false, false, true).1,
        vec![
            FaxAction::PostFailure { failure: FaxFailure::TimedOut },
            FaxAction::Hangup
        ]
    );
    assert_eq!(
        process_fax_audio(AudioStage::Posting, AudioEvent::Posted { posted: true }),
        (AudioStage::Done, vec![FaxAction::Hangup])
    );
    assert_eq!(
        process_fax_audio(AudioStage::Posting, AudioEvent::Posted { posted: false }).1,
        vec![
            FaxAction::PostFailure { failure: FaxFailure::ProcessingFailed },
            FaxAction::Hangup
        ]
    );
    assert_eq!(FaxFailure::TimedOut.message(), "Fax reception timed out");
    assert_eq!(
        FaxFailure::ProcessingFailed.message(),
        "Failed to process received fax"
    );
}

#[test]
fn feeding_stops_at_the_packet_that_completes_the_fax() {
    let (stage, actions) =
        process_fax_t38(T38Stage::Running, T38Event::Batch { packets: 3, stale: false });
    assert_eq!((stage, actions), (T38Stage::Feeding { left: 2 }, vec![FaxAction::FeedNext]));
    let (stage, actions) =
        process_fax_t38(stage, T38Event::Fed { completed: false, finished: false });
    assert_eq!((stage, actions), (T38Stage::Feeding { left: 1 }, vec![FaxAction::FeedNext]));
    let (stage, actions) =
        process_fax_t38(stage, T38Event::Fed { completed: true, finished: true });
    assert_eq!((stage, actions), (T38Stage::Posting, vec![FaxAction::ConvertAndPost]));
    assert_eq!(
        process_fax_t38(stage, T38Event::Posted { posted: true }),
        (T38Stage::Done, vec![FaxAction::Hangup])
    );
}

#[test]
fn stale_packets_and_receive_errors_are_passed_over() {
    assert_eq!(
        process_fax_t38(T38Stage::Running, T38Event::Batch { packets: 0, stale: true }),
        (T38Stage::Running, vec![])
    );
    assert_eq!(
        process_fax_t38(T38Stage::Running, T38Event::RxError),
        (T38Stage::Running, vec![])
    );
    assert_eq!(
        process_fax_t38(T38Stage::Running, T38Event::Cancelled),
        (T38Stage::Done, vec![])
    );
    assert_eq!(
        process_fax_t38(
            T38Stage::Running,
            T38Event::TimerDriven { completed: false, finished: true, timed_out: true }
        ),
        (T38Stage::Done, vec![FaxAction::Hangup])
    );
}

#[test]
fn a_switch_to_t38_goes_step_by_step() {
    let mut stage = SwitchStage::TakingSocket;
    let mut all = Vec::new();
    while stage != SwitchStage::Done {
        let (next, actions) = handle_t38_switch(stage, true);
        stage = next;
        all.extend(actions);
    }
    assert_eq!(
        all,
        vec![
            FaxAction::AdoptSocket,
            FaxAction::ConnectRemote,
            FaxAction::CreateDecoder,
            FaxAction::SwitchSession,
            FaxAction::RemovePort,
            FaxAction::StartT38,
        ]
    );
    assert_eq!(
        handle_t38_switch(SwitchStage::ConnectingRemote, false),
        (SwitchStage::Done, vec![FaxAction::Hangup])
    );
    assert_eq!(remote_address("198.51.100.7", 4000), "198.51.100.7:4000");
}

#[test]
fn pages_of_an_ended_call_are_posted() {
    assert_eq!(finish_session(true, 3), vec![]);
    assert_eq!(
        finish_session(false, 1),
        vec![FaxAction::MarkReceived, FaxAction::ConvertAndPost]
    );
    assert_eq!(
        finish_session(false, 0),
        vec![FaxAction::PostFailure { failure: FaxFailure::HungUp }]
    );
    assert_eq!(session_posted(true), vec![]);
    assert_eq!(
        session_posted(false),
        vec![FaxAction::PostFailure { failure: FaxFailure::ProcessingFailed }]
    );
    assert_eq!(
        FaxFailure::HungUp.message(),
        "Caller hung up before fax completed"
    );
}
