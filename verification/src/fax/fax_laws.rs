//! How a fax comes in, from its sound or its packets to its end.
//!
//! The laws speak of what the operations are given and of what they give.

use crate::call::t38::{SequencedIfpBatch, T38IfpSequencer};
use crate::fax::audio_port::{
    create_fax_audio_port, fax_port_connected, get_rx_drop_count, remove_fax_audio_port, FaxPorts,
};
use crate::fax::audio_port;
use crate::fax::error::{FaxError, FaxPageDataError};
use crate::fax::reception::{
    finish_session, handle_t38_switch, process_fax_audio, process_fax_t38, session_posted,
    AudioEvent, AudioStage, FaxAction, FaxFailure, SwitchStage, T38Event, T38Stage,
};
use crate::ids::{CallId, ConfPort};
use crate::ring::SampleRing;
use crate::transport::sip::channel_audio::ChannelAudio;
use vstd::prelude::*;

verus! {

// Sound

/// Whether the port of a call is the same, and what it has dropped.
pub open spec fn same_port(
    before: audio_port::FaxPortsView,
    after: audio_port::FaxPortsView,
    call: i32,
) -> bool {
    &&& after.ports.contains_key(call) <==> before.ports.contains_key(call)
    &&& after.ports[call] == before.ports[call]
    &&& after.rx_drops.contains_key(call) <==> before.rx_drops.contains_key(call)
    &&& after.rx_drops[call] == before.rx_drops[call]
}

/// A new port is empty, with room for a second of sound from the caller and 200 ms
/// for the caller, and has dropped nothing. It is found by its key until it is
/// removed.
pub proof fn law_new_port_is_empty(
    ports: &mut FaxPorts,
    call: CallId,
    key: u64,
    slot: ConfPort,
    later: &mut FaxPorts,
    removed: Option<(u64, ConfPort)>,
    seen: &FaxPorts,
    drops: u64,
    other: i32,
)
    requires
        call_ensures(FaxPorts::fax_port_created, (ports, call, key, slot), ()),
        seen@ == final(ports)@,
        call_ensures(get_rx_drop_count, (seen, call), drops),
        old(later)@ == final(ports)@,
        call_ensures(remove_fax_audio_port, (later, call), removed),
    ensures
        ({
            let port = final(ports)@.ports[call.raw];
            &&& final(ports)@.ports.contains_key(call.raw)
            &&& port.rx.items.len() == 0 && port.rx.capacity == 16000
            &&& port.tx.items.len() == 0 && port.tx.capacity == 3200
            &&& port.port == key && port.slot == slot
            &&& drops == 0
            &&& removed == Some((key, slot))
            &&& !final(later)@.ports.contains_key(call.raw)
            &&& !final(later)@.rx_drops.contains_key(call.raw)
            &&& other != call.raw ==> same_port(old(ports)@, final(later)@, other)
        }),
{
}

/// The sound of the caller is kept behind what waits, whole or not at all; sound
/// that finds no room is dropped and counted. Without a port, or without samples,
/// nothing happens.
pub proof fn law_sound_of_the_caller_is_kept(
    ports: &mut FaxPorts,
    call: CallId,
    samples: &Vec<i16>,
    other: i32,
)
    requires
        call_ensures(FaxPorts::fax_port_put_frame, (ports, call, samples), ()),
    ensures
        ({
            let port = old(ports)@.ports[call.raw];
            let after = final(ports)@.ports[call.raw];
            let comes = samples@.len() > 0 && old(ports)@.ports.contains_key(call.raw);
            let fits = port.rx.items.len() + samples@.len() <= port.rx.capacity;
            &&& !comes ==> final(ports)@ == old(ports)@
            &&& comes && fits ==> after.rx.items == port.rx.items + samples@ && after.rx.capacity
                == port.rx.capacity && after.tx == port.tx && after.port == port.port && after.slot
                == port.slot && final(ports)@.rx_drops == old(ports)@.rx_drops
            &&& comes && !fits ==> final(ports)@.ports == old(ports)@.ports && (old(
                ports,
            )@.rx_drops.contains_key(call.raw) && old(ports)@.rx_drops[call.raw] < u64::MAX
                ==> final(ports)@.rx_drops[call.raw] == old(ports)@.rx_drops[call.raw] + 1)
            &&& other != call.raw ==> same_port(old(ports)@, final(ports)@, other)
        }),
{
}

/// The decoder gets the sound of the caller in whole frames of 320 samples, in
/// order, as many as there are; what is left is less than a frame and stays.
pub proof fn law_decoder_gets_whole_frames(
    ports: &mut FaxPorts,
    call: CallId,
    frames: Vec<Vec<i16>>,
    other: i32,
)
    requires
        call_ensures(FaxPorts::take_rx_frames, (ports, call), frames),
    ensures
        !old(ports)@.ports.contains_key(call.raw) ==> frames@.len() == 0 && final(ports)@ == old(
            ports,
        )@,
        old(ports)@.ports.contains_key(call.raw) ==> {
            let waiting = old(ports)@.ports[call.raw].rx.items;
            let left = final(ports)@.ports[call.raw].rx.items;
            &&& frames@.len() * 320 + left.len() == waiting.len()
            &&& left.len() < 320
            &&& left == waiting.skip(frames@.len() as int * 320)
            &&& forall|k: int|
                0 <= k < frames@.len() ==> (#[trigger] frames@[k])@ == waiting.subrange(
                    k * 320,
                    k * 320 + 320,
                )
            &&& final(ports)@.ports[call.raw].tx == old(ports)@.ports[call.raw].tx
            &&& final(ports)@.rx_drops == old(ports)@.rx_drops
        },
        other != call.raw ==> same_port(old(ports)@, final(ports)@, other),
{
    if old(ports)@.ports.contains_key(call.raw) {
        let n = old(ports)@.ports[call.raw].rx.items.len() as int;
        assert(n / 320 * 320 <= n < n / 320 * 320 + 320);
        assert forall|k: int| 0 <= k < frames@.len() implies (#[trigger] frames@[k])@ == old(
            ports,
        )@.ports[call.raw].rx.items.subrange(k * 320, k * 320 + 320) by {
            assert((k + 1) * 320 == k * 320 + 320);
        }
    }
}

/// The caller hears the decoder in order: what is sent stands behind what waits, as
/// far as there is room, and is heard by whole frames; without a whole frame the
/// caller hears silence, and nothing is lost.
pub proof fn law_caller_hears_the_decoder(
    ports: &mut FaxPorts,
    call: CallId,
    samples: &Vec<i16>,
    count: usize,
    later: &mut FaxPorts,
    frame: Vec<i16>,
    other: i32,
)
    requires
        count <= samples@.len(),
        call_ensures(FaxPorts::write_tx, (ports, call, samples, count), ()),
        old(later)@ == final(ports)@,
        call_ensures(FaxPorts::fax_port_get_frame, (later, call), frame),
        old(ports)@.ports[call.raw].tx.items.len() <= old(ports)@.ports[call.raw].tx.capacity,
    ensures
        frame@.len() == 320,
        !old(ports)@.ports.contains_key(call.raw) ==> final(later)@ == old(ports)@ && forall|k: int|
            0 <= k < 320 ==> #[trigger] frame@[k] == 0,
        old(ports)@.ports.contains_key(call.raw) ==> {
            let port = old(ports)@.ports[call.raw];
            let room = port.tx.capacity - port.tx.items.len();
            let queue = final(ports)@.ports[call.raw].tx.items;
            let left = final(later)@.ports[call.raw].tx.items;
            &&& count <= room ==> queue == port.tx.items + samples@.take(count as int)
            &&& count > room ==> queue == port.tx.items + samples@.take(room)
            &&& final(ports)@.ports[call.raw].rx == port.rx
            &&& queue.len() >= 320 ==> frame@ == queue.take(320) && left == queue.skip(320)
            &&& queue.len() < 320 ==> left == queue && forall|k: int|
                0 <= k < 320 ==> #[trigger] frame@[k] == 0
            &&& final(later)@.ports[call.raw].rx == port.rx
            &&& final(later)@.ports[call.raw].port == port.port
        },
        other != call.raw ==> same_port(old(ports)@, final(later)@, other),
{
    if old(ports)@.ports.contains_key(call.raw) {
        let port = old(ports)@.ports[call.raw];
        let room = port.tx.capacity - port.tx.items.len();
        let sent = samples@.take(count as int);
        if count <= room {
            assert(sent.take(count as int) =~= sent);
        } else {
            assert(sent.take(room) =~= samples@.take(room));
        }
    }
}

/// A port is made where the media of the call have a slot, and stays only where it
/// could be connected with it.
pub proof fn law_port_needs_the_media_of_its_call(
    audio: &ChannelAudio,
    call: CallId,
    slot: Option<ConfPort>,
    ports: &mut FaxPorts,
    connected: Option<bool>,
    removed: Option<(u64, ConfPort)>,
)
    requires
        call_ensures(create_fax_audio_port, (audio, call), slot),
        call_ensures(fax_port_connected, (ports, call, connected), removed),
    ensures
        slot is Some <==> audio@.conf_ports.contains_key(call.raw) && audio@.conf_ports[call.raw]
            >= 0,
        slot is Some ==> slot->0.raw == audio@.conf_ports[call.raw],
        connected == Some(true) ==> removed is None && final(ports)@ == old(ports)@,
        connected != Some(true) ==> !final(ports)@.ports.contains_key(call.raw) && (removed is Some
            <==> old(ports)@.ports.contains_key(call.raw)) && (removed is Some ==> (removed->0).0
            == old(ports)@.ports[call.raw].port && (removed->0).1
            == old(ports)@.ports[call.raw].slot),
{
}

/// What is written to a ring is read from it in the same order, once; a ring that
/// has no room refuses.
pub proof fn law_ring_gives_back_what_it_took(
    ring: &mut SampleRing,
    samples: &Vec<i16>,
    written: bool,
    later: &mut SampleRing,
    n: usize,
    out: Vec<i16>,
)
    requires
        call_ensures(SampleRing::write, (ring, samples), written),
        old(later)@ == final(ring)@,
        n <= old(later)@.items.len(),
        call_ensures(SampleRing::read, (later, n), out),
    ensures
        written <==> old(ring)@.items.len() + samples@.len() <= old(ring)@.capacity,
        out@ + final(later)@.items == (if written {
            old(ring)@.items + samples@
        } else {
            old(ring)@.items
        }),
        out@.len() == n,
        final(later)@.capacity == old(ring)@.capacity,
{
    assert(out@ + final(later)@.items =~= old(later)@.items);
}

// Packets

/// A packet that is not behind what was delivered is delivered, last and as it
/// came, and the next one is expected. Before it come those that were missed, oldest
/// first, as far as the packet repeats them; the others are counted as lost.
pub proof fn law_packets_are_delivered_in_order<'a>(
    seq: &mut T38IfpSequencer,
    number: u16,
    body: &'a [u8],
    repeated: &'a [Vec<u8>],
    batch: SequencedIfpBatch<'a>,
    expected: u16,
    k: int,
)
    requires
        call_ensures(T38IfpSequencer::accept, (seq, number, body, repeated), batch),
        old(seq).next_seq == Some(expected),
    ensures
        ({
            let ahead = if number >= expected {
                number - expected
            } else {
                number - expected + 65536
            };
            let known = if repeated@.len() <= 65535 {
                repeated@.len() as int
            } else {
                65535
            };
            let count = if ahead <= known {
                ahead
            } else {
                known
            };
            &&& batch.stale <==> ahead >= 32768
            &&& batch.stale ==> batch.packets@.len() == 0 && batch.unrecovered_packets == 0
                && final(seq).next_seq == old(seq).next_seq
            &&& !batch.stale ==> {
                &&& batch.packets@.len() == count + 1
                &&& batch.unrecovered_packets == ahead - count
                &&& batch.packets@[count].seq_number == number
                &&& batch.packets@[count].data@ == body@
                &&& !batch.packets@[count].recovered
                &&& 0 <= k < count ==> batch.packets@[k].recovered && batch.packets@[k].data@
                    == repeated@[count - 1 - k]@
                &&& 0 <= k < count && number >= count - k ==> batch.packets@[k].seq_number == number
                    - (count - k)
                &&& number < 65535 ==> final(seq).next_seq == Some((number + 1) as u16)
                &&& number == 65535 ==> final(seq).next_seq == Some(0u16)
            }
        }),
{
    let ahead = (number - expected) % 65536;
    let seen = batch@.packets;
    assert(seen.len() == batch.packets@.len());
    assert(batch@.stale == batch.stale);
    assert(batch@.unrecovered_packets == batch.unrecovered_packets);
    if !batch.stale {
        let count = crate::call::t38::recovered_count(Some(expected), number, repeated@.len());
        assert(seen[count] == batch.packets@[count]@);
        if 0 <= k < count {
            assert(seen[k] == batch.packets@[k]@);
            let bodies = crate::call::t38::bodies(repeated@);
            assert(bodies[count - 1 - k] == repeated@[count - 1 - k]@);
        }
    }
}

/// The first packet is delivered after all that it repeats, and nothing counts as
/// lost.
pub proof fn law_first_packet_brings_what_it_repeats<'a>(
    seq: &mut T38IfpSequencer,
    number: u16,
    body: &'a [u8],
    repeated: &'a [Vec<u8>],
    batch: SequencedIfpBatch<'a>,
    k: int,
)
    requires
        call_ensures(T38IfpSequencer::accept, (seq, number, body, repeated), batch),
        old(seq).next_seq is None,
        repeated@.len() <= 65535,
    ensures
        !batch.stale,
        batch.unrecovered_packets == 0,
        batch.packets@.len() == repeated@.len() + 1,
        batch.packets@.last().seq_number == number,
        batch.packets@.last().data@ == body@,
        !batch.packets@.last().recovered,
        0 <= k < repeated@.len() ==> batch.packets@[k].recovered && batch.packets@[k].data@
            == repeated@[repeated@.len() - 1 - k]@,
{
    let seen = batch@.packets;
    assert(seen.len() == batch.packets@.len());
    let n = repeated@.len() as int;
    assert(seen[n] == batch.packets@[n]@);
    if 0 <= k < n {
        assert(seen[k] == batch.packets@[k]@);
        let bodies = crate::call::t38::bodies(repeated@);
        assert(bodies[n - 1 - k] == repeated@[n - 1 - k]@);
    }
}

// The course of a reception

/// The audio task waits for its port and works frame by frame until the fax is
/// over. A fax that was received is posted, one that was not ends the call, and one
/// that takes too long is told of first. A task that is cancelled, or whose session
/// went to T.38, ends without a word.
pub proof fn law_course_of_the_audio_task(
    stage: AudioStage,
    event: AudioEvent,
    r: (AudioStage, Vec<FaxAction>),
)
    requires
        call_ensures(process_fax_audio, (stage, event), r),
    ensures
        stage is Starting ==> (event matches AudioEvent::Started { uses_t38, has_port } ==> {
            &&& uses_t38 ==> r.0 is Done && r.1@.len() == (if has_port {
                1int
            } else {
                0int
            }) && (has_port ==> r.1@[0] == FaxAction::RemovePort)
            &&& !uses_t38 ==> r.1@.len() == 0
            &&& !uses_t38 && has_port ==> r.0 is Running
            &&& !uses_t38 && !has_port ==> r.0 is WaitingForPort
        }),
        stage is WaitingForPort ==> (event matches AudioEvent::Waited { cancelled, uses_t38 } ==> {
            &&& cancelled || uses_t38 ==> r.0 is Done && r.1@.len() == 0
            &&& !cancelled && !uses_t38 ==> r.0 is CreatingPort && r.1@.len() == 1 && r.1@[0]
                == FaxAction::CreatePort
        }),
        stage is CreatingPort ==> (event matches AudioEvent::PortCreated { created, uses_t38 } ==> {
            &&& uses_t38 ==> r.0 is Done && r.1@.len() == (if created {
                1int
            } else {
                0int
            }) && (created ==> r.1@[0] == FaxAction::RemovePort)
            &&& !uses_t38 && created ==> r.0 is Running && r.1@.len() == 0
            &&& !uses_t38 && !created ==> r.0 is Done && r.1@.len() == 2 && r.1@[0] == (
            FaxAction::PostFailure { failure: FaxFailure::NoAudioPath }) && r.1@[1]
                == FaxAction::Hangup
        }),
        stage is Running ==> (event matches AudioEvent::Tick { cancelled, uses_t38 } ==> {
            &&& cancelled || uses_t38 ==> r.0 is Done && r.1@.len() == 0
            &&& !cancelled && !uses_t38 ==> r.0 is Running && r.1@.len() == 1 && r.1@[0]
                == FaxAction::WorkTick
        }),
        stage is Running ==> (event matches AudioEvent::TickDone {
            finished,
            fax_received,
            timed_out,
        } ==> {
            &&& finished && fax_received ==> r.0 is Posting && r.1@.len() == 1 && r.1@[0]
                == FaxAction::ConvertAndPost
            &&& finished && !fax_received ==> r.0 is Done && r.1@.len() == 1 && r.1@[0]
                == FaxAction::Hangup
            &&& !finished && timed_out ==> r.0 is Done && r.1@.len() == 2 && r.1@[0] == (
            FaxAction::PostFailure { failure: FaxFailure::TimedOut }) && r.1@[1]
                == FaxAction::Hangup
            &&& !finished && !timed_out ==> r.0 is Running && r.1@.len() == 0
        }),
        stage is Posting ==> (event matches AudioEvent::Posted { posted } ==> {
            &&& r.0 is Done
            &&& r.1@.last() == FaxAction::Hangup
            &&& posted ==> r.1@.len() == 1
            &&& !posted ==> r.1@.len() == 2 && r.1@[0] == (FaxAction::PostFailure {
                failure: FaxFailure::ProcessingFailed,
            })
        }),
        stage is Done ==> r.0 is Done && r.1@.len() == 0,
{
}

/// The T.38 task feeds the packets of a batch one by one, until the fax is complete
/// or they are used up. A fax that was received is posted, one that was not ends
/// the call, and one that takes too long is told of first.
pub proof fn law_course_of_the_t38_task(
    stage: T38Stage,
    event: T38Event,
    r: (T38Stage, Vec<FaxAction>),
)
    requires
        call_ensures(process_fax_t38, (stage, event), r),
    ensures
        stage is Running && event is Cancelled ==> r.0 is Done && r.1@.len() == 0,
        event is RxError ==> r.0 == stage && r.1@.len() == 0,
        stage is Running ==> (event matches T38Event::Batch { packets, stale } ==> {
            &&& stale || packets == 0 ==> r.0 is Running && r.1@.len() == 0
            &&& !stale && packets > 0 ==> r.1@.len() == 1 && r.1@[0] == FaxAction::FeedNext
                && r.0 == (T38Stage::Feeding { left: (packets - 1) as usize })
        }),
        stage matches T38Stage::Feeding { left } ==> (event matches T38Event::Fed {
            completed,
            finished,
        } ==> {
            &&& completed ==> r.0 is Posting && r.1@.len() == 1 && r.1@[0]
                == FaxAction::ConvertAndPost
            &&& !completed && left > 0 ==> r.1@.len() == 1 && r.1@[0] == FaxAction::FeedNext && r.0
                == (T38Stage::Feeding { left: (left - 1) as usize })
            &&& !completed && left == 0 && finished ==> r.0 is Done && r.1@.len() == 1 && r.1@[0]
                == FaxAction::Hangup
            &&& !completed && left == 0 && !finished ==> r.0 is Running && r.1@.len() == 0
        }),
        stage is Running ==> (event matches T38Event::TimerDriven {
            completed,
            finished,
            timed_out,
        } ==> {
            &&& completed ==> r.0 is Posting && r.1@.len() == 1 && r.1@[0]
                == FaxAction::ConvertAndPost
            &&& !completed && finished ==> r.0 is Done && r.1@.len() == 1 && r.1@[0]
                == FaxAction::Hangup
            &&& !completed && !finished && timed_out ==> r.0 is Done && r.1@.len() == 2 && r.1@[0]
                == (FaxAction::PostFailure { failure: FaxFailure::TimedOut }) && r.1@[1]
                == FaxAction::Hangup
            &&& !completed && !finished && !timed_out ==> r.0 is Running && r.1@.len() == 0
        }),
        stage is Posting ==> (event matches T38Event::Posted { posted } ==> {
            &&& r.0 is Done
            &&& r.1@.last() == FaxAction::Hangup
            &&& posted ==> r.1@.len() == 1
            &&& !posted ==> r.1@.len() == 2 && r.1@[0] == (FaxAction::PostFailure {
                failure: FaxFailure::ProcessingFailed,
            })
        }),
        stage is Done ==> r.0 is Done && r.1@.len() == 0,
{
}

/// The switch to T.38 takes its steps one after the other, and the session is
/// switched before its port goes and the packets come. A step that fails ends the
/// call.
pub proof fn law_course_of_the_switch(
    found: (SwitchStage, Vec<FaxAction>),
    adopted: (SwitchStage, Vec<FaxAction>),
    connected: (SwitchStage, Vec<FaxAction>),
    created: (SwitchStage, Vec<FaxAction>),
    stage: SwitchStage,
    failed: (SwitchStage, Vec<FaxAction>),
)
    requires
        call_ensures(handle_t38_switch, (SwitchStage::TakingSocket, true), found),
        call_ensures(handle_t38_switch, (found.0, true), adopted),
        call_ensures(handle_t38_switch, (adopted.0, true), connected),
        call_ensures(handle_t38_switch, (connected.0, true), created),
        call_ensures(handle_t38_switch, (stage, false), failed),
    ensures
        found.1@ =~= seq![FaxAction::AdoptSocket],
        adopted.1@ =~= seq![FaxAction::ConnectRemote],
        connected.1@ =~= seq![FaxAction::CreateDecoder],
        created.1@ =~= seq![
            FaxAction::SwitchSession,
            FaxAction::RemovePort,
            FaxAction::StartT38,
        ],
        created.0 is Done,
        failed.0 is Done,
        !(stage is Done) ==> failed.1@ =~= seq![FaxAction::Hangup],
        stage is Done ==> failed.1@.len() == 0,
{
}

/// When the caller hangs up, a fax of which a page came is posted, and one of which
/// none came is told of; one that was over is not touched. What could not be posted
/// is told of, and nobody is hung up then.
pub proof fn law_caller_who_hangs_up(
    finished: bool,
    pages: u32,
    actions: Vec<FaxAction>,
    posted: bool,
    then: Vec<FaxAction>,
)
    requires
        call_ensures(finish_session, (finished, pages), actions),
        call_ensures(session_posted, (posted,), then),
    ensures
        finished ==> actions@.len() == 0,
        !finished && pages > 0 ==> actions@ =~= seq![
            FaxAction::MarkReceived,
            FaxAction::ConvertAndPost,
        ],
        !finished && pages == 0 ==> actions@ =~= seq![
            FaxAction::PostFailure { failure: FaxFailure::HungUp },
        ],
        posted ==> then@.len() == 0,
        !posted ==> then@ =~= seq![
            FaxAction::PostFailure { failure: FaxFailure::ProcessingFailed },
        ],
{
}

/// Each failure is told in its own words, and the remote side of a fax is named by
/// address and port.
pub proof fn law_failures_are_told_in_their_words(
    failure: &FaxFailure,
    words: &'static str,
    ip: &str,
    port: u16,
    out: String,
)
    requires
        call_ensures(FaxFailure::message, (failure,), words),
        call_ensures(crate::fax::reception::remote_address, (ip, port), out),
    ensures
        *failure is NoAudioPath ==> words@ == "Failed to establish audio path for fax reception"@,
        *failure is ProcessingFailed ==> words@ == "Failed to process received fax"@,
        *failure is TimedOut ==> words@ == "Fax reception timed out"@,
        *failure is HungUp ==> words@ == "Caller hung up before fax completed"@,
        out@ == ip@ + ":"@ + crate::text::decimal(port as nat),
{
}

/// Each error is told with what it holds.
pub proof fn law_errors_tell_what_they_hold(error: &FaxError, words: String)
    requires
        call_ensures(FaxError::message, (error,), words),
    ensures
        match *error {
            FaxError::Discord(detail) => words@ == "Discord post failed: "@ + detail@,
            FaxError::InvalidToken(detail) => words@ == "invalid Discord bot token: "@ + detail@,
            FaxError::Io { context, source } => words@ == "fax I/O ("@ + context@ + "): "@
                + source@,
            FaxError::NonUtf8Path(path) => words@ == "path is not valid UTF-8: "@ + path@,
            FaxError::SpanDsp { operation, detail } => words@ == "SpanDSP ("@ + operation@ + "): "@
                + detail@,
            FaxError::Tiff(detail) => words@ == "TIFF decode: "@ + detail@,
            FaxError::CorruptPageData(_) => words@
                == "Fax received with corrupt/incomplete page data"@,
            FaxError::NoPages => words@ == "no pages in received fax"@,
        },
{
}

/// A page that is too short, or whose rows do not match what its file declares, is
/// told with its numbers.
pub proof fn law_page_errors_tell_their_numbers(error: &FaxPageDataError, words: String)
    requires
        call_ensures(FaxPageDataError::message, (error,), words),
    ensures
        match *error {
            FaxPageDataError::TooShort { page_number, decoded_rows, minimum_rows } => words@
                == "TIFF page "@ + crate::text::decimal(page_number as nat) + " decoded only "@
                + crate::text::decimal(decoded_rows as nat) + " rows (minimum "@
                + crate::text::decimal(minimum_rows as nat) + ")"@,
            FaxPageDataError::RowCountMismatch {
                page_number,
                decoded_rows,
                declared_rows,
                difference,
                allowed_difference,
            } => words@ == "TIFF page "@ + crate::text::decimal(page_number as nat) + " decoded "@
                + crate::text::decimal(decoded_rows as nat) + " rows, but TIFF declares "@
                + crate::text::decimal(declared_rows as nat) + " (difference "@
                + crate::text::decimal(difference as nat) + ", allowed "@ + crate::text::decimal(
                allowed_difference as nat,
            ) + ")"@,
        },
{
}

} // verus!
