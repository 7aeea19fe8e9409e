//! The audio port of a fax call.
//!
//! Sound of the caller goes through one ring buffer to the fax decoder, sound
//! of the decoder through another back to the caller.

use crate::ids::{CallId, ConfPort};
use crate::ring;
use crate::ring::SampleRing;
use crate::table;
use crate::table::{new_number_table, table_get, table_insert, table_remove, Stored};
use crate::transport::sip::channel_audio::ChannelAudio;
use crate::transport::sip::ffi::frame_utils;
use crate::transport::sip::ffi::frame_utils::{
    fill_silence_frame, samples_between, SAMPLES_PER_FRAME,
};
use dashmap::DashMap;
use vstd::prelude::*;

verus! {

/// Room for the sound of the caller: one second.
pub const FAX_AUDIO_RING_BUFFER_SIZE: usize = 16_000;

/// Room for the sound of the decoder: 200 ms.
pub const FAX_TX_RING_BUFFER_SIZE: usize = 3_200;

/// The two ring buffers of the audio port of one fax call.
pub struct FaxAudioPorts {
    /// Sound of the caller for the fax decoder.
    pub rx: SampleRing,
    /// Sound of the fax decoder for the caller.
    pub tx: SampleRing,
    /// The key of the port in the SIP stack.
    pub port: u64,
    pub slot: ConfPort,
}

/// A fax port in the model.
pub ghost struct FaxPortView {
    pub rx: ring::RingView,
    pub tx: ring::RingView,
    pub port: u64,
    pub slot: ConfPort,
}

impl View for FaxAudioPorts {
    type V = FaxPortView;

    open spec fn view(&self) -> FaxPortView {
        FaxPortView {
            rx: self.rx@,
            tx: self.tx@,
            port: self.port,
            slot: self.slot,
        }
    }
}

impl FaxPortView {
    /// A port without sound.
    pub open spec fn fresh(port: u64, slot: ConfPort) -> FaxPortView {
        FaxPortView {
            rx: ring::RingView::fresh(FAX_AUDIO_RING_BUFFER_SIZE as nat),
            tx: ring::RingView::fresh(FAX_TX_RING_BUFFER_SIZE as nat),
            port,
            slot,
        }
    }

    /// Whether there is a whole frame for the caller.
    pub open spec fn has_frame(self) -> bool {
        self.tx.items.len() >= SAMPLES_PER_FRAME
    }

    /// The next frame for the caller: silence where there is not a whole one.
    pub open spec fn frame(self) -> Seq<i16> {
        if self.has_frame() {
            self.tx.items.take(SAMPLES_PER_FRAME as int)
        } else {
            frame_utils::silence(SAMPLES_PER_FRAME as int)
        }
    }

    /// The port after that frame.
    pub open spec fn after_frame(self) -> FaxPortView {
        if self.has_frame() {
            FaxPortView { tx: self.tx.read(SAMPLES_PER_FRAME as int), ..self }
        } else {
            self
        }
    }

    /// How many whole frames of the caller wait.
    pub open spec fn whole_frames(self) -> int {
        self.rx.items.len() as int / SAMPLES_PER_FRAME as int
    }

    /// The port after its whole frames were taken.
    pub open spec fn drained(self) -> FaxPortView {
        FaxPortView { rx: self.rx.read(self.whole_frames() * SAMPLES_PER_FRAME), ..self }
    }

    /// How many samples of the decoder are taken.
    pub open spec fn takes(self, count: int) -> int {
        if count <= self.tx.capacity - self.tx.items.len() {
            count
        } else {
            self.tx.capacity - self.tx.items.len()
        }
    }

    /// The port after samples of the decoder came in; what there is no room for
    /// is dropped.
    pub open spec fn sent(self, samples: Seq<i16>) -> FaxPortView {
        FaxPortView {
            tx: ring::RingView {
                items: self.tx.items + samples.take(self.takes(samples.len() as int)),
                ..self.tx
            },
            ..self
        }
    }
}

/// The contents of the table of fax ports.
pub uninterp spec fn fax_port_entries(table: DashMap<i32, FaxAudioPorts>) -> Map<i32, FaxPortView>;

impl Stored<i32> for FaxAudioPorts {
    open spec fn entries(table: DashMap<i32, FaxAudioPorts>) -> Map<i32, FaxPortView> {
        fax_port_entries(table)
    }
}

/// `DashMap::new`: an empty table.
#[verifier::external_body]
fn new_fax_port_table() -> (table: DashMap<i32, FaxAudioPorts>)
    ensures
        fax_port_entries(table) == (Map::<i32, FaxPortView>::empty()),
{
    DashMap::new()
}

/// The audio ports of all fax calls.
pub struct FaxPorts {
    ports: DashMap<i32, FaxAudioPorts>,
    /// How many frames of the caller were dropped.
    rx_drops: DashMap<i32, u64>,
}

/// The audio ports of all fax calls in the model.
pub ghost struct FaxPortsView {
    pub ports: Map<i32, FaxPortView>,
    pub rx_drops: Map<i32, u64>,
}

impl View for FaxPorts {
    type V = FaxPortsView;

    closed spec fn view(&self) -> FaxPortsView {
        FaxPortsView {
            ports: fax_port_entries(self.ports),
            rx_drops: table::number_entries(self.rx_drops),
        }
    }
}

impl FaxPortsView {
    /// Dropped frames are counted for the calls that have a port.
    pub open spec fn wf(self) -> bool {
        self.ports.dom() == self.rx_drops.dom()
    }

    /// Whether a call has a port.
    pub open spec fn has(self, call: CallId) -> bool {
        self.ports.contains_key(call.raw)
    }

    /// The ports with that of a call changed.
    pub open spec fn with(self, call: CallId, port: FaxPortView) -> FaxPortsView {
        FaxPortsView { ports: self.ports.insert(call.raw, port), ..self }
    }

    /// The ports with a fresh one for a call, from which nothing was dropped.
    pub open spec fn created(self, call: CallId, port: u64, slot: ConfPort) -> FaxPortsView {
        FaxPortsView {
            ports: self.ports.insert(call.raw, FaxPortView::fresh(port, slot)),
            rx_drops: self.rx_drops.insert(call.raw, 0),
        }
    }

    /// The ports without that of a call.
    pub open spec fn removed(self, call: CallId) -> FaxPortsView {
        FaxPortsView {
            ports: self.ports.remove(call.raw),
            rx_drops: self.rx_drops.remove(call.raw),
        }
    }

    /// What the SIP stack is to destroy with the port of a call.
    pub open spec fn key_of(self, call: CallId) -> Option<(u64, ConfPort)> {
        if self.has(call) {
            Some((self.ports[call.raw].port, self.ports[call.raw].slot))
        } else {
            None
        }
    }

    /// The number of frames of a caller that were dropped.
    pub open spec fn drops_of(self, call: CallId) -> u64 {
        if self.rx_drops.contains_key(call.raw) {
            self.rx_drops[call.raw]
        } else {
            0
        }
    }

    /// The ports with one more dropped frame of a caller. The count starts over
    /// after the largest number.
    pub open spec fn dropped(self, call: CallId) -> FaxPortsView {
        if self.rx_drops.contains_key(call.raw) {
            let count = self.rx_drops[call.raw];
            let next = if count == u64::MAX {
                0
            } else {
                (count + 1) as u64
            };
            FaxPortsView { rx_drops: self.rx_drops.insert(call.raw, next), ..self }
        } else {
            self
        }
    }

    /// The ports after sound of a caller came in; what does not fit is dropped
    /// and counted.
    pub open spec fn put(self, call: CallId, samples: Seq<i16>) -> FaxPortsView {
        if samples.len() == 0 || !self.has(call) {
            self
        } else if self.ports[call.raw].rx.fits(samples) {
            let port = self.ports[call.raw];
            self.with(call, FaxPortView { rx: port.rx.written(samples), ..port })
        } else {
            self.dropped(call)
        }
    }
}

impl FaxAudioPorts {
    /// The whole frames of the caller that wait, in order. The rest stays.
    fn take_rx_frames(&mut self) -> (frames: Vec<Vec<i16>>)
        ensures
            frames@.len() == old(self)@.whole_frames(),
            forall|k: int|
                0 <= k < frames@.len() ==> (#[trigger] frames@[k])@ == old(
                    self,
                )@.rx.items.subrange(k * SAMPLES_PER_FRAME, (k + 1) * SAMPLES_PER_FRAME),
            final(self)@ == old(self)@.drained(),
    {
        let ghost before = self@;
        let ghost all = self@.rx.items;
        let mut frames: Vec<Vec<i16>> = Vec::new();
        let ghost mut n: int = 0;
        assert(all.skip(0) =~= all);
        let mut waiting: usize = self.rx.readable();
        while waiting >= SAMPLES_PER_FRAME
            invariant
                n == frames@.len(),
                0 <= n * SAMPLES_PER_FRAME <= all.len(),
                waiting == all.len() - n * SAMPLES_PER_FRAME,
                self@ == (FaxPortView { rx: before.rx.read(n * SAMPLES_PER_FRAME), ..before }),
                all == before.rx.items,
                self@.rx.items == all.skip(n * SAMPLES_PER_FRAME),
                forall|k: int|
                    0 <= k < frames@.len() ==> (#[trigger] frames@[k])@ == all.subrange(
                        k * SAMPLES_PER_FRAME,
                        (k + 1) * SAMPLES_PER_FRAME,
                    ),
            decreases waiting,
        {
            let frame = self.rx.read(SAMPLES_PER_FRAME);
            assert(frame@ =~= all.subrange(n * SAMPLES_PER_FRAME, (n + 1) * SAMPLES_PER_FRAME));
            frames.push(frame);
            assert(self@.rx.items =~= all.skip((n + 1) * SAMPLES_PER_FRAME));
            proof {
                n = n + 1;
            }
            waiting = waiting - SAMPLES_PER_FRAME;
        }
        frames
    }

    /// Writes the first `count` samples of the decoder for the caller, as many
    /// as there is room for.
    fn write_tx(&mut self, samples: &Vec<i16>, count: usize)
        requires
            count <= samples@.len(),
        ensures
            final(self)@ == old(self)@.sent(samples@.take(count as int)),
    {
        let ghost before = self@;
        let room: usize = self.tx.writable();
        let n: usize = if count <= room {
            count
        } else {
            room
        };
        let part = samples_between(samples, 0, n);
        assert(part@ =~= samples@.take(count as int).take(n as int));
        let _ = self.tx.write(&part);
    }
}

impl FaxPorts {
    pub fn new() -> (ports: FaxPorts)
        ensures
            ports@ == (FaxPortsView { ports: Map::empty(), rx_drops: Map::empty() }),
    {
        FaxPorts { ports: new_fax_port_table(), rx_drops: new_number_table() }
    }

    /// Records the port that was created for a fax call, with fresh buffers.
    pub fn fax_port_created(&mut self, call_id: CallId, port: u64, slot: ConfPort)
        ensures
            final(self)@ == old(self)@.created(call_id, port, slot),
    {
        let fresh = FaxAudioPorts {
            rx: SampleRing::new(FAX_AUDIO_RING_BUFFER_SIZE),
            tx: SampleRing::new(FAX_TX_RING_BUFFER_SIZE),
            port,
            slot,
        };
        table_insert(&mut self.ports, call_id.raw, fresh);
        table_insert(&mut self.rx_drops, call_id.raw, 0);
    }

    /// Hands the port of a fax call over to its processing.
    fn take(&mut self, call_id: CallId) -> (port: Option<FaxAudioPorts>)
        ensures
            final(self)@ == (FaxPortsView {
                ports: old(self)@.ports.remove(call_id.raw),
                ..old(self)@
            }),
            port is Some <==> old(self)@.has(call_id),
            port matches Some(p) ==> p@ == old(self)@.ports[call_id.raw],
    {
        table_remove(&mut self.ports, &call_id.raw)
    }

    /// Takes the port of a fax call back.
    fn put_back(&mut self, call_id: CallId, port: FaxAudioPorts)
        ensures
            final(self)@ == old(self)@.with(call_id, port@),
    {
        table_insert(&mut self.ports, call_id.raw, port);
    }

    /// The whole frames of the caller of a fax call that wait, in order.
    pub fn take_rx_frames(&mut self, call_id: CallId) -> (frames: Vec<Vec<i16>>)
        ensures
            !old(self)@.has(call_id) ==> frames@.len() == 0 && final(self)@ == old(self)@,
            old(self)@.has(call_id) ==> {
                let port = old(self)@.ports[call_id.raw];
                &&& frames@.len() == port.whole_frames()
                &&& forall|k: int|
                    0 <= k < frames@.len() ==> (#[trigger] frames@[k])@ == port.rx.items.subrange(
                        k * SAMPLES_PER_FRAME,
                        (k + 1) * SAMPLES_PER_FRAME,
                    )
                &&& final(self)@ == old(self)@.with(call_id, port.drained())
            },
    {
        let ghost before = self@;
        match self.take(call_id) {
            Some(mut port) => {
                let frames = port.take_rx_frames();
                let ghost seen = port@;
                self.put_back(call_id, port);
                assert(self@.ports =~= before.ports.insert(call_id.raw, seen));
                frames
            },
            None => {
                assert(self@.ports =~= before.ports);
                Vec::new()
            },
        }
    }

    /// Writes the first `count` samples of the decoder for the caller of a fax
    /// call, as many as there is room for.
    pub fn write_tx(&mut self, call_id: CallId, samples: &Vec<i16>, count: usize)
        requires
            count <= samples@.len(),
        ensures
            final(self)@ == (if old(self)@.has(call_id) {
                old(self)@.with(
                    call_id,
                    old(self)@.ports[call_id.raw].sent(samples@.take(count as int)),
                )
            } else {
                old(self)@
            }),
    {
        let ghost before = self@;
        match self.take(call_id) {
            Some(mut port) => {
                port.write_tx(samples, count);
                let ghost seen = port@;
                self.put_back(call_id, port);
                assert(self@.ports =~= before.ports.insert(call_id.raw, seen));
            },
            None => {
                assert(self@.ports =~= before.ports);
            },
        }
    }

    /// The next frame for the caller of a fax call. Silence, not the absence of
    /// a frame, where there is no sound: the conference would else leave the
    /// port out.
    pub fn fax_port_get_frame(&mut self, call_id: CallId) -> (frame: Vec<i16>)
        ensures
            old(self)@.has(call_id) ==> frame@ == old(self)@.ports[call_id.raw].frame()
                && final(self)@ == old(self)@.with(
                call_id,
                old(self)@.ports[call_id.raw].after_frame(),
            ),
            !old(self)@.has(call_id) ==> frame@ == frame_utils::silence(
                SAMPLES_PER_FRAME as int,
            ) && final(self)@ == old(self)@,
    {
        let ghost before = self@;
        match self.take(call_id) {
            Some(mut port) => {
                let frame = if port.tx.readable() >= SAMPLES_PER_FRAME {
                    port.tx.read(SAMPLES_PER_FRAME)
                } else {
                    fill_silence_frame()
                };
                let ghost seen = port@;
                self.put_back(call_id, port);
                assert(self@.ports =~= before.ports.insert(call_id.raw, seen));
                frame
            },
            None => {
                assert(self@.ports =~= before.ports);
                fill_silence_frame()
            },
        }
    }

    /// Counts a dropped frame of the caller of a fax call.
    fn count_drop(&mut self, call_id: CallId)
        ensures
            final(self)@ == old(self)@.dropped(call_id),
    {
        if let Some(count) = table_get(&self.rx_drops, &call_id.raw) {
            table_insert(&mut self.rx_drops, call_id.raw, count.wrapping_add(1));
        }
    }

    /// Takes in sound of the caller of a fax call. A frame that does not fit is
    /// dropped and counted.
    pub fn fax_port_put_frame(&mut self, call_id: CallId, samples: &Vec<i16>)
        ensures
            final(self)@ == old(self)@.put(call_id, samples@),
    {
        if samples.len() == 0 {
            return;
        }
        let ghost before = self@;
        match self.take(call_id) {
            Some(mut port) => {
                let written = port.rx.write(samples);
                let ghost seen = port@;
                self.put_back(call_id, port);
                assert(self@.ports =~= before.ports.insert(call_id.raw, seen));
                if !written {
                    assert(self@.ports =~= before.ports);
                    self.count_drop(call_id);
                }
            },
            None => {
                assert(self@.ports =~= before.ports);
            },
        }
    }
}

/// The slot that the port of a fax call is connected to: that of the call, if
/// its media are active. Without one the port cannot be created.
pub fn create_fax_audio_port(audio: &ChannelAudio, call_id: CallId) -> (slot: Option<ConfPort>)
    ensures
        slot == (if audio@.conf_ports.contains_key(call_id.raw) && audio@.conf_ports[call_id.raw]
            >= 0 {
            Some(ConfPort { raw: audio@.conf_ports[call_id.raw] })
        } else {
            None
        }),
{
    match audio.call_conf_port(call_id) {
        Some(slot) => if slot.is_valid() {
            Some(slot)
        } else {
            None
        },
        None => None,
    }
}

/// Forgets the port of a fax call and returns its key and slot, to be taken
/// out of the conference and destroyed.
pub fn remove_fax_audio_port(ports: &mut FaxPorts, call_id: CallId) -> (removed: Option<(u64, ConfPort)>)
    ensures
        final(ports)@ == old(ports)@.removed(call_id),
        removed == old(ports)@.key_of(call_id),
{
    let _ = table_remove(&mut ports.rx_drops, &call_id.raw);
    match table_remove(&mut ports.ports, &call_id.raw) {
        Some(port) => Some((port.port, port.slot)),
        None => None,
    }
}

/// The end of the creation of a port: whether the audio thread connected
/// it. A port that was not connected, or whose connection was never
/// answered, is forgotten; its key and slot are returned for destruction.
pub fn fax_port_connected(ports: &mut FaxPorts, call_id: CallId, connected: Option<bool>) -> (removed:
    Option<(u64, ConfPort)>)
    ensures
        connected == Some(true) ==> removed is None && final(ports)@ == old(ports)@,
        connected != Some(true) ==> final(ports)@ == old(ports)@.removed(call_id) && removed == old(
            ports,
        )@.key_of(call_id),
{
    match connected {
        Some(true) => None,
        _ => remove_fax_audio_port(ports, call_id),
    }
}

/// The number of frames of the caller that were dropped; none where none was
/// counted.
pub fn get_rx_drop_count(ports: &FaxPorts, call_id: CallId) -> (n: u64)
    ensures
        n == ports@.drops_of(call_id),
{
    match table_get(&ports.rx_drops, &call_id.raw) {
        Some(n) => n,
        None => 0,
    }
}

// Laws

/// No sound of the caller is lost or doubled: the frames that are taken and the
/// rest that stays make up what came in.
pub proof fn law_rx_frames_lose_nothing(port: FaxPortView)
    ensures
        ({
            let taken = port.whole_frames() * SAMPLES_PER_FRAME;
            &&& 0 <= taken <= port.rx.items.len()
            &&& port.rx.items.len() - taken < SAMPLES_PER_FRAME
            &&& port.rx.items.take(taken) + port.rx.read(taken).items == port.rx.items
        }),
{
    let taken = port.whole_frames() * SAMPLES_PER_FRAME;
    assert(port.rx.items.take(taken) + port.rx.read(taken).items =~= port.rx.items);
}

/// Every port has its count of dropped frames: it starts with none, goes up with
/// each frame that does not fit, and ends with the port.
pub proof fn law_drops_are_counted_for_each_port(
    ports: FaxPortsView,
    call: CallId,
    port: u64,
    slot: ConfPort,
    samples: Seq<i16>,
    changed: FaxPortView,
)
    requires
        ports.wf(),
    ensures
        ports.created(call, port, slot).wf() && ports.created(call, port, slot).drops_of(call) == 0,
        ports.removed(call).wf() && ports.removed(call).drops_of(call) == 0,
        ports.put(call, samples).wf(),
        ports.has(call) ==> ports.with(call, changed).wf(),
        ports.has(call) && samples.len() > 0 && !ports.ports[call.raw].rx.fits(samples)
            && ports.drops_of(call) < u64::MAX ==> ports.put(call, samples).drops_of(call)
            == ports.drops_of(call) + 1,
        ports.has(call) && ports.ports[call.raw].rx.fits(samples) ==> ports.put(
            call,
            samples,
        ).drops_of(call) == ports.drops_of(call),
{
    assert(ports.created(call, port, slot).ports.dom() =~= ports.created(
        call,
        port,
        slot,
    ).rx_drops.dom());
    assert(ports.removed(call).ports.dom() =~= ports.removed(call).rx_drops.dom());
    assert(ports.put(call, samples).ports.dom() =~= ports.put(call, samples).rx_drops.dom());
    if ports.has(call) {
        assert(ports.with(call, changed).ports.dom() =~= ports.ports.dom());
    }
}

/// The caller always gets a whole frame.
pub proof fn law_fax_frame_is_whole(port: FaxPortView)
    ensures
        port.frame().len() == SAMPLES_PER_FRAME,
{
}

} // verus!
