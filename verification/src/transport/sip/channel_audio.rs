//! Per-channel audio between Discord and SIP.
//!
//! Calls are mapped to Discord channels and connected with each other and with
//! their channel in the conference. Audio from Discord waits in a ring buffer
//! for each channel, audio from the calls in a queue for each channel. What the
//! conference is to connect comes out as a list of operations.

use crate::ids::{CallId, ConfPort, Snowflake};
use crate::ring;
use crate::ring::SampleRing;
use crate::table;
use crate::table::{
    copy_set, new_number_table, set_to_vec, table_contains, table_get, table_insert, table_remove,
    Copied, Stored,
};
use crate::time;
use crate::time::Instant;
use crate::transport::sip::ffi::frame_utils;
use crate::transport::sip::ffi::frame_utils::{
    fill_audio_frame, fill_silence_frame, samples_between, SAMPLES_PER_FRAME,
};
use dashmap::DashMap;
use std::collections::{HashMap, HashSet, VecDeque};
use vstd::prelude::*;

verus! {

broadcast use vstd::std_specs::hash::group_hash_axioms;

/// How long a drained frame is given to further callers of its channel: 15 ms,
/// while frames are asked for every 20 ms.
pub const CACHE_WINDOW_NANOS: u128 = 15_000_000;

/// An operation on the conference: connects, or disconnects, the sound of one
/// slot to another.
#[derive(Debug, Clone, Copy, PartialEq, Eq, Structural)]
pub struct ConfOp {
    pub connect: bool,
    pub source: ConfPort,
    pub sink: ConfPort,
}

/// The port of a channel in the conference.
#[derive(Debug, Clone, Copy, PartialEq, Eq, Structural)]
pub struct ChannelPort {
    /// The key of the port in the SIP stack.
    pub port: u64,
    pub slot: ConfPort,
}

/// Sound of a channel's calls that waits for Discord.
pub struct AudioQueue {
    pub samples: VecDeque<i16>,
}

impl View for AudioQueue {
    type V = Seq<i16>;

    open spec fn view(&self) -> Seq<i16> {
        self.samples@
    }
}

/// The samples that were drained last for a channel, and when.
pub struct DrainedFrame {
    pub at: Instant,
    pub samples: Vec<i16>,
}

/// A drained frame in the model.
pub ghost struct DrainedView {
    pub at: Instant,
    pub samples: Seq<i16>,
}

impl View for DrainedFrame {
    type V = DrainedView;

    open spec fn view(&self) -> DrainedView {
        DrainedView { at: self.at, samples: self.samples@ }
    }
}

impl Copied for DrainedFrame {
    fn copied(&self) -> (out: DrainedFrame) {
        let samples = samples_between(&self.samples, 0, self.samples.len());
        assert(samples@ =~= self.samples@);
        DrainedFrame { at: self.at, samples }
    }
}

/// The contents of the table of the conference slots of calls.
pub uninterp spec fn slot_entries(table: DashMap<i32, i32>) -> Map<i32, i32>;

impl Stored<i32> for i32 {
    open spec fn entries(table: DashMap<i32, i32>) -> Map<i32, i32> {
        slot_entries(table)
    }
}

impl Copied for i32 {
    fn copied(&self) -> (out: i32) {
        *self
    }
}

/// `DashMap::new`: an empty table.
#[verifier::external_body]
fn new_slot_table() -> (table: DashMap<i32, i32>)
    ensures
        slot_entries(table) == (Map::<i32, i32>::empty()),
{
    DashMap::new()
}

/// The contents of the table of sound queues.
pub uninterp spec fn queue_entries(table: DashMap<u64, AudioQueue>) -> Map<u64, Seq<i16>>;

impl Stored<u64> for AudioQueue {
    open spec fn entries(table: DashMap<u64, AudioQueue>) -> Map<u64, Seq<i16>> {
        queue_entries(table)
    }
}

/// `DashMap::new`: an empty table.
#[verifier::external_body]
fn new_queue_table() -> (table: DashMap<u64, AudioQueue>)
    ensures
        queue_entries(table) == (Map::<u64, Seq<i16>>::empty()),
{
    DashMap::new()
}

/// The contents of the table of drained frames.
pub uninterp spec fn drained_entries(table: DashMap<u64, DrainedFrame>) -> Map<u64, DrainedView>;

impl Stored<u64> for DrainedFrame {
    open spec fn entries(table: DashMap<u64, DrainedFrame>) -> Map<u64, DrainedView> {
        drained_entries(table)
    }
}

/// `DashMap::new`: an empty table.
#[verifier::external_body]
fn new_drained_table() -> (table: DashMap<u64, DrainedFrame>)
    ensures
        drained_entries(table) == (Map::<u64, DrainedView>::empty()),
{
    DashMap::new()
}

/// The contents of the table of ring buffers.
pub uninterp spec fn ring_entries(table: DashMap<u64, SampleRing>) -> Map<u64, ring::RingView>;

impl Stored<u64> for SampleRing {
    open spec fn entries(table: DashMap<u64, SampleRing>) -> Map<u64, ring::RingView> {
        ring_entries(table)
    }
}

/// `DashMap::new`: an empty table.
#[verifier::external_body]
fn new_ring_table() -> (table: DashMap<u64, SampleRing>)
    ensures
        ring_entries(table) == (Map::<u64, ring::RingView>::empty()),
{
    DashMap::new()
}

/// The audio routing of all channels.
pub struct ChannelAudio {
    call_channels: DashMap<i32, u64>,
    call_conf_ports: DashMap<i32, i32>,
    channel_calls: HashMap<u64, HashSet<i32>>,
    pending_connections: Vec<(CallId, Snowflake)>,
    channel_ports: HashMap<u64, ChannelPort>,
    port_channels: HashMap<u64, u64>,
    audio_in: DashMap<u64, AudioQueue>,
    drained: DashMap<u64, DrainedFrame>,
    rings: DashMap<u64, SampleRing>,
}

/// The audio routing in the model.
pub ghost struct ChannelAudioView {
    /// The channel that a call is registered with.
    pub call_channels: Map<i32, u64>,
    /// The conference slot of a call whose media are active.
    pub conf_ports: Map<i32, i32>,
    /// The calls that are connected in a channel; no channel has an empty set.
    pub channel_calls: Map<u64, Set<i32>>,
    /// Registrations whose connections are still to be made.
    pub pending: Seq<(CallId, Snowflake)>,
    /// The conference port of a channel.
    pub channel_ports: Map<u64, ChannelPort>,
    /// The channel of a conference port.
    pub port_channels: Map<u64, u64>,
    /// Sound of the calls that waits for Discord.
    pub audio_in: Map<u64, Seq<i16>>,
    /// The frame that was drained last.
    pub drained: Map<u64, DrainedView>,
    /// Sound of Discord that waits for the calls.
    pub rings: Map<u64, ring::RingView>,
}

impl View for ChannelAudio {
    type V = ChannelAudioView;

    closed spec fn view(&self) -> ChannelAudioView {
        ChannelAudioView {
            call_channels: table::number_entries(self.call_channels),
            conf_ports: slot_entries(self.call_conf_ports),
            channel_calls: self.channel_calls@.map_values(|calls: HashSet<i32>| calls@),
            pending: self.pending_connections@,
            channel_ports: self.channel_ports@,
            port_channels: self.port_channels@,
            audio_in: queue_entries(self.audio_in),
            drained: drained_entries(self.drained),
            rings: ring_entries(self.rings),
        }
    }
}

/// The operations that connect, or disconnect, a call and each of the others,
/// then the call and its channel, in both directions.
pub open spec fn link_ops(
    connect: bool,
    port: ConfPort,
    others: Seq<ConfPort>,
    slot: Option<ConfPort>,
) -> Seq<ConfOp> {
    let channel = match slot {
        Some(s) => seq![
            ConfOp { connect, source: s, sink: port },
            ConfOp { connect, source: port, sink: s },
        ],
        None => Seq::empty(),
    };
    peer_ops(connect, port, others) + channel
}

/// The operations between a call and each of the others.
pub open spec fn peer_ops(connect: bool, port: ConfPort, others: Seq<ConfPort>) -> Seq<ConfOp>
    decreases others.len(),
{
    if others.len() == 0 {
        Seq::empty()
    } else {
        peer_ops(connect, port, others.drop_last()).push(
            ConfOp { connect, source: port, sink: others.last() },
        ).push(ConfOp { connect, source: others.last(), sink: port })
    }
}

/// The conference slots of calls with their calls.
pub open spec fn ports_of(calls: Seq<(CallId, ConfPort)>) -> Seq<ConfPort> {
    calls.map_values(|c: (CallId, ConfPort)| c.1)
}

/// The calls of such a list.
pub open spec fn ids_of(calls: Seq<(CallId, ConfPort)>) -> Seq<i32> {
    calls.map_values(|c: (CallId, ConfPort)| c.0.raw)
}

fn link(
    connect: bool,
    conf_port: ConfPort,
    others: &Vec<(CallId, ConfPort)>,
    slot: Option<ConfPort>,
) -> (ops: Vec<ConfOp>)
    ensures
        ops@ == link_ops(connect, conf_port, ports_of(others@), slot),
{
    let mut ops: Vec<ConfOp> = Vec::new();
    let ghost ports = ports_of(others@);
    for i in 0..others.len()
        invariant
            ports == ports_of(others@),
            ops@ == peer_ops(connect, conf_port, ports.take(i as int)),
    {
        let other = others[i].1;
        assert(ports.take(i + 1).drop_last() =~= ports.take(i as int));
        assert(ports.take(i + 1).last() == other);
        ops.push(ConfOp { connect, source: conf_port, sink: other });
        ops.push(ConfOp { connect, source: other, sink: conf_port });
    }
    assert(ports.take(ports.len() as int) =~= ports);
    let ghost peers = ops@;
    if let Some(s) = slot {
        ops.push(ConfOp { connect, source: s, sink: conf_port });
        ops.push(ConfOp { connect, source: conf_port, sink: s });
    }
    assert(ops@ =~= link_ops(connect, conf_port, ports, slot));
    ops
}

/// The operations that connect a call with the other calls of its channel and
/// with the channel itself, in both directions.
pub fn connect_call_to_channel(
    conf_port: ConfPort,
    other_calls: &Vec<(CallId, ConfPort)>,
    channel_slot: Option<ConfPort>,
) -> (ops: Vec<ConfOp>)
    ensures
        ops@ == link_ops(true, conf_port, ports_of(other_calls@), channel_slot),
{
    link(true, conf_port, other_calls, channel_slot)
}

/// The operations that disconnect a call from the other calls of its channel
/// and from the channel itself.
pub fn disconnect_call_from_channel(
    conf_port: ConfPort,
    remaining_calls: &Vec<(CallId, ConfPort)>,
    channel_slot: Option<ConfPort>,
) -> (ops: Vec<ConfOp>)
    ensures
        ops@ == link_ops(false, conf_port, ports_of(remaining_calls@), channel_slot),
{
    link(false, conf_port, remaining_calls, channel_slot)
}

impl ChannelAudioView {
    /// No drained frame is longer than a frame.
    pub open spec fn wf(self) -> bool {
        forall|channel: u64| #[trigger]
            self.drained.contains_key(channel) ==> self.drained[channel].samples.len()
                <= SAMPLES_PER_FRAME
    }

    /// The calls that are connected in a channel.
    pub open spec fn calls_in(self, channel: u64) -> Set<i32> {
        if self.channel_calls.contains_key(channel) {
            self.channel_calls[channel]
        } else {
            Set::empty()
        }
    }

    /// The calls of a set whose media are active.
    pub open spec fn with_media(self, calls: Set<i32>) -> Set<i32> {
        calls.filter(|id: i32| self.conf_ports.contains_key(id))
    }

    /// Whether a list names exactly the calls of a set whose media are active,
    /// each once and with its slot.
    pub open spec fn lists(self, list: Seq<(CallId, ConfPort)>, calls: Set<i32>) -> bool {
        &&& table::enumerates(ids_of(list), self.with_media(calls))
        &&& forall|i: int|
            0 <= i < list.len() ==> (#[trigger] list[i]).1.raw == self.conf_ports[list[i].0.raw]
    }

    /// The slot of a channel in the conference.
    pub open spec fn slot_of(self, channel: u64) -> Option<ConfPort> {
        if self.channel_ports.contains_key(channel) {
            Some(self.channel_ports[channel].slot)
        } else {
            None
        }
    }

    /// With a call in the set of a channel.
    pub open spec fn joined(self, call: i32, channel: u64) -> ChannelAudioView {
        ChannelAudioView {
            channel_calls: self.channel_calls.insert(channel, self.calls_in(channel).insert(call)),
            ..self
        }
    }

    /// What registering a call with a channel does: the mapping is kept in any
    /// case; where the media of the call are active it joins the channel, and
    /// its connections are to be made.
    pub open spec fn register(self, call: i32, channel: u64) -> ChannelAudioView {
        let mapped = ChannelAudioView {
            call_channels: self.call_channels.insert(call, channel),
            ..self
        };
        if self.conf_ports.contains_key(call) {
            ChannelAudioView {
                pending: self.pending.push((CallId { raw: call }, Snowflake { raw: channel })),
                ..mapped.joined(call, channel)
            }
        } else {
            mapped
        }
    }

    /// Whether a registered call whose media became active is still to be
    /// connected.
    pub open spec fn awaits_connection(self, call: i32) -> bool {
        self.call_channels.contains_key(call) && !self.calls_in(
            self.call_channels[call],
        ).contains(call)
    }

    /// The calls that are left in a channel when a call leaves it.
    pub open spec fn left_behind(self, call: i32, channel: u64) -> Set<i32> {
        self.calls_in(channel).remove(call)
    }

    /// Without a call in the set of a channel; an empty set leaves.
    pub open spec fn parted(self, call: i32, channel: u64) -> ChannelAudioView {
        ChannelAudioView {
            channel_calls: if !self.channel_calls.contains_key(channel) {
                self.channel_calls
            } else if self.left_behind(call, channel).is_empty() {
                self.channel_calls.remove(channel)
            } else {
                self.channel_calls.insert(channel, self.left_behind(call, channel))
            },
            ..self
        }
    }

    /// Without the sound that waits for Discord and without the frame that was
    /// drained last.
    pub open spec fn without_stale(self, channel: u64) -> ChannelAudioView {
        ChannelAudioView {
            audio_in: self.audio_in.remove(channel),
            drained: self.drained.remove(channel),
            ..self
        }
    }

    /// What putting a call on hold does: it leaves its channel but stays
    /// registered. Sound of a channel without calls is dropped.
    pub open spec fn hold(self, call: i32) -> ChannelAudioView {
        if self.call_channels.contains_key(call) {
            let channel = self.call_channels[call];
            if self.left_behind(call, channel).is_empty() {
                self.parted(call, channel).without_stale(channel)
            } else {
                self.parted(call, channel)
            }
        } else {
            self
        }
    }

    /// What unregistering a call does: it leaves its channel, its mapping and
    /// its slot. The sound queue of a channel leaves with its last call.
    pub open spec fn unregister(self, call: i32) -> ChannelAudioView {
        let gone = ChannelAudioView {
            call_channels: self.call_channels.remove(call),
            conf_ports: self.conf_ports.remove(call),
            ..self
        };
        if self.call_channels.contains_key(call) {
            let channel = self.call_channels[call];
            let parted = gone.parted(call, channel);
            if self.channel_calls.contains_key(channel) && self.left_behind(
                call,
                channel,
            ).is_empty() {
                ChannelAudioView { audio_in: parted.audio_in.remove(channel), ..parted }
            } else {
                parted
            }
        } else {
            gone
        }
    }

    /// The operations of a call that leaves a channel, where its media are
    /// active.
    pub open spec fn is_departure(
        self,
        ops: Seq<ConfOp>,
        port: i32,
        call: i32,
        channel: u64,
    ) -> bool {
        exists|list: Seq<(CallId, ConfPort)>|
            {
                &&& #[trigger] self.lists(list, self.left_behind(call, channel))
                &&& ops == link_ops(
                    false,
                    ConfPort { raw: port },
                    ports_of(list),
                    self.slot_of(channel),
                )
            }
    }

    /// How many samples of Discord a channel can give for a frame.
    pub open spec fn available(self, channel: u64) -> int {
        if !self.rings.contains_key(channel) {
            0
        } else if self.rings[channel].items.len() >= SAMPLES_PER_FRAME {
            SAMPLES_PER_FRAME as int
        } else {
            self.rings[channel].items.len() as int
        }
    }

    /// The samples of Discord that a channel gives for a frame.
    pub open spec fn next_samples(self, channel: u64) -> Seq<i16> {
        if self.rings.contains_key(channel) {
            self.rings[channel].items.take(self.available(channel))
        } else {
            Seq::empty()
        }
    }

    /// The routing after those samples were taken.
    pub open spec fn taken(self, channel: u64) -> ChannelAudioView {
        if self.rings.contains_key(channel) {
            ChannelAudioView {
                rings: self.rings.insert(
                    channel,
                    self.rings[channel].read(self.available(channel)),
                ),
                ..self
            }
        } else {
            self
        }
    }

    /// Whether the frame that was drained last is still given.
    pub open spec fn cache_holds(self, channel: u64, now: Instant) -> bool {
        self.drained.contains_key(channel) && time::nanos_between(self.drained[channel].at, now)
            < CACHE_WINDOW_NANOS
    }

    /// The samples for a frame of a channel: the last ones within the window,
    /// else fresh ones.
    pub open spec fn frame_samples(self, channel: u64, now: Instant) -> Seq<i16> {
        if self.cache_holds(channel, now) {
            self.drained[channel].samples
        } else {
            self.next_samples(channel)
        }
    }

    /// The routing after a frame was given.
    pub open spec fn after_frame(self, channel: u64, now: Instant) -> ChannelAudioView {
        if self.cache_holds(channel, now) {
            self
        } else {
            ChannelAudioView {
                drained: self.drained.insert(
                    channel,
                    DrainedView { at: now, samples: self.next_samples(channel) },
                ),
                ..self.taken(channel)
            }
        }
    }

    /// The sound of a channel's calls that waits for Discord.
    pub open spec fn queued(self, channel: u64) -> Seq<i16> {
        if self.audio_in.contains_key(channel) {
            self.audio_in[channel]
        } else {
            Seq::empty()
        }
    }

    /// The routing after samples of a call came in. The queue is kept at `max`
    /// samples by dropping the oldest.
    pub open spec fn put(self, channel: u64, samples: Seq<i16>, max: int) -> ChannelAudioView {
        let waiting = self.queued(channel);
        let excess = waiting.len() + samples.len() - max;
        let dropped = if excess <= 0 {
            0
        } else if excess >= waiting.len() {
            waiting.len() as int
        } else {
            excess
        };
        ChannelAudioView {
            audio_in: self.audio_in.insert(channel, waiting.skip(dropped) + samples),
            ..self
        }
    }

    /// How many samples are drained for Discord at once.
    pub open spec fn drainable(self, channel: u64) -> int {
        if self.queued(channel).len() >= SAMPLES_PER_FRAME {
            SAMPLES_PER_FRAME as int
        } else {
            self.queued(channel).len() as int
        }
    }
}

/// A call that is to be connected: its slot and the other calls.
pub struct CallConnections {
    pub channel_id: Snowflake,
    pub conf_port: ConfPort,
    pub others: Vec<(CallId, ConfPort)>,
}

impl ChannelAudio {
    pub fn new() -> (audio: ChannelAudio)
        ensures
            audio@.wf(),
            audio@.call_channels == (Map::<i32, u64>::empty()),
            audio@.conf_ports == (Map::<i32, i32>::empty()),
            audio@.channel_calls == (Map::<u64, Set<i32>>::empty()),
            audio@.pending == (Seq::<(CallId, Snowflake)>::empty()),
            audio@.channel_ports == (Map::<u64, ChannelPort>::empty()),
            audio@.port_channels == (Map::<u64, u64>::empty()),
            audio@.audio_in == (Map::<u64, Seq<i16>>::empty()),
            audio@.drained == (Map::<u64, DrainedView>::empty()),
            audio@.rings == (Map::<u64, ring::RingView>::empty()),
    {
        let audio = ChannelAudio {
            call_channels: new_number_table(),
            call_conf_ports: new_slot_table(),
            channel_calls: HashMap::new(),
            pending_connections: Vec::new(),
            channel_ports: HashMap::new(),
            port_channels: HashMap::new(),
            audio_in: new_queue_table(),
            drained: new_drained_table(),
            rings: new_ring_table(),
        };
        assert(audio@.channel_calls =~= Map::<u64, Set<i32>>::empty());
        audio
    }

    /// The conference slot of a call whose media are active.
    pub fn call_conf_port(&self, call_id: CallId) -> (port: Option<ConfPort>)
        ensures
            port == (if self@.conf_ports.contains_key(call_id.raw) {
                Some(ConfPort { raw: self@.conf_ports[call_id.raw] })
            } else {
                None
            }),
    {
        match table_get(&self.call_conf_ports, &call_id.raw) {
            Some(raw) => Some(ConfPort { raw }),
            None => None,
        }
    }

    /// Records the conference slot of a call whose media became active.
    pub fn set_call_conf_port(&mut self, call_id: CallId, port: ConfPort)
        ensures
            final(self)@ == (ChannelAudioView {
                conf_ports: old(self)@.conf_ports.insert(call_id.raw, port.raw),
                ..old(self)@
            }),
    {
        table_insert(&mut self.call_conf_ports, call_id.raw, port.raw);
    }

    fn take_calls(&mut self, channel: u64) -> (calls: Option<HashSet<i32>>)
        ensures
            final(self)@ == (ChannelAudioView {
                channel_calls: old(self)@.channel_calls.remove(channel),
                ..old(self)@
            }),
            calls is Some <==> old(self)@.channel_calls.contains_key(channel),
            calls matches Some(set) ==> set@ == old(self)@.channel_calls[channel],
    {
        let ghost before = self@;
        let calls = self.channel_calls.remove(&channel);
        assert(self@.channel_calls =~= before.channel_calls.remove(channel));
        calls
    }

    fn put_calls(&mut self, channel: u64, calls: HashSet<i32>)
        ensures
            final(self)@ == (ChannelAudioView {
                channel_calls: old(self)@.channel_calls.insert(channel, calls@),
                ..old(self)@
            }),
    {
        let ghost before = self@;
        let ghost set = calls@;
        let _ = self.channel_calls.insert(channel, calls);
        assert(self@.channel_calls =~= before.channel_calls.insert(channel, set));
    }

    fn join(&mut self, call: i32, channel: u64)
        ensures
            final(self)@ == old(self)@.joined(call, channel),
    {
        let ghost before = self@;
        let mut calls = match self.take_calls(channel) {
            Some(calls) => calls,
            None => HashSet::new(),
        };
        let _ = calls.insert(call);
        self.put_calls(channel, calls);
        assert(self@.channel_calls =~= before.joined(call, channel).channel_calls);
    }

    /// Registers a call with its Discord channel. Where its media are not
    /// active yet, the call is connected once they are; else its connections
    /// are put on the list of those that the audio thread has to make.
    pub fn register_call_channel(&mut self, call_id: CallId, channel_id: Snowflake)
        ensures
            final(self)@ == old(self)@.register(call_id.raw, channel_id.raw),
    {
        table_insert(&mut self.call_channels, call_id.raw, channel_id.raw);
        if !table_contains(&self.call_conf_ports, &call_id.raw) {
            return;
        }
        self.join(call_id.raw, channel_id.raw);
        self.pending_connections.push((call_id, channel_id));
    }

    /// Hands over the registrations whose connections are to be made.
    pub fn take_pending_connections(&mut self) -> (pending: Vec<(CallId, Snowflake)>)
        ensures
            pending@ == old(self)@.pending,
            final(self)@ == (ChannelAudioView { pending: Seq::empty(), ..old(self)@ }),
    {
        let mut taken: Vec<(CallId, Snowflake)> = Vec::new();
        taken.append(&mut self.pending_connections);
        taken
    }

    /// The calls of a set whose media are active, with their slots.
    fn list_calls(&self, calls: &HashSet<i32>, except: i32, skip_except: bool) -> (list: Vec<
        (CallId, ConfPort),
    >)
        ensures
            self@.lists(
                list@,
                (if skip_except {
                    calls@.remove(except)
                } else {
                    calls@
                }),
            ),
    {
        let ids = set_to_vec(calls);
        let mut list: Vec<(CallId, ConfPort)> = Vec::new();
        let ghost ports = self@.conf_ports;
        for i in 0..ids.len()
            invariant
                ports == self@.conf_ports,
                ids@.no_duplicates(),
                ids_of(list@).no_duplicates(),
                forall|j: int|
                    0 <= j < list@.len() ==> (#[trigger] list@[j]).1.raw == ports[list@[j].0.raw],
                forall|a: i32| #[trigger]
                    ids_of(list@).contains(a) ==> ids@.take(i as int).contains(a)
                        && ports.contains_key(a) && !(skip_except && a == except),
                forall|j: int|
                    0 <= j < i && ports.contains_key(#[trigger] ids@[j]) && !(skip_except && ids@[j]
                        == except) ==> ids_of(list@).contains(ids@[j]),
        {
            let id: i32 = ids[i];
            let ghost before = ids_of(list@);
            assert(ids@.take(i + 1) =~= ids@.take(i as int).push(id));
            assert(!ids@.take(i as int).contains(id));
            assert forall|a: i32| ids@.take(i + 1).contains(a) == (ids@.take(i as int).contains(a)
                || a == id) by {
                table::lemma_push_contains(ids@.take(i as int), id, a);
            }
            if !(skip_except && id == except) {
                if let Some(port) = self.call_conf_port(CallId { raw: id }) {
                    assert(!before.contains(id));
                    list.push((CallId { raw: id }, port));
                    assert(ids_of(list@) =~= before.push(id));
                }
            }
            proof {
                assert forall|a: i32| before.contains(a) implies ids_of(list@).contains(a) by {
                    table::lemma_push_contains(before, id, a);
                }
                assert forall|a: i32| #[trigger] ids_of(list@).contains(a) implies before.contains(a)
                    || a == id by {
                    table::lemma_push_contains(before, id, a);
                }
                table::lemma_push_contains(before, id, id);
            }
        }
        assert(ids@.take(ids@.len() as int) =~= ids@);
        let ghost wanted = if skip_except {
            calls@.remove(except)
        } else {
            calls@
        };
        assert forall|a: i32| ids_of(list@).contains(a) <==> #[trigger] self@.with_media(
            wanted,
        ).contains(a) by {
            if self@.with_media(wanted).contains(a) {
                assert(ids@.contains(a));
                let j = choose|j: int| 0 <= j < ids@.len() && ids@[j] == a;
                assert(ids@[j] == a);
            }
        }
        list
    }

    /// What has to be connected for a call that was registered while its media
    /// were active: its slot and the other calls of the channel. Nothing where
    /// the call has no slot any more.
    pub fn complete_conf_connections(&self, call_id: CallId, channel_id: Snowflake) -> (r: Option<
        CallConnections,
    >)
        ensures
            r is Some <==> self@.conf_ports.contains_key(call_id.raw),
            r matches Some(c) ==> c.channel_id == channel_id && c.conf_port.raw
                == self@.conf_ports[call_id.raw] && self@.lists(
                c.others@,
                self@.calls_in(channel_id.raw).remove(call_id.raw),
            ),
    {
        let conf_port = match self.call_conf_port(call_id) {
            Some(port) => port,
            None => {
                return None;
            },
        };
        let others = match self.channel_calls.get(&channel_id.raw) {
            Some(calls) => self.list_calls(calls, call_id.raw, true),
            None => {
                let none: HashSet<i32> = HashSet::new();
                self.list_calls(&none, call_id.raw, true)
            },
        };
        Some(CallConnections { channel_id, conf_port, others })
    }

    /// Completes a registration that was made before the media of the call
    /// became active: the call joins its channel, and what has to be connected
    /// is returned. Nothing where the call is not registered or is connected
    /// already.
    pub fn complete_pending_channel_registration(&mut self, call_id: CallId, conf_port: ConfPort) -> (r:
        Option<CallConnections>)
        ensures
            r is Some <==> old(self)@.awaits_connection(call_id.raw),
            r matches Some(c) ==> {
                let channel = old(self)@.call_channels[call_id.raw];
                &&& c.channel_id.raw == channel
                &&& c.conf_port == conf_port
                &&& old(self)@.lists(c.others@, old(self)@.calls_in(channel))
                &&& final(self)@ == old(self)@.joined(call_id.raw, channel)
            },
            r is None ==> final(self)@ == old(self)@,
    {
        let channel: u64 = match table_get(&self.call_channels, &call_id.raw) {
            Some(channel) => channel,
            None => {
                return None;
            },
        };
        let ghost before = self@;
        let others = match self.channel_calls.get(&channel) {
            Some(calls) => {
                if calls.contains(&call_id.raw) {
                    return None;
                }
                self.list_calls(calls, call_id.raw, false)
            },
            None => {
                let none: HashSet<i32> = HashSet::new();
                self.list_calls(&none, call_id.raw, false)
            },
        };
        self.join(call_id.raw, channel);
        Some(CallConnections { channel_id: Snowflake { raw: channel }, conf_port, others })
    }

    /// Takes a call out of the set of its channel and returns those that are
    /// left.
    fn part(&mut self, call: i32, channel: u64) -> (left: HashSet<i32>)
        ensures
            left@ == old(self)@.left_behind(call, channel),
            final(self)@ == old(self)@.parted(call, channel),
    {
        let ghost before = self@;
        match self.take_calls(channel) {
            Some(mut calls) => {
                let _ = calls.remove(&call);
                let left = copy_set(&calls);
                if !calls.is_empty() {
                    self.put_calls(channel, calls);
                }
                assert(self@.channel_calls =~= before.parted(call, channel).channel_calls);
                left
            },
            None => {
                let none: HashSet<i32> = HashSet::new();
                assert(self@.channel_calls =~= before.channel_calls);
                assert(none@ =~= before.left_behind(call, channel));
                none
            },
        }
    }

    /// Puts a call on hold: it is disconnected from its channel, but stays
    /// registered, so that it can be connected again.
    pub fn disconnect_call_for_hold(&mut self, call_id: CallId) -> (ops: Vec<ConfOp>)
        ensures
            final(self)@ == old(self)@.hold(call_id.raw),
            if old(self)@.call_channels.contains_key(call_id.raw) && old(
                self,
            )@.conf_ports.contains_key(call_id.raw) {
                old(self)@.is_departure(
                    ops@,
                    old(self)@.conf_ports[call_id.raw],
                    call_id.raw,
                    old(self)@.call_channels[call_id.raw],
                )
            } else {
                ops@.len() == 0
            },
    {
        let channel: u64 = match table_get(&self.call_channels, &call_id.raw) {
            Some(channel) => channel,
            None => {
                return Vec::new();
            },
        };
        let ghost before = self@;
        let conf_port = self.call_conf_port(call_id);
        let left = self.part(call_id.raw, channel);
        let ops = match conf_port {
            Some(port) => {
                let others = self.list_calls(&left, call_id.raw, false);
                let slot = self.get_channel_slot(Snowflake { raw: channel });
                proof {
                    assert(before.with_media(left@) == self@.with_media(left@));
                    assert(before.lists(others@, before.left_behind(call_id.raw, channel)));
                }
                disconnect_call_from_channel(port, &others, slot)
            },
            None => Vec::new(),
        };
        if left.is_empty() {
            self.clear_channel_stale_audio(Snowflake { raw: channel });
        }
        ops
    }

    /// Unregisters a call: it leaves its channel and loses its slot. The port
    /// of the channel stays until the bridge is destroyed.
    pub fn unregister_call_channel(&mut self, call_id: CallId) -> (ops: Vec<ConfOp>)
        ensures
            final(self)@ == old(self)@.unregister(call_id.raw),
            if old(self)@.call_channels.contains_key(call_id.raw) && old(
                self,
            )@.conf_ports.contains_key(call_id.raw) {
                old(self)@.is_departure(
                    ops@,
                    old(self)@.conf_ports[call_id.raw],
                    call_id.raw,
                    old(self)@.call_channels[call_id.raw],
                )
            } else {
                ops@.len() == 0
            },
    {
        let ghost before = self@;
        let channel_id = table_remove(&mut self.call_channels, &call_id.raw);
        let conf_port = table_remove(&mut self.call_conf_ports, &call_id.raw);
        let channel: u64 = match channel_id {
            Some(channel) => channel,
            None => {
                return Vec::new();
            },
        };
        let ghost gone = self@;
        let had_entry = self.channel_calls.contains_key(&channel);
        assert(had_entry == before.channel_calls.contains_key(channel));
        let left = self.part(call_id.raw, channel);
        if had_entry && left.is_empty() {
            let _ = table_remove(&mut self.audio_in, &channel);
        }
        match conf_port {
            Some(port) => {
                let others = self.list_calls(&left, call_id.raw, false);
                let slot = self.get_channel_slot(Snowflake { raw: channel });
                proof {
                    assert(before.with_media(left@) =~= self@.with_media(left@));
                    assert forall|i: int| 0 <= i < others@.len() implies (
                    #[trigger] others@[i]).1.raw == before.conf_ports[others@[i].0.raw] by {
                        assert(ids_of(others@)[i] == others@[i].0.raw);
                        assert(ids_of(others@).contains(others@[i].0.raw));
                        assert(self@.with_media(left@).contains(others@[i].0.raw));
                    }
                    assert(before.lists(others@, before.left_behind(call_id.raw, channel)));
                }
                disconnect_call_from_channel(ConfPort { raw: port }, &others, slot)
            },
            None => Vec::new(),
        }
    }

    /// The slot of a channel in the conference.
    pub fn get_channel_slot(&self, channel_id: Snowflake) -> (slot: Option<ConfPort>)
        ensures
            slot == self@.slot_of(channel_id.raw),
    {
        match self.channel_ports.get(&channel_id.raw) {
            Some(port) => Some(port.slot),
            None => None,
        }
    }

    /// Records the conference port that was created for a channel.
    pub fn channel_port_created(&mut self, channel_id: Snowflake, port: ChannelPort)
        ensures
            final(self)@ == (ChannelAudioView {
                channel_ports: old(self)@.channel_ports.insert(channel_id.raw, port),
                port_channels: old(self)@.port_channels.insert(port.port, channel_id.raw),
                ..old(self)@
            }),
    {
        let _ = self.channel_ports.insert(channel_id.raw, port);
        let _ = self.port_channels.insert(port.port, channel_id.raw);
    }

    /// Forgets a conference port that is destroyed.
    pub fn channel_port_on_destroy(&mut self, port: u64)
        ensures
            final(self)@ == (ChannelAudioView {
                port_channels: old(self)@.port_channels.remove(port),
                ..old(self)@
            }),
    {
        let _ = self.port_channels.remove(&port);
    }

    /// Forgets the conference port of a channel and returns it, to be taken out
    /// of the conference and destroyed.
    pub fn cleanup_channel_port(&mut self, channel_id: Snowflake) -> (removed: Option<ChannelPort>)
        ensures
            removed == (if old(self)@.channel_ports.contains_key(channel_id.raw) {
                Some(old(self)@.channel_ports[channel_id.raw])
            } else {
                None
            }),
            final(self)@ == (ChannelAudioView {
                channel_ports: old(self)@.channel_ports.remove(channel_id.raw),
                port_channels: (match removed {
                    Some(port) => old(self)@.port_channels.remove(port.port),
                    None => old(self)@.port_channels,
                }),
                ..old(self)@
            }),
    {
        let removed = self.channel_ports.remove(&channel_id.raw);
        if let Some(port) = removed {
            let _ = self.port_channels.remove(&port.port);
        }
        removed
    }

    /// Drops the sound of a channel that waits for Discord and the frame that
    /// was drained last, so that a bridge starts with fresh audio.
    pub fn clear_channel_stale_audio(&mut self, channel_id: Snowflake)
        ensures
            final(self)@ == old(self)@.without_stale(channel_id.raw),
    {
        let _ = table_remove(&mut self.audio_in, &channel_id.raw);
        let _ = table_remove(&mut self.drained, &channel_id.raw);
    }

    /// Fills a list with the channels that have calls, each once.
    pub fn get_active_channels_into(&self, out: &mut Vec<Snowflake>)
        ensures
            table::enumerates(
                final(out)@.map_values(|c: Snowflake| c.raw),
                self@.channel_calls.dom(),
            ),
    {
        out.clear();
        let ghost raw = |c: Snowflake| c.raw;
        for key in iter: self.channel_calls.keys()
            invariant
                raw == (|c: Snowflake| c.raw),
                out@.map_values(raw) == iter.seq().unref().take(iter.index() as int),
                iter.seq().unref().no_duplicates(),
                iter.seq().unref().to_set() == self.channel_calls@.dom(),
                iter.index() == iter.seq().len() ==> out@.map_values(raw) == iter.seq().unref(),
        {
            let ghost before = out@;
            out.push(Snowflake { raw: *key });
            assert(out@.map_values(raw) =~= before.map_values(raw).push(*key));
        }
        assert(self@.channel_calls.dom() =~= self.channel_calls@.dom());
        assert forall|a: u64| out@.map_values(raw).contains(a) <==> #[trigger] self@.channel_calls.dom().contains(
        a) by {
            assert(out@.map_values(raw).to_set().contains(a) <==> self.channel_calls@.dom().contains(
                a,
            ));
        }
    }

    /// Registers the ring buffer for sound of Discord on a channel.
    pub fn register_discord_to_sip(&mut self, channel_id: Snowflake, ring: SampleRing)
        ensures
            final(self)@ == (ChannelAudioView {
                rings: old(self)@.rings.insert(channel_id.raw, ring@),
                ..old(self)@
            }),
    {
        table_insert(&mut self.rings, channel_id.raw, ring);
    }

    /// Drops the ring buffer for sound of Discord on a channel.
    pub fn unregister_discord_to_sip(&mut self, channel_id: Snowflake)
        ensures
            final(self)@ == (ChannelAudioView {
                rings: old(self)@.rings.remove(channel_id.raw),
                ..old(self)@
            }),
    {
        let _ = table_remove(&mut self.rings, &channel_id.raw);
    }

    /// Writes sound of Discord for a channel, all of it or nothing. Refused
    /// where the channel has no ring buffer or too little room in it.
    pub fn write_discord_to_sip(&mut self, channel_id: Snowflake, samples: &Vec<i16>) -> (written: bool)
        ensures
            written == (old(self)@.rings.contains_key(channel_id.raw) && old(
                self,
            )@.rings[channel_id.raw].fits(samples@)),
            final(self)@ == (if old(self)@.rings.contains_key(channel_id.raw) {
                (ChannelAudioView {
                    rings: old(self)@.rings.insert(
                        channel_id.raw,
                        old(self)@.rings[channel_id.raw].written(samples@),
                    ),
                    ..old(self)@
                })
            } else {
                old(self)@
            }),
    {
        let ghost before = self@;
        match table_remove(&mut self.rings, &channel_id.raw) {
            Some(mut ring) => {
                let written = ring.write(samples);
                let ghost seen = ring@;
                table_insert(&mut self.rings, channel_id.raw, ring);
                assert(self@.rings =~= before.rings.insert(channel_id.raw, seen));
                written
            },
            None => {
                assert(self@.rings =~= before.rings);
                false
            },
        }
    }

    /// Takes the next samples of Discord for a channel: a frame, or what there
    /// is. The rest of `buf` is silence.
    pub fn get_samples_from_buffer(&mut self, channel_id: Snowflake, buf: &mut Vec<i16>) -> (n: usize)
        ensures
            n == old(self)@.available(channel_id.raw),
            final(buf)@ == frame_utils::padded(old(self)@.next_samples(channel_id.raw)),
            final(self)@ == old(self)@.taken(channel_id.raw),
    {
        let ghost before = self@;
        match table_remove(&mut self.rings, &channel_id.raw) {
            Some(mut ring) => {
                let readable = ring.readable();
                let n = if readable >= SAMPLES_PER_FRAME {
                    SAMPLES_PER_FRAME
                } else {
                    readable
                };
                let samples = ring.read(n);
                let ghost seen = ring@;
                table_insert(&mut self.rings, channel_id.raw, ring);
                assert(self@.rings =~= before.rings.insert(channel_id.raw, seen));
                *buf = fill_audio_frame(&samples);
                n
            },
            None => {
                assert(self@.rings =~= before.rings);
                let none: Vec<i16> = Vec::new();
                *buf = fill_audio_frame(&none);
                0
            },
        }
    }

    /// The next frame of a channel's port. Several calls of a channel ask for a
    /// frame at nearly the same time; within 15 ms they get the same one, so
    /// that more callers do not drain the buffer faster. A port without a
    /// channel gives no frame.
    pub fn channel_port_get_frame(&mut self, channel_id: Snowflake, now: Instant) -> (frame: Option<
        Vec<i16>,
    >)
        requires
            old(self)@.wf(),
        ensures
            final(self)@.wf(),
            frame is None <==> channel_id.raw == 0,
            frame matches Some(f) ==> f@ == frame_utils::padded(
                old(self)@.frame_samples(channel_id.raw, now),
            ) && f@.len() == SAMPLES_PER_FRAME,
            final(self)@ == (if channel_id.raw == 0 {
                old(self)@
            } else {
                old(self)@.after_frame(channel_id.raw, now)
            }),
    {
        if channel_id.raw == 0 {
            return None;
        }
        if let Some(last) = table_get(&self.drained, &channel_id.raw) {
            assert(self@.drained.contains_key(channel_id.raw));
            if last.at.elapsed(now).nanos < CACHE_WINDOW_NANOS {
                return Some(fill_audio_frame(&last.samples));
            }
        }
        let ghost before = self@;
        let mut buf = fill_silence_frame();
        let n = self.get_samples_from_buffer(channel_id, &mut buf);
        let samples = samples_between(&buf, 0, n);
        assert(samples@ =~= before.next_samples(channel_id.raw));
        let frame = fill_audio_frame(&samples);
        table_insert(&mut self.drained, channel_id.raw, DrainedFrame { at: now, samples });
        Some(frame)
    }

    /// Takes in sound of a call for Discord. The queue of a channel is kept at
    /// `max_buffer` samples by dropping the oldest.
    pub fn channel_port_put_frame(
        &mut self,
        channel_id: Snowflake,
        samples: &Vec<i16>,
        max_buffer: usize,
    )
        ensures
            final(self)@ == (if channel_id.raw == 0 || samples@.len() == 0 {
                old(self)@
            } else {
                old(self)@.put(channel_id.raw, samples@, max_buffer as int)
            }),
    {
        if samples.len() == 0 || channel_id.raw == 0 {
            return;
        }
        let ghost before = self@;
        let mut queue = match table_remove(&mut self.audio_in, &channel_id.raw) {
            Some(queue) => queue,
            None => AudioQueue { samples: VecDeque::new() },
        };
        let ghost waiting = before.queued(channel_id.raw);
        assert(queue@ =~= waiting);
        let len: usize = queue.samples.len();
        let room: usize = if samples.len() <= max_buffer {
            max_buffer - samples.len()
        } else {
            0
        };
        let to_drop: usize = if len > room {
            len - room
        } else {
            0
        };
        for i in 0..to_drop
            invariant
                to_drop <= waiting.len(),
                queue@ == waiting.skip(i as int),
        {
            let ghost prior = queue@;
            let _ = queue.samples.pop_front();
            assert(queue@ =~= waiting.skip(i + 1));
        }
        let ghost kept = queue@;
        for i in 0..samples.len()
            invariant
                queue@ == kept + samples@.take(i as int),
        {
            queue.samples.push_back(samples[i]);
            assert(samples@.take(i + 1) =~= samples@.take(i as int).push(samples@[i as int]));
        }
        assert(samples@.take(samples@.len() as int) =~= samples@);
        let ghost grown = queue@;
        table_insert(&mut self.audio_in, channel_id.raw, queue);
        assert(self@.audio_in =~= before.audio_in.insert(channel_id.raw, grown));
        assert(self@.audio_in =~= before.put(
            channel_id.raw,
            samples@,
            max_buffer as int,
        ).audio_in);
    }

    /// Takes the next samples of a channel's calls for Discord into the start
    /// of `buf`: a frame, or what there is. Returns how many there are.
    pub fn drain_sip_to_discord_audio(&mut self, channel_id: Snowflake, buf: &mut Vec<i16>) -> (n: usize)
        requires
            old(buf)@.len() >= SAMPLES_PER_FRAME,
        ensures
            n == old(self)@.drainable(channel_id.raw),
            final(buf)@.len() == old(buf)@.len(),
            final(buf)@.take(n as int) == old(self)@.queued(channel_id.raw).take(n as int),
            final(buf)@.skip(n as int) == old(buf)@.skip(n as int),
            final(self)@ == (if old(self)@.audio_in.contains_key(channel_id.raw) {
                (ChannelAudioView {
                    audio_in: old(self)@.audio_in.insert(
                        channel_id.raw,
                        old(self)@.queued(channel_id.raw).skip(n as int),
                    ),
                    ..old(self)@
                })
            } else {
                old(self)@
            }),
    {
        let ghost before = self@;
        let ghost first = buf@;
        let mut queue = match table_remove(&mut self.audio_in, &channel_id.raw) {
            Some(queue) => queue,
            None => {
                assert(self@.audio_in =~= before.audio_in);
                assert(buf@.take(0) =~= before.queued(channel_id.raw).take(0));
                return 0;
            },
        };
        let ghost waiting = queue@;
        let len: usize = queue.samples.len();
        let n = if len >= SAMPLES_PER_FRAME {
            SAMPLES_PER_FRAME
        } else {
            len
        };
        for i in 0..n
            invariant
                n <= waiting.len(),
                n <= SAMPLES_PER_FRAME <= first.len(),
                queue@ == waiting.skip(i as int),
                buf@.len() == first.len(),
                buf@.take(i as int) == waiting.take(i as int),
                forall|k: int| i <= k < first.len() ==> buf@[k] == #[trigger] first[k],
        {
            let ghost prior = buf@;
            if let Some(sample) = queue.samples.pop_front() {
                buf.set(i, sample);
                assert(sample == waiting[i as int]);
            }
            assert(queue@ =~= waiting.skip(i + 1));
            assert(buf@.take(i + 1) =~= prior.take(i as int).push(waiting[i as int]));
            assert(waiting.take(i + 1) =~= waiting.take(i as int).push(waiting[i as int]));
        }
        assert(buf@.skip(n as int) =~= first.skip(n as int));
        let ghost rest = queue@;
        table_insert(&mut self.audio_in, channel_id.raw, queue);
        assert(self@.audio_in =~= before.audio_in.insert(channel_id.raw, rest));
        n
    }
}

// Laws

/// Disconnecting undoes connecting: it names the same pairs of slots, in the
/// same order.
pub proof fn law_disconnect_mirrors_connect(
    port: ConfPort,
    others: Seq<ConfPort>,
    slot: Option<ConfPort>,
)
    ensures
        link_ops(false, port, others, slot) == link_ops(true, port, others, slot).map_values(
            |op: ConfOp| ConfOp { connect: false, ..op },
        ),
{
    lemma_peer_ops_mirror(port, others);
    let f = |op: ConfOp| ConfOp { connect: false, ..op };
    assert(link_ops(false, port, others, slot) =~= link_ops(true, port, others, slot).map_values(
        f,
    ));
}

proof fn lemma_peer_ops_mirror(port: ConfPort, others: Seq<ConfPort>)
    ensures
        peer_ops(false, port, others) == peer_ops(true, port, others).map_values(
            |op: ConfOp| ConfOp { connect: false, ..op },
        ),
    decreases others.len(),
{
    let f = |op: ConfOp| ConfOp { connect: false, ..op };
    if others.len() > 0 {
        lemma_peer_ops_mirror(port, others.drop_last());
    }
    assert(peer_ops(false, port, others) =~= peer_ops(true, port, others).map_values(f));
}

/// A call comes back from hold: it keeps its channel and its slot, and is
/// connected again once its media are active.
pub proof fn law_hold_can_be_resumed(audio: ChannelAudioView, call: i32)
    requires
        audio.call_channels.contains_key(call),
    ensures
        audio.hold(call).awaits_connection(call),
        audio.hold(call).call_channels == audio.call_channels,
        audio.hold(call).conf_ports == audio.conf_ports,
{
    let channel = audio.call_channels[call];
    assert(!audio.left_behind(call, channel).contains(call));
}

/// An unregistered call is gone: it has no channel, no slot, and is not among
/// the calls of the channel that it was registered with.
pub proof fn law_unregistered_call_is_gone(audio: ChannelAudioView, call: i32)
    ensures
        !audio.unregister(call).call_channels.contains_key(call),
        !audio.unregister(call).conf_ports.contains_key(call),
        audio.call_channels.contains_key(call) ==> !audio.unregister(call).calls_in(
            audio.call_channels[call],
        ).contains(call),
{
}

/// The callers of a channel share a frame: within the window after a fresh
/// frame every further caller gets the same one, and nothing more is drained.
pub proof fn law_callers_share_a_frame(
    audio: ChannelAudioView,
    channel: u64,
    now: Instant,
    later: Instant,
)
    requires
        !audio.cache_holds(channel, now),
        time::nanos_between(now, later) < CACHE_WINDOW_NANOS,
    ensures
        audio.after_frame(channel, now).frame_samples(channel, later) == audio.frame_samples(
            channel,
            now,
        ),
        audio.after_frame(channel, now).after_frame(channel, later) == audio.after_frame(
            channel,
            now,
        ),
{
}

/// Channels are isolated: frames that are given and sound that comes in on one
/// channel change neither the sound nor the frames of another.
pub proof fn law_channels_are_isolated(
    audio: ChannelAudioView,
    channel: u64,
    other: u64,
    samples: Seq<i16>,
    max: int,
    now: Instant,
)
    requires
        channel != other,
    ensures
        audio.put(channel, samples, max).queued(other) == audio.queued(other),
        audio.after_frame(channel, now).frame_samples(other, now) == audio.frame_samples(
            other,
            now,
        ),
        audio.after_frame(channel, now).next_samples(other) == audio.next_samples(other),
        audio.without_stale(channel).queued(other) == audio.queued(other),
{
}

/// The queue for Discord is bounded and keeps the newest sound: as long as a
/// frame fits at all, the queue holds at most `max` samples and ends with the
/// samples that came in last.
pub proof fn law_queue_is_bounded(
    audio: ChannelAudioView,
    channel: u64,
    samples: Seq<i16>,
    max: int,
)
    requires
        samples.len() <= max,
    ensures
        audio.put(channel, samples, max).queued(channel).len() <= max,
        audio.put(channel, samples, max).queued(channel).skip(
            audio.put(channel, samples, max).queued(channel).len() - samples.len(),
        ) == samples,
{
    let queue = audio.put(channel, samples, max).queued(channel);
    assert(queue.skip(queue.len() - samples.len()) =~= samples);
}

/// Every operation keeps the routing well-formed.
pub proof fn law_operations_keep_wf(
    audio: ChannelAudioView,
    call: i32,
    channel: u64,
    samples: Seq<i16>,
    max: int,
    now: Instant,
)
    requires
        audio.wf(),
    ensures
        audio.register(call, channel).wf(),
        audio.joined(call, channel).wf(),
        audio.hold(call).wf(),
        audio.unregister(call).wf(),
        audio.taken(channel).wf(),
        audio.after_frame(channel, now).wf(),
        audio.put(channel, samples, max).wf(),
        audio.without_stale(channel).wf(),
{
}

} // verus!
