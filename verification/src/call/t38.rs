//! Sequencing of T.38 packets.

use vstd::prelude::*;

verus! {

/// One T.38 packet in the order in which the fax decoder takes them.
#[derive(Debug)]
pub struct SequencedIfp<'a> {
    pub seq_number: u16,
    pub data: &'a [u8],
    /// Whether the packet comes out of the redundancy of a later one.
    pub recovered: bool,
}

/// The packets that one datagram yields.
#[derive(Debug)]
pub struct SequencedIfpBatch<'a> {
    pub packets: Vec<SequencedIfp<'a>>,
    /// How many packets before the primary one are lost.
    pub unrecovered_packets: usize,
    /// Whether the datagram is behind what was already delivered.
    pub stale: bool,
}

/// A packet in the model.
pub ghost struct IfpView {
    pub seq_number: int,
    pub data: Seq<u8>,
    pub recovered: bool,
}

/// A batch in the model.
pub ghost struct IfpBatchView {
    pub packets: Seq<IfpView>,
    pub unrecovered_packets: int,
    pub stale: bool,
}

impl<'a> View for SequencedIfp<'a> {
    type V = IfpView;

    open spec fn view(&self) -> IfpView {
        IfpView {
            seq_number: self.seq_number as int,
            data: self.data@,
            recovered: self.recovered,
        }
    }
}

impl<'a> View for SequencedIfpBatch<'a> {
    type V = IfpBatchView;

    open spec fn view(&self) -> IfpBatchView {
        IfpBatchView {
            packets: self.packets@.map_values(|p: SequencedIfp<'a>| p@),
            unrecovered_packets: self.unrecovered_packets as int,
            stale: self.stale,
        }
    }
}

/// Tracks the next T.38 sequence number that the fax decoder expects.
///
/// The redundancy of a datagram is ordered newest first: entry zero has the
/// sequence number before the primary one, and so on. When a primary packet
/// jumps forward, the entries that fall in the gap are delivered oldest first
/// before it. Sequence numbers are compared by the half-range rule, so that
/// their rollover is handled.
#[derive(Debug)]
pub struct T38IfpSequencer {
    pub next_seq: Option<u16>,
}

impl Default for T38IfpSequencer {
    fn default() -> (s: T38IfpSequencer)
        ensures
            s.next_seq is None,
    {
        T38IfpSequencer { next_seq: None }
    }
}

/// The number of sequence numbers.
pub open spec fn seq_space() -> int {
    0x1_0000
}

/// The sequence number `k` places before another.
pub open spec fn seq_before(seq: u16, k: int) -> int {
    (seq - k) % seq_space()
}

/// How far a sequence number is ahead of the expected one.
pub open spec fn forward_distance(seq: u16, expected: u16) -> int {
    (seq - expected) % seq_space()
}

/// How many entries of the redundancy can be told apart by their number.
pub open spec fn usable(redundant: nat) -> int {
    if redundant <= u16::MAX {
        redundant as int
    } else {
        u16::MAX as int
    }
}

/// Whether a datagram is behind what was already delivered, or so far ahead
/// that it cannot be told from that.
pub open spec fn is_stale(next_seq: Option<u16>, seq: u16) -> bool {
    next_seq matches Some(expected) && forward_distance(seq, expected) >= 0x8000
}

/// How many entries of the redundancy are delivered: at first all of them,
/// later those that fall in the gap.
pub open spec fn recovered_count(next_seq: Option<u16>, seq: u16, redundant: nat) -> int {
    match next_seq {
        None => usable(redundant),
        Some(expected) => if forward_distance(seq, expected) <= usable(redundant) {
            forward_distance(seq, expected)
        } else {
            usable(redundant)
        },
    }
}

/// The delivered entries of the redundancy, oldest first, then the primary
/// packet.
pub open spec fn delivered(
    count: int,
    seq: u16,
    primary: Seq<u8>,
    redundant: Seq<Seq<u8>>,
) -> Seq<IfpView> {
    Seq::new(
        count as nat,
        |k: int|
            IfpView {
                seq_number: seq_before(seq, count - k),
                data: redundant[count - 1 - k],
                recovered: true,
            },
    ).push(IfpView { seq_number: seq as int, data: primary, recovered: false })
}

/// What a datagram yields.
pub open spec fn batch_of(
    next_seq: Option<u16>,
    seq: u16,
    primary: Seq<u8>,
    redundant: Seq<Seq<u8>>,
) -> IfpBatchView {
    if is_stale(next_seq, seq) {
        IfpBatchView { packets: Seq::empty(), unrecovered_packets: 0, stale: true }
    } else {
        let count = recovered_count(next_seq, seq, redundant.len());
        IfpBatchView {
            packets: delivered(count, seq, primary, redundant),
            unrecovered_packets: match next_seq {
                None => 0,
                Some(expected) => forward_distance(seq, expected) - count,
            },
            stale: false,
        }
    }
}

/// The expected sequence number after a datagram.
pub open spec fn next_after(next_seq: Option<u16>, seq: u16) -> Option<u16> {
    if is_stale(next_seq, seq) {
        next_seq
    } else {
        Some(((seq + 1) % seq_space()) as u16)
    }
}

/// The contents of the redundancy.
pub open spec fn bodies(redundant: Seq<Vec<u8>>) -> Seq<Seq<u8>> {
    redundant.map_values(|r: Vec<u8>| r@)
}

impl T38IfpSequencer {
    /// Takes in a datagram and gives the packets to deliver, in ascending
    /// order of their sequence numbers.
    pub fn accept<'a>(
        &mut self,
        primary_seq: u16,
        primary_ifp: &'a [u8],
        redundant_ifps: &'a [Vec<u8>],
    ) -> (batch: SequencedIfpBatch<'a>)
        ensures
            final(self).next_seq == next_after(old(self).next_seq, primary_seq),
            batch@ == batch_of(
                old(self).next_seq,
                primary_seq,
                primary_ifp@,
                bodies(redundant_ifps@),
            ),
    {
        let ghost next = self.next_seq;
        let retained: usize = if redundant_ifps.len() <= u16::MAX as usize {
            redundant_ifps.len()
        } else {
            u16::MAX as usize
        };
        let mut count: usize = retained;
        let mut lost: usize = 0;
        if let Some(expected_seq) = self.next_seq {
            let forward: u16 = primary_seq.wrapping_sub(expected_seq);
            assert(forward == forward_distance(primary_seq, expected_seq));
            if forward >= 0x8000 {
                let batch = SequencedIfpBatch {
                    packets: Vec::new(),
                    unrecovered_packets: 0,
                    stale: true,
                };
                assert(batch@.packets =~= Seq::<IfpView>::empty());
                return batch;
            }
            if (forward as usize) < retained {
                count = forward as usize;
            }
            lost = forward as usize - count;
        }
        assert(count == recovered_count(next, primary_seq, redundant_ifps@.len()));
        let ghost wanted = delivered(
            count as int,
            primary_seq,
            primary_ifp@,
            bodies(redundant_ifps@),
        );
        let mut packets: Vec<SequencedIfp<'a>> = Vec::new();
        let ghost view = |p: SequencedIfp<'a>| p@;
        for k in 0..count
            invariant
                count <= redundant_ifps@.len(),
                count <= u16::MAX,
                view == (|p: SequencedIfp<'a>| p@),
                wanted == delivered(
                    count as int,
                    primary_seq,
                    primary_ifp@,
                    bodies(redundant_ifps@),
                ),
                packets@.map_values(view) == wanted.take(k as int),
        {
            let ghost before = packets@;
            let back: u16 = (count - k) as u16;
            let seq_number: u16 = primary_seq.wrapping_sub(back);
            assert(seq_number == seq_before(primary_seq, count - k));
            let packet = SequencedIfp {
                seq_number,
                data: redundant_ifps[count - 1 - k].as_slice(),
                recovered: true,
            };
            packets.push(packet);
            assert(packet@ == wanted[k as int]);
            assert(packets@.map_values(view) =~= before.map_values(view).push(packet@));
            assert(wanted.take(k + 1) =~= wanted.take(k as int).push(wanted[k as int]));
        }
        let ghost before = packets@;
        let primary = SequencedIfp { seq_number: primary_seq, data: primary_ifp, recovered: false };
        packets.push(primary);
        assert(packets@.map_values(view) =~= before.map_values(view).push(primary@));
        assert(wanted =~= wanted.take(count as int).push(primary@));
        self.next_seq = Some(primary_seq.wrapping_add(1));
        SequencedIfpBatch { packets, unrecovered_packets: lost, stale: false }
    }
}

// Laws

/// Packets are delivered in ascending order without a hole: each packet of a
/// batch follows the one before it, and the last is the primary one.
pub proof fn law_batch_is_consecutive(
    next_seq: Option<u16>,
    seq: u16,
    primary: Seq<u8>,
    redundant: Seq<Seq<u8>>,
)
    requires
        !is_stale(next_seq, seq),
    ensures
        ({
            let packets = batch_of(next_seq, seq, primary, redundant).packets;
            &&& packets.len() > 0
            &&& packets.last().seq_number == seq
            &&& forall|k: int|
                0 <= k < packets.len() - 1 ==> (#[trigger] packets[k].seq_number + 1) % seq_space()
                    == packets[k + 1].seq_number
        }),
{
    let packets = batch_of(next_seq, seq, primary, redundant).packets;
    let count = recovered_count(next_seq, seq, redundant.len());
    assert forall|k: int| 0 <= k < packets.len() - 1 implies (#[trigger] packets[k].seq_number + 1)
        % seq_space() == packets[k + 1].seq_number by {
        assert(packets[k].seq_number == seq_before(seq, count - k));
        if k + 1 < count {
            assert(packets[k + 1].seq_number == seq_before(seq, count - k - 1));
        }
    }
}

/// Nothing is delivered twice: after a delivery every packet of the batch,
/// sent again, is stale. Of the redundancy of a first datagram only the newest
/// half of the sequence numbers can be told from what is to come.
pub proof fn law_duplicates_are_stale(
    next_seq: Option<u16>,
    seq: u16,
    primary: Seq<u8>,
    redundant: Seq<Seq<u8>>,
    k: int,
)
    requires
        next_seq is Some || redundant.len() < 0x8000,
        !is_stale(next_seq, seq),
        0 <= k < batch_of(next_seq, seq, primary, redundant).packets.len(),
    ensures
        is_stale(
            next_after(next_seq, seq),
            batch_of(next_seq, seq, primary, redundant).packets[k].seq_number as u16,
        ),
{
    let packets = batch_of(next_seq, seq, primary, redundant).packets;
    let count = recovered_count(next_seq, seq, redundant.len());
    if k < count {
        assert(packets[k].seq_number == seq_before(seq, count - k));
    }
}

/// Only what is missing is recovered: no packet of a batch lies before the
/// expected one, that is among those delivered already, or behind the primary.
pub proof fn law_only_missing_packets_are_recovered(
    expected: u16,
    seq: u16,
    primary: Seq<u8>,
    redundant: Seq<Seq<u8>>,
    k: int,
)
    requires
        !is_stale(Some(expected), seq),
        0 <= k < batch_of(Some(expected), seq, primary, redundant).packets.len(),
    ensures
        forward_distance(
            batch_of(Some(expected), seq, primary, redundant).packets[k].seq_number as u16,
            expected,
        ) <= forward_distance(seq, expected),
{
    let packets = batch_of(Some(expected), seq, primary, redundant).packets;
    let count = recovered_count(Some(expected), seq, redundant.len());
    if k < count {
        assert(packets[k].seq_number == seq_before(seq, count - k));
    }
}

/// The gap is accounted for: what is recovered and what is reported lost add up
/// to the packets between the expected one and the primary one.
pub proof fn law_gap_is_accounted_for(
    expected: u16,
    seq: u16,
    primary: Seq<u8>,
    redundant: Seq<Seq<u8>>,
)
    requires
        !is_stale(Some(expected), seq),
    ensures
        ({
            let batch = batch_of(Some(expected), seq, primary, redundant);
            &&& batch.packets.len() - 1 + batch.unrecovered_packets == forward_distance(
                seq,
                expected,
            )
            &&& batch.unrecovered_packets >= 0
        }),
{
}

/// A stale datagram changes nothing, and delivers nothing.
pub proof fn law_stale_does_not_rewind(
    next_seq: Option<u16>,
    seq: u16,
    primary: Seq<u8>,
    redundant: Seq<Seq<u8>>,
)
    requires
        is_stale(next_seq, seq),
    ensures
        next_after(next_seq, seq) == next_seq,
        batch_of(next_seq, seq, primary, redundant).packets.len() == 0,
{
}

} // verus!
