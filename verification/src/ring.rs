//! Ring buffers of audio samples, from `rtrb`.

use rtrb::{Consumer, Producer, RingBuffer};
use vstd::prelude::*;

verus! {

/// `rtrb::Producer`: the end of a ring buffer that is written to.
#[verifier::external_type_specification]
#[verifier::external_body]
#[verifier::reject_recursive_types(T)]
pub struct ExProducer<T>(Producer<T>);

/// `rtrb::Consumer`: the end of a ring buffer that is read from.
#[verifier::external_type_specification]
#[verifier::external_body]
#[verifier::reject_recursive_types(T)]
pub struct ExConsumer<T>(Consumer<T>);

/// A ring buffer of samples: the two ends of one `rtrb` buffer.
pub struct SampleRing {
    producer: Producer<i16>,
    consumer: Consumer<i16>,
}

/// The samples that were written to a ring buffer and not yet read.
pub uninterp spec fn ring_items(ring: SampleRing) -> Seq<i16>;

/// How many samples a ring buffer holds at most.
pub uninterp spec fn ring_capacity(ring: SampleRing) -> nat;

/// A ring buffer in the model.
pub ghost struct RingView {
    pub items: Seq<i16>,
    pub capacity: nat,
}

impl View for SampleRing {
    type V = RingView;

    open spec fn view(&self) -> RingView {
        RingView { items: ring_items(*self), capacity: ring_capacity(*self) }
    }
}

impl RingView {
    /// An empty ring buffer.
    pub open spec fn fresh(capacity: nat) -> RingView {
        RingView { items: Seq::empty(), capacity }
    }

    /// Whether samples fit.
    pub open spec fn fits(self, samples: Seq<i16>) -> bool {
        self.items.len() + samples.len() <= self.capacity
    }

    /// The ring buffer after a write, which is taken whole or not at all.
    pub open spec fn written(self, samples: Seq<i16>) -> RingView {
        if self.fits(samples) {
            RingView { items: self.items + samples, ..self }
        } else {
            self
        }
    }

    /// The ring buffer after the first `n` samples were read.
    pub open spec fn read(self, n: int) -> RingView {
        RingView { items: self.items.skip(n), ..self }
    }
}

/// The largest ring buffer: its bytes can be addressed on every machine.
pub const MAX_RING: usize = 0x3fff_ffff;

/// `RingBuffer::new`: an empty ring buffer of the given capacity.
#[verifier::external_body]
pub(crate) fn new_ring(capacity: usize) -> (ring: SampleRing)
    requires
        capacity <= MAX_RING,
    ensures
        ring_items(ring) == (Seq::<i16>::empty()),
        ring_capacity(ring) == capacity,
{
    let (producer, consumer) = RingBuffer::new(capacity);
    SampleRing { producer, consumer }
}

/// `Consumer::slots`: the number of samples that can be read.
#[verifier::external_body]
pub(crate) fn ring_readable(ring: &SampleRing) -> (n: usize)
    ensures
        n == ring_items(*ring).len(),
{
    ring.consumer.slots()
}

/// `Producer::slots`: the number of samples that can be written.
#[verifier::external_body]
pub(crate) fn ring_writable(ring: &SampleRing) -> (n: usize)
    ensures
        n == ring_capacity(*ring) - ring_items(*ring).len(),
{
    ring.producer.slots()
}

/// `Producer::push_entire_slice`: writes the samples behind those that are
/// there, if all of them fit; else writes none of them.
#[verifier::external_body]
pub(crate) fn ring_write(ring: &mut SampleRing, samples: &Vec<i16>) -> (written: bool)
    ensures
        written == (ring_items(*old(ring)).len() + samples@.len() <= ring_capacity(*old(ring))),
        ring_items(*final(ring)) == (if written {
            ring_items(*old(ring)) + samples@
        } else {
            ring_items(*old(ring))
        }),
        ring_capacity(*final(ring)) == ring_capacity(*old(ring)),
{
    ring.producer.push_entire_slice(samples.as_slice()).is_ok()
}

/// `Consumer::pop_entire_slice`: reads as many samples as `out` is long, the
/// oldest first, if there are so many; else reads none.
#[verifier::external_body]
pub(crate) fn ring_read(ring: &mut SampleRing, out: &mut Vec<i16>) -> (read: bool)
    ensures
        read == (old(out)@.len() <= ring_items(*old(ring)).len()),
        final(out)@ == (if read {
            ring_items(*old(ring)).take(old(out)@.len() as int)
        } else {
            old(out)@
        }),
        ring_items(*final(ring)) == (if read {
            ring_items(*old(ring)).skip(old(out)@.len() as int)
        } else {
            ring_items(*old(ring))
        }),
        ring_capacity(*final(ring)) == ring_capacity(*old(ring)),
{
    ring.consumer.pop_entire_slice(out.as_mut_slice()).is_ok()
}

/// A list of `n` zeros.
pub fn zeros(n: usize) -> (out: Vec<i16>)
    ensures
        out@ == Seq::new(n as nat, |i: int| 0i16),
{
    let mut out: Vec<i16> = Vec::new();
    for i in 0..n
        invariant
            out@ == Seq::new(i as nat, |j: int| 0i16),
    {
        out.push(0);
        assert(out@ =~= Seq::new((i + 1) as nat, |j: int| 0i16));
    }
    out
}

impl SampleRing {
    pub fn new(capacity: usize) -> (ring: SampleRing)
        requires
            capacity <= MAX_RING,
        ensures
            ring@ == RingView::fresh(capacity as nat),
    {
        new_ring(capacity)
    }

    /// The number of samples that can be read.
    pub fn readable(&self) -> (n: usize)
        ensures
            n == self@.items.len(),
    {
        ring_readable(self)
    }

    /// The number of samples that can be written.
    pub fn writable(&self) -> (n: usize)
        ensures
            n == self@.capacity - self@.items.len(),
    {
        ring_writable(self)
    }

    /// Writes samples, all of them or none.
    pub fn write(&mut self, samples: &Vec<i16>) -> (written: bool)
        ensures
            written == old(self)@.fits(samples@),
            final(self)@ == old(self)@.written(samples@),
    {
        ring_write(self, samples)
    }

    /// Reads the oldest `n` samples.
    pub fn read(&mut self, n: usize) -> (out: Vec<i16>)
        requires
            n <= old(self)@.items.len(),
        ensures
            out@ == old(self)@.items.take(n as int),
            final(self)@ == old(self)@.read(n as int),
    {
        let mut out = zeros(n);
        let _ = ring_read(self, &mut out);
        out
    }
}

// Laws

/// A ring buffer keeps the order of samples: of what was written behind each
/// other, reading gives the first part first, across the wrap of the buffer,
/// and nothing is lost or doubled.
pub proof fn law_ring_is_first_in_first_out(
    ring: RingView,
    first: Seq<i16>,
    second: Seq<i16>,
    n: int,
)
    requires
        ring.fits(first),
        ring.written(first).fits(second),
        0 <= n <= ring.items.len() + first.len() + second.len(),
    ensures
        ({
            let all = ring.written(first).written(second);
            &&& all.items == ring.items + first + second
            &&& all.items.take(n) + all.read(n).items == all.items
        }),
{
    let all = ring.written(first).written(second);
    assert(all.items.take(n) + all.read(n).items =~= all.items);
}

/// A write that does not fit changes nothing.
pub proof fn law_overflow_is_refused(ring: RingView, samples: Seq<i16>)
    requires
        ring.items.len() + samples.len() > ring.capacity,
    ensures
        ring.written(samples) == ring,
{
}

} // verus!
