//! Audio frames of the conference bridge.

use crate::ring::zeros;
use vstd::prelude::*;

verus! {

/// The sample rate of the conference bridge.
pub const CONF_SAMPLE_RATE: u32 = 16_000;

/// The samples of one frame: 20 ms.
pub const SAMPLES_PER_FRAME: usize = 320;

/// `n` samples of silence.
pub open spec fn silence(n: int) -> Seq<i16> {
    Seq::new(n as nat, |i: int| 0i16)
}

/// Samples as a frame, padded with silence.
pub open spec fn padded(samples: Seq<i16>) -> Seq<i16> {
    samples + silence(SAMPLES_PER_FRAME - samples.len())
}

/// A frame that begins with the given samples and is padded with silence.
pub fn fill_audio_frame(samples: &Vec<i16>) -> (frame: Vec<i16>)
    requires
        samples@.len() <= SAMPLES_PER_FRAME,
    ensures
        frame@ == padded(samples@),
        frame@.len() == SAMPLES_PER_FRAME,
{
    let mut frame: Vec<i16> = Vec::new();
    for i in 0..samples.len()
        invariant
            frame@ == samples@.take(i as int),
    {
        frame.push(samples[i]);
        assert(samples@.take(i + 1) =~= samples@.take(i as int).push(samples@[i as int]));
    }
    assert(samples@.take(samples@.len() as int) =~= samples@);
    let mut rest = zeros(SAMPLES_PER_FRAME - samples.len());
    frame.append(&mut rest);
    assert(frame@ =~= padded(samples@));
    frame
}

/// A frame of silence.
pub fn fill_silence_frame() -> (frame: Vec<i16>)
    ensures
        frame@ == silence(SAMPLES_PER_FRAME as int),
{
    zeros(SAMPLES_PER_FRAME)
}

/// The samples from `from` up to `to`.
pub fn samples_between(samples: &Vec<i16>, from: usize, to: usize) -> (out: Vec<i16>)
    requires
        from <= to <= samples@.len(),
    ensures
        out@ == samples@.subrange(from as int, to as int),
{
    let mut out: Vec<i16> = Vec::new();
    for i in from..to
        invariant
            from <= to <= samples@.len(),
            out@ == samples@.subrange(from as int, i as int),
    {
        out.push(samples[i]);
        assert(samples@.subrange(from as int, i + 1) =~= samples@.subrange(
            from as int,
            i as int,
        ).push(samples@[i as int]));
    }
    out
}

// Laws

/// A short frame is completed by silence: it has the length of a frame, begins
/// with the samples and ends in zeros.
pub proof fn law_padding_is_silence(samples: Seq<i16>, i: int)
    requires
        samples.len() <= SAMPLES_PER_FRAME,
        0 <= i < SAMPLES_PER_FRAME,
    ensures
        padded(samples).len() == SAMPLES_PER_FRAME,
        padded(samples)[i] == (if i < samples.len() {
            samples[i]
        } else {
            0i16
        }),
{
}

} // verus!
