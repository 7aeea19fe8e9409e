//! The ring buffers that carry the sound of a Discord channel to its callers.

use crate::ids::Snowflake;
use crate::ring;
use crate::ring::SampleRing;
use crate::time::Instant;
use crate::transport::sip::channel_audio;
use crate::transport::sip::channel_audio::ChannelAudio;
use crate::transport::sip::ffi::frame_utils;
use vstd::prelude::*;

verus! {

/// Room for the sound of a channel: 200 ms.
pub const DISCORD_TO_SIP_RING_BUFFER_SIZE: usize = 3_200;

impl channel_audio::ChannelAudioView {
    /// The audio with an empty ring buffer for a channel.
    pub open spec fn with_fresh_ring(self, channel: u64) -> channel_audio::ChannelAudioView {
        channel_audio::ChannelAudioView {
            rings: self.rings.insert(
                channel,
                ring::RingView::fresh(DISCORD_TO_SIP_RING_BUFFER_SIZE as nat),
            ),
            ..self
        }
    }

    /// The audio without any sound of a channel, in either direction.
    pub open spec fn torn_down(self, channel: u64) -> channel_audio::ChannelAudioView {
        (channel_audio::ChannelAudioView {
            rings: self.rings.remove(channel),
            ..self
        }).without_stale(channel)
    }
}

/// Creates the ring buffer of a channel.
pub fn setup_channel_ring_buffers(audio: &mut ChannelAudio, channel_id: Snowflake)
    ensures
        final(audio)@ == old(audio)@.with_fresh_ring(channel_id.raw),
{
    let fresh = SampleRing::new(DISCORD_TO_SIP_RING_BUFFER_SIZE);
    audio.register_discord_to_sip(channel_id, fresh);
}

/// Removes the ring buffer of a channel, and what is left of its sound.
pub fn teardown_channel_ring_buffers(audio: &mut ChannelAudio, channel_id: Snowflake)
    ensures
        final(audio)@ == old(audio)@.torn_down(channel_id.raw),
{
    audio.unregister_discord_to_sip(channel_id);
    audio.clear_channel_stale_audio(channel_id);
}

// Laws

/// After a teardown no sound gets through in either direction: nothing can be
/// written, callers hear silence, and Discord hears nothing. A second teardown
/// changes nothing.
pub proof fn law_teardown_blocks_stale_audio(
    audio: channel_audio::ChannelAudioView,
    channel: u64,
    now: Instant,
)
    ensures
        ({
            let after = audio.torn_down(channel);
            &&& !after.rings.contains_key(channel)
            &&& after.frame_samples(channel, now) == Seq::<i16>::empty()
            &&& after.available(channel) == 0
            &&& frame_utils::padded(after.next_samples(channel)) == frame_utils::silence(
                frame_utils::SAMPLES_PER_FRAME as int,
            )
            &&& after.drainable(channel) == 0
            &&& after.torn_down(channel) == after
        }),
{
    let after = audio.torn_down(channel);
    assert(after.next_samples(channel) =~= Seq::<i16>::empty());
    assert(frame_utils::padded(after.next_samples(channel)) =~= frame_utils::silence(
        frame_utils::SAMPLES_PER_FRAME as int,
    ));
    assert(after.torn_down(channel).rings =~= after.rings);
    assert(after.torn_down(channel).audio_in =~= after.audio_in);
    assert(after.torn_down(channel).drained =~= after.drained);
}

/// A setup starts with an empty buffer, and neither a setup nor a teardown
/// touches the sound of another channel.
pub proof fn law_ring_buffers_are_isolated(
    audio: channel_audio::ChannelAudioView,
    channel: u64,
    other: u64,
)
    requires
        other != channel,
    ensures
        audio.with_fresh_ring(channel).available(channel) == 0,
        audio.with_fresh_ring(channel).available(other) == audio.available(other),
        audio.with_fresh_ring(channel).next_samples(other) == audio.next_samples(other),
        audio.torn_down(channel).available(other) == audio.available(other),
        audio.torn_down(channel).next_samples(other) == audio.next_samples(other),
        audio.torn_down(channel).drainable(other) == audio.drainable(other),
{
}

} // verus!
