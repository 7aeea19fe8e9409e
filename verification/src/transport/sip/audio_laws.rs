//! How sound goes between the calls of a channel and Discord.
//!
//! The laws speak of what the operations are given and of what they give.

use crate::call::rings;
use crate::ids::{CallId, ConfPort, Snowflake};
use crate::table;
use crate::time::Instant;
use crate::transport::sip::channel_audio;
use crate::transport::sip::channel_audio::{
    connect_call_to_channel, disconnect_call_from_channel, CallConnections, ChannelAudio,
    ChannelPort, ConfOp,
};
use vstd::prelude::*;

verus! {

/// Whether two routings differ in nothing but the calls of their channels and the
/// connections that are to be made.
pub open spec fn same_sound(
    before: channel_audio::ChannelAudioView,
    after: channel_audio::ChannelAudioView,
) -> bool {
    &&& after.channel_ports == before.channel_ports
    &&& after.port_channels == before.port_channels
    &&& after.audio_in == before.audio_in
    &&& after.drained == before.drained
    &&& after.rings == before.rings
}

/// Whether a call is in the set of a channel.
pub open spec fn is_in(audio: channel_audio::ChannelAudioView, call: i32, channel: u64) -> bool {
    audio.channel_calls.contains_key(channel) && audio.channel_calls[channel].contains(call)
}

/// No registered call is forgotten. Where its media are active, the call is among
/// the calls of its channel, and the pair of the two is put behind the connections
/// that are already waiting to be made. Where they are not, nothing is to be made
/// yet, and the call can still be found by its channel. Other calls stay as they
/// are.
pub proof fn law_registered_call_is_not_forgotten(
    audio: &mut ChannelAudio,
    call: CallId,
    channel: Snowflake,
    other: i32,
    place: u64,
)
    requires
        call_ensures(ChannelAudio::register_call_channel, (audio, call, channel), ()),
    ensures
        final(audio)@.call_channels.contains_key(call.raw),
        final(audio)@.call_channels[call.raw] == channel.raw,
        old(audio)@.conf_ports.contains_key(call.raw) ==> {
            &&& is_in(final(audio)@, call.raw, channel.raw)
            &&& final(audio)@.pending.len() == old(audio)@.pending.len() + 1
            &&& final(audio)@.pending.last() == (call, channel)
            &&& final(audio)@.pending.drop_last() == old(audio)@.pending
        },
        !old(audio)@.conf_ports.contains_key(call.raw) ==> {
            &&& final(audio)@.pending == old(audio)@.pending
            &&& final(audio)@.channel_calls == old(audio)@.channel_calls
        },
        other != call.raw ==> (is_in(final(audio)@, other, place) <==> is_in(
            old(audio)@,
            other,
            place,
        )) && (final(audio)@.call_channels.contains_key(other) <==> old(audio)@.call_channels.contains_key(other)) && final(audio)@.call_channels[other]
            == old(audio)@.call_channels[other],
        final(audio)@.conf_ports == old(audio)@.conf_ports,
        same_sound(old(audio)@, final(audio)@),
{
    if old(audio)@.conf_ports.contains_key(call.raw) {
        assert(final(audio)@.pending.drop_last() =~= old(audio)@.pending);
    }
}

/// A call that is registered while its media are active is handed over to be
/// connected: its pair with the channel comes out behind those that were waiting,
/// and only once.
pub proof fn law_registered_call_is_handed_over(
    audio: &mut ChannelAudio,
    call: CallId,
    channel: Snowflake,
    later: &mut ChannelAudio,
    pending: Vec<(CallId, Snowflake)>,
)
    requires
        call_ensures(ChannelAudio::register_call_channel, (audio, call, channel), ()),
        old(audio)@.conf_ports.contains_key(call.raw),
        old(later)@ == final(audio)@,
        call_ensures(ChannelAudio::take_pending_connections, (later,), pending),
    ensures
        pending@.len() == old(audio)@.pending.len() + 1,
        pending@.last() == (call, channel),
        forall|k: int|
            0 <= k < old(audio)@.pending.len() ==> #[trigger] pending@[k] == old(audio)@.pending[k],
        final(later)@.pending.len() == 0,
        final(later)@.channel_calls == final(audio)@.channel_calls,
        final(later)@.call_channels == final(audio)@.call_channels,
        final(later)@.conf_ports == final(audio)@.conf_ports,
        same_sound(final(audio)@, final(later)@),
{
}

/// A call that was registered before its media became active is connected once
/// they are: with the slot that it got then, with its channel, and with the other
/// calls there. A second attempt connects nothing.
pub proof fn law_call_is_connected_once_its_media_are_active(
    audio: &mut ChannelAudio,
    call: CallId,
    channel: Snowflake,
    ready: &mut ChannelAudio,
    port: ConfPort,
    made: Option<CallConnections>,
    again: &mut ChannelAudio,
    second: Option<CallConnections>,
)
    requires
        call_ensures(ChannelAudio::register_call_channel, (audio, call, channel), ()),
        !old(audio)@.conf_ports.contains_key(call.raw),
        !is_in(old(audio)@, call.raw, channel.raw),
        old(ready)@ == final(audio)@,
        call_ensures(
            ChannelAudio::complete_pending_channel_registration,
            (ready, call, port),
            made,
        ),
        old(again)@ == final(ready)@,
        call_ensures(
            ChannelAudio::complete_pending_channel_registration,
            (again, call, port),
            second,
        ),
    ensures
        made matches Some(c) && c.channel_id == channel && c.conf_port == port,
        is_in(final(ready)@, call.raw, channel.raw),
        second is None,
        final(again)@ == final(ready)@,
{
}

/// Whether a list names the calls of a channel but one, those whose media are
/// active, each once and with its slot.
pub open spec fn names_others(
    audio: channel_audio::ChannelAudioView,
    list: Seq<(CallId, ConfPort)>,
    call: i32,
    channel: u64,
) -> bool {
    &&& forall|other: i32|
        (exists|k: int| 0 <= k < list.len() && (#[trigger] list[k]).0.raw == other) <==> (
        #[trigger] is_in(audio, other, channel) && other != call && audio.conf_ports.contains_key(
            other,
        ))
    &&& forall|k: int|
        0 <= k < list.len() ==> (#[trigger] list[k]).1.raw == audio.conf_ports[list[k].0.raw]
    &&& forall|i: int, j: int|
        0 <= i < j < list.len() ==> (#[trigger] list[i]).0 != (#[trigger] list[j]).0
}

proof fn lemma_names_others(
    audio: channel_audio::ChannelAudioView,
    list: Seq<(CallId, ConfPort)>,
    calls: Set<i32>,
    call: i32,
    channel: u64,
)
    requires
        audio.lists(list, calls),
        forall|other: i32| #[trigger]
            calls.contains(other) <==> is_in(audio, other, channel) && other != call,
    ensures
        names_others(audio, list, call, channel),
{
    let ids = channel_audio::ids_of(list);
    assert forall|other: i32|
        (exists|k: int| 0 <= k < list.len() && (#[trigger] list[k]).0.raw == other) <==> (
        #[trigger] is_in(audio, other, channel) && other != call && audio.conf_ports.contains_key(
            other,
        )) by {
        assert(calls.contains(other) <==> is_in(audio, other, channel) && other != call);
        assert(ids.contains(other) <==> audio.with_media(calls).contains(other));
        if exists|k: int| 0 <= k < list.len() && (#[trigger] list[k]).0.raw == other {
            let k = choose|k: int| 0 <= k < list.len() && (#[trigger] list[k]).0.raw == other;
            assert(ids[k] == other);
        }
        if ids.contains(other) {
            let k = choose|k: int| 0 <= k < ids.len() && ids[k] == other;
            assert(list[k].0.raw == other);
        }
    }
    assert forall|i: int, j: int| 0 <= i < j < list.len() implies (#[trigger] list[i]).0 != (
    #[trigger] list[j]).0 by {
        assert(ids[i] == list[i].0.raw);
        assert(ids[j] == list[j].0.raw);
    }
}

/// A call is connected with everybody on its channel: those who are there when the
/// connections are made, each with the slot of its media, but not with itself.
pub proof fn law_call_is_connected_with_everybody(
    audio: &ChannelAudio,
    call: CallId,
    channel: Snowflake,
    made: Option<CallConnections>,
)
    requires
        call_ensures(ChannelAudio::complete_conf_connections, (audio, call, channel), made),
    ensures
        made is Some <==> audio@.conf_ports.contains_key(call.raw),
        made matches Some(c) ==> c.channel_id == channel && c.conf_port.raw
            == audio@.conf_ports[call.raw] && names_others(
            audio@,
            c.others@,
            call.raw,
            channel.raw,
        ),
{
    if let Some(c) = made {
        lemma_names_others(
            audio@,
            c.others@,
            audio@.calls_in(channel.raw).remove(call.raw),
            call.raw,
            channel.raw,
        );
    }
}

/// The same holds of a call whose media became active later.
pub proof fn law_late_call_is_connected_with_everybody(
    audio: &mut ChannelAudio,
    call: CallId,
    port: ConfPort,
    made: Option<CallConnections>,
    other: i32,
    place: u64,
)
    requires
        call_ensures(
            ChannelAudio::complete_pending_channel_registration,
            (audio, call, port),
            made,
        ),
    ensures
        made is Some <==> old(audio)@.call_channels.contains_key(call.raw) && !is_in(
            old(audio)@,
            call.raw,
            old(audio)@.call_channels[call.raw],
        ),
        made matches Some(c) ==> {
            let channel = old(audio)@.call_channels[call.raw];
            &&& c.channel_id.raw == channel
            &&& c.conf_port == port
            &&& names_others(old(audio)@, c.others@, call.raw, channel)
            &&& is_in(final(audio)@, call.raw, channel)
        },
        other != call.raw ==> (is_in(final(audio)@, other, place) <==> is_in(
            old(audio)@,
            other,
            place,
        )),
        final(audio)@.call_channels == old(audio)@.call_channels,
        final(audio)@.conf_ports == old(audio)@.conf_ports,
        final(audio)@.pending == old(audio)@.pending,
        same_sound(old(audio)@, final(audio)@),
{
    if let Some(c) = made {
        let channel = old(audio)@.call_channels[call.raw];
        lemma_names_others(
            old(audio)@,
            c.others@,
            old(audio)@.calls_in(channel),
            call.raw,
            channel,
        );
    }
}

/// Whether operations connect, or disconnect, a slot with another in both
/// directions.
pub open spec fn links(ops: Seq<ConfOp>, connect: bool, one: ConfPort, other: ConfPort) -> bool {
    &&& exists|k: int|
        0 <= k < ops.len() && #[trigger] ops[k] == (ConfOp { connect, source: one, sink: other })
    &&& exists|k: int|
        0 <= k < ops.len() && #[trigger] ops[k] == (ConfOp { connect, source: other, sink: one })
}

/// Whether operations link a slot with those of a list and with that of a channel,
/// in both directions, and do nothing else.
pub open spec fn links_all(
    ops: Seq<ConfOp>,
    connect: bool,
    port: ConfPort,
    others: Seq<ConfPort>,
    slot: Option<ConfPort>,
) -> bool {
    &&& forall|i: int| 0 <= i < others.len() ==> links(ops, connect, port, #[trigger] others[i])
    &&& slot matches Some(s) ==> links(ops, connect, port, s)
    &&& ops.len() == 2 * others.len() + (if slot is Some {
        2int
    } else {
        0int
    })
    &&& forall|k: int|
        0 <= k < ops.len() ==> (#[trigger] ops[k]).connect == connect && (ops[k].source == port
            || ops[k].sink == port)
}

proof fn lemma_peer_ops(connect: bool, port: ConfPort, others: Seq<ConfPort>)
    ensures
        links_all(channel_audio::peer_ops(connect, port, others), connect, port, others, None),
    decreases others.len(),
{
    let ops = channel_audio::peer_ops(connect, port, others);
    if others.len() > 0 {
        let rest = others.drop_last();
        let fewer = channel_audio::peer_ops(connect, port, rest);
        lemma_peer_ops(connect, port, rest);
        assert forall|i: int| 0 <= i < others.len() implies links(
            ops,
            connect,
            port,
            #[trigger] others[i],
        ) by {
            if i < rest.len() {
                assert(rest[i] == others[i]);
                assert(links(fewer, connect, port, rest[i]));
                let a = choose|k: int|
                    0 <= k < fewer.len() && #[trigger] fewer[k] == (ConfOp {
                        connect,
                        source: port,
                        sink: rest[i],
                    });
                let b = choose|k: int|
                    0 <= k < fewer.len() && #[trigger] fewer[k] == (ConfOp {
                        connect,
                        source: rest[i],
                        sink: port,
                    });
                assert(ops[a] == fewer[a]);
                assert(ops[b] == fewer[b]);
            } else {
                assert(ops[fewer.len() as int].source == port);
                assert(ops[fewer.len() as int + 1].sink == port);
            }
        }
        assert forall|k: int| 0 <= k < ops.len() implies (#[trigger] ops[k]).connect == connect && (
        ops[k].source == port || ops[k].sink == port) by {
            if k < fewer.len() {
                assert(ops[k] == fewer[k]);
            }
        }
    }
}

proof fn lemma_link_ops(
    connect: bool,
    port: ConfPort,
    others: Seq<ConfPort>,
    slot: Option<ConfPort>,
)
    ensures
        links_all(
            channel_audio::link_ops(connect, port, others, slot),
            connect,
            port,
            others,
            slot,
        ),
{
    let ops = channel_audio::link_ops(connect, port, others, slot);
    let peers = channel_audio::peer_ops(connect, port, others);
    lemma_peer_ops(connect, port, others);
    assert forall|i: int| 0 <= i < others.len() implies links(
        ops,
        connect,
        port,
        #[trigger] others[i],
    ) by {
        assert(links(peers, connect, port, others[i]));
        let a = choose|k: int|
            0 <= k < peers.len() && #[trigger] peers[k] == (ConfOp {
                connect,
                source: port,
                sink: others[i],
            });
        let b = choose|k: int|
            0 <= k < peers.len() && #[trigger] peers[k] == (ConfOp {
                connect,
                source: others[i],
                sink: port,
            });
        assert(ops[a] == peers[a]);
        assert(ops[b] == peers[b]);
    }
    if let Some(s) = slot {
        assert(ops[peers.len() as int] == (ConfOp { connect, source: s, sink: port }));
        assert(ops[peers.len() as int + 1] == (ConfOp { connect, source: port, sink: s }));
    }
    assert forall|k: int| 0 <= k < ops.len() implies (#[trigger] ops[k]).connect == connect && (
    ops[k].source == port || ops[k].sink == port) by {
        if k < peers.len() {
            assert(ops[k] == peers[k]);
        }
    }
}

/// Everybody hears everybody: a call is connected with each of the other calls and
/// with the channel, in both directions; disconnecting names the same pairs.
pub proof fn law_everybody_hears_everybody(
    port: ConfPort,
    others: &Vec<(CallId, ConfPort)>,
    slot: Option<ConfPort>,
    connected: Vec<ConfOp>,
    disconnected: Vec<ConfOp>,
)
    requires
        call_ensures(connect_call_to_channel, (port, others, slot), connected),
        call_ensures(disconnect_call_from_channel, (port, others, slot), disconnected),
    ensures
        ({
            let slots = others@.map_values(|c: (CallId, ConfPort)| c.1);
            &&& links_all(connected@, true, port, slots, slot)
            &&& links_all(disconnected@, false, port, slots, slot)
        }),
{
    let slots = others@.map_values(|c: (CallId, ConfPort)| c.1);
    assert(slots =~= channel_audio::ports_of(others@));
    lemma_link_ops(true, port, slots, slot);
    lemma_link_ops(false, port, slots, slot);
}

/// Whether operations take a call out of a channel: they disconnect it from those
/// who stay, as far as their media are active, and from the channel.
pub open spec fn takes_out(
    audio: channel_audio::ChannelAudioView,
    ops: Seq<ConfOp>,
    call: i32,
    channel: u64,
) -> bool {
    exists|list: Seq<(CallId, ConfPort)>|
        #[trigger] names_others(audio, list, call, channel) && links_all(
            ops,
            false,
            ConfPort { raw: audio.conf_ports[call] },
            list.map_values(|c: (CallId, ConfPort)| c.1),
            (if audio.channel_ports.contains_key(channel) {
                Some(audio.channel_ports[channel].slot)
            } else {
                None
            }),
        )
}

proof fn lemma_takes_out(
    audio: channel_audio::ChannelAudioView,
    ops: Seq<ConfOp>,
    call: i32,
    channel: u64,
)
    requires
        audio.is_departure(ops, audio.conf_ports[call], call, channel),
    ensures
        takes_out(audio, ops, call, channel),
{
    let port = ConfPort { raw: audio.conf_ports[call] };
    let list = choose|list: Seq<(CallId, ConfPort)>|
        {
            &&& #[trigger] audio.lists(list, audio.left_behind(call, channel))
            &&& ops == channel_audio::link_ops(
                false,
                port,
                channel_audio::ports_of(list),
                audio.slot_of(channel),
            )
        };
    lemma_names_others(audio, list, audio.left_behind(call, channel), call, channel);
    lemma_link_ops(false, port, channel_audio::ports_of(list), audio.slot_of(channel));
    assert(channel_audio::ports_of(list) =~= list.map_values(|c: (CallId, ConfPort)| c.1));
}

/// A call on hold leaves its channel but keeps its place: it is disconnected from
/// everybody, and its channel and its slot stay known. Sound that would wait for
/// nobody is dropped. Other calls and other channels do not notice.
pub proof fn law_hold_disconnects_and_remembers(
    audio: &mut ChannelAudio,
    call: CallId,
    ops: Vec<ConfOp>,
    other: i32,
    place: u64,
)
    requires
        call_ensures(ChannelAudio::disconnect_call_for_hold, (audio, call), ops),
    ensures
        ({
            let known = old(audio)@.call_channels.contains_key(call.raw);
            let channel = old(audio)@.call_channels[call.raw];
            &&& final(audio)@.call_channels == old(audio)@.call_channels
            &&& final(audio)@.conf_ports == old(audio)@.conf_ports
            &&& final(audio)@.pending == old(audio)@.pending
            &&& final(audio)@.rings == old(audio)@.rings
            &&& final(audio)@.channel_ports == old(audio)@.channel_ports
            &&& known ==> !is_in(final(audio)@, call.raw, channel)
            &&& known && old(audio)@.conf_ports.contains_key(call.raw) ==> takes_out(
                old(audio)@,
                ops@,
                call.raw,
                channel,
            )
            &&& !(known && old(audio)@.conf_ports.contains_key(call.raw)) ==> ops@.len() == 0
            &&& other != call.raw ==> (is_in(final(audio)@, other, place) <==> is_in(
                old(audio)@,
                other,
                place,
            ))
            &&& known && place != channel ==> (final(audio)@.audio_in.contains_key(place) <==> old(audio)@.audio_in.contains_key(place)) && final(audio)@.audio_in[place]
                == old(audio)@.audio_in[place] && (final(audio)@.drained.contains_key(place)
                <==> old(audio)@.drained.contains_key(place))
            &&& other != call.raw && is_in(old(audio)@, other, channel) ==> final(audio)@.audio_in
                == old(audio)@.audio_in && final(audio)@.drained == old(audio)@.drained
            &&& known && (forall|c: i32| is_in(old(audio)@, c, channel) ==> c == call.raw) ==> !(
            final(audio)@.audio_in.contains_key(channel)) && !final(audio)@.drained.contains_key(channel)
            &&& !known ==> final(audio)@ == old(audio)@
        }),
{
    let channel = old(audio)@.call_channels[call.raw];
    if old(audio)@.call_channels.contains_key(call.raw) {
        let left = old(audio)@.left_behind(call.raw, channel);
        if other != call.raw && is_in(old(audio)@, other, channel) {
            assert(left.contains(other));
        }
        if forall|c: i32| is_in(old(audio)@, c, channel) ==> c == call.raw {
            assert forall|c: i32| !#[trigger] left.contains(c) by {
                if left.contains(c) {
                    assert(is_in(old(audio)@, c, channel));
                }
            }
            assert(left =~= Set::<i32>::empty());
        }
        if other != call.raw && place == channel && is_in(old(audio)@, other, place) {
            assert(left.contains(other));
        }
        if old(audio)@.conf_ports.contains_key(call.raw) {
            lemma_takes_out(old(audio)@, ops@, call.raw, channel);
        }
    }
}

/// A call that is unregistered is gone: it has neither channel nor slot and is
/// disconnected from everybody. The sound queue of its channel goes with the last
/// call. Other calls and other channels do not notice.
pub proof fn law_unregistering_disconnects_and_forgets(
    audio: &mut ChannelAudio,
    call: CallId,
    ops: Vec<ConfOp>,
    other: i32,
    place: u64,
)
    requires
        call_ensures(ChannelAudio::unregister_call_channel, (audio, call), ops),
    ensures
        ({
            let known = old(audio)@.call_channels.contains_key(call.raw);
            let channel = old(audio)@.call_channels[call.raw];
            &&& !final(audio)@.call_channels.contains_key(call.raw)
            &&& !final(audio)@.conf_ports.contains_key(call.raw)
            &&& known ==> !is_in(final(audio)@, call.raw, channel)
            &&& known && old(audio)@.conf_ports.contains_key(call.raw) ==> takes_out(
                old(audio)@,
                ops@,
                call.raw,
                channel,
            )
            &&& !(known && old(audio)@.conf_ports.contains_key(call.raw)) ==> ops@.len() == 0
            &&& other != call.raw ==> (is_in(final(audio)@, other, place) <==> is_in(
                old(audio)@,
                other,
                place,
            )) && (final(audio)@.call_channels.contains_key(other) <==> old(audio)@.call_channels.contains_key(other)) && final(audio)@.call_channels[other]
                == old(audio)@.call_channels[other] && (final(audio)@.conf_ports.contains_key(other)
                <==> old(audio)@.conf_ports.contains_key(other)) && final(audio)@.conf_ports[other]
                == old(audio)@.conf_ports[other]
            &&& known && place != channel ==> (final(audio)@.audio_in.contains_key(place) <==> old(audio)@.audio_in.contains_key(place)) && final(audio)@.audio_in[place]
                == old(audio)@.audio_in[place]
            &&& known && is_in(old(audio)@, call.raw, channel) && (forall|c: i32|
                is_in(old(audio)@, c, channel) ==> c == call.raw)
                ==> !final(audio)@.audio_in.contains_key(channel)
            &&& other != call.raw && is_in(old(audio)@, other, channel) ==> final(audio)@.audio_in
                == old(audio)@.audio_in
            &&& final(audio)@.pending == old(audio)@.pending
            &&& final(audio)@.rings == old(audio)@.rings
            &&& final(audio)@.drained == old(audio)@.drained
            &&& final(audio)@.channel_ports == old(audio)@.channel_ports
            &&& final(audio)@.port_channels == old(audio)@.port_channels
        }),
{
    let channel = old(audio)@.call_channels[call.raw];
    if old(audio)@.call_channels.contains_key(call.raw) {
        let left = old(audio)@.left_behind(call.raw, channel);
        if other != call.raw && is_in(old(audio)@, other, channel) {
            assert(left.contains(other));
        }
        if forall|c: i32| is_in(old(audio)@, c, channel) ==> c == call.raw {
            assert forall|c: i32| !#[trigger] left.contains(c) by {
                if left.contains(c) {
                    assert(is_in(old(audio)@, c, channel));
                }
            }
            assert(left =~= Set::<i32>::empty());
        }
        if old(audio)@.conf_ports.contains_key(call.raw) {
            lemma_takes_out(old(audio)@, ops@, call.raw, channel);
        }
    }
}

/// Sound of Discord reaches the callers of its channel in order: what was written
/// comes out frame by frame, at most a frame at once, and a frame that is not full
/// ends in silence. Nothing is heard twice.
pub proof fn law_callers_hear_discord_in_order(
    audio: &mut ChannelAudio,
    channel: Snowflake,
    buf: &mut Vec<i16>,
    n: usize,
    place: u64,
)
    requires
        call_ensures(ChannelAudio::get_samples_from_buffer, (audio, channel, buf), n),
    ensures
        ({
            let there = old(audio)@.rings.contains_key(channel.raw);
            let waiting = old(audio)@.rings[channel.raw].items;
            &&& n <= 320
            &&& !there ==> n == 0 && final(audio)@ == old(audio)@
            &&& there ==> {
                &&& n == 320 || n == waiting.len()
                &&& n <= waiting.len()
                &&& forall|k: int| 0 <= k < n ==> #[trigger] final(buf)@[k] == waiting[k]
                &&& final(audio)@.rings.contains_key(channel.raw)
                &&& final(audio)@.rings[channel.raw].items == waiting.skip(n as int)
                &&& final(audio)@.rings[channel.raw].capacity
                    == old(audio)@.rings[channel.raw].capacity
            }
            &&& final(buf)@.len() == 320
            &&& forall|k: int| n <= k < 320 ==> #[trigger] final(buf)@[k] == 0
            &&& place != channel.raw ==> (final(audio)@.rings.contains_key(place) <==> old(audio)@.rings.contains_key(place)) && final(audio)@.rings[place]
                == old(audio)@.rings[place]
            &&& final(audio)@.audio_in == old(audio)@.audio_in
            &&& final(audio)@.channel_calls == old(audio)@.channel_calls
        }),
{
}

/// Sound of Discord is taken in whole or not at all: where it fits behind what is
/// waiting it is put there, else it is refused and nothing changes.
pub proof fn law_discord_is_taken_in_whole(
    audio: &mut ChannelAudio,
    channel: Snowflake,
    samples: &Vec<i16>,
    written: bool,
    place: u64,
)
    requires
        call_ensures(ChannelAudio::write_discord_to_sip, (audio, channel, samples), written),
    ensures
        ({
            let ring = old(audio)@.rings[channel.raw];
            &&& written <==> old(audio)@.rings.contains_key(channel.raw) && ring.items.len()
                + samples@.len() <= ring.capacity
            &&& written ==> final(audio)@.rings[channel.raw].items == ring.items + samples@
                && final(audio)@.rings[channel.raw].capacity == ring.capacity
            &&& !written ==> final(audio)@.rings =~= old(audio)@.rings
            &&& place != channel.raw ==> (final(audio)@.rings.contains_key(place) <==> old(audio)@.rings.contains_key(place)) && final(audio)@.rings[place]
                == old(audio)@.rings[place]
            &&& final(audio)@.audio_in == old(audio)@.audio_in
            &&& final(audio)@.drained == old(audio)@.drained
        }),
{
}

/// Sound of the callers reaches Discord in order: what a call puts in stands behind
/// what is waiting, and comes out from the front, at most a frame at once. When the
/// queue is over its limit, the oldest samples go, no more than needed.
pub proof fn law_discord_hears_callers_in_order(
    audio: &mut ChannelAudio,
    channel: Snowflake,
    samples: &Vec<i16>,
    limit: usize,
    later: &mut ChannelAudio,
    buf: &mut Vec<i16>,
    n: usize,
    place: u64,
)
    requires
        channel.raw != 0,
        samples@.len() > 0,
        call_ensures(ChannelAudio::channel_port_put_frame, (audio, channel, samples, limit), ()),
        old(later)@ == final(audio)@,
        old(buf)@.len() >= 320,
        call_ensures(ChannelAudio::drain_sip_to_discord_audio, (later, channel, buf), n),
    ensures
        ({
            let waiting = if old(audio)@.audio_in.contains_key(channel.raw) {
                old(audio)@.audio_in[channel.raw]
            } else {
                Seq::empty()
            };
            let queue = final(audio)@.audio_in[channel.raw];
            &&& final(audio)@.audio_in.contains_key(channel.raw)
            &&& waiting.len() + samples@.len() <= limit ==> queue == waiting + samples@
            &&& waiting.len() + samples@.len() > limit && samples@.len() <= limit ==> queue.len()
                == limit
            &&& samples@.len() > limit ==> queue == samples@
            &&& queue.len() >= samples@.len()
            &&& queue.skip(queue.len() - samples@.len()) == samples@
            &&& forall|k: int|
                0 <= k < queue.len() - samples@.len() ==> #[trigger] queue[k] == waiting[waiting.len()
                    - (queue.len() - samples@.len()) + k]
            &&& n <= 320
            &&& n == 320 || n == queue.len()
            &&& n <= queue.len()
            &&& forall|k: int| 0 <= k < n ==> #[trigger] final(buf)@[k] == queue[k]
            &&& final(later)@.audio_in[channel.raw] == queue.skip(n as int)
            &&& place != channel.raw ==> final(later)@.audio_in[place]
                == old(audio)@.audio_in[place] && (final(later)@.audio_in.contains_key(place)
                <==> old(audio)@.audio_in.contains_key(place))
            &&& final(later)@.rings == old(audio)@.rings
            &&& final(later)@.drained == old(audio)@.drained
        }),
{
    let queue = final(audio)@.audio_in[channel.raw];
    let waiting = old(audio)@.queued(channel.raw);
    assert(queue.skip(queue.len() - samples@.len()) =~= samples@);
    if samples@.len() > limit {
        assert(queue =~= samples@);
    }
    if waiting.len() + samples@.len() <= limit {
        assert(queue =~= waiting + samples@);
    }
    assert forall|k: int| 0 <= k < n implies #[trigger] final(buf)@[k] == queue[k] by {
        assert(final(buf)@.take(n as int)[k] == queue.take(n as int)[k]);
    }
}

/// All callers of a channel hear the same: within 15 ms of a frame the next caller
/// is given that frame again, and nothing is taken from the buffer; later ones get
/// fresh sound. The channel 0 stands for none and gives nothing.
pub proof fn law_all_callers_hear_the_same(
    audio: &mut ChannelAudio,
    channel: Snowflake,
    now: Instant,
    first: Option<Vec<i16>>,
    later: &mut ChannelAudio,
    soon: Instant,
    second: Option<Vec<i16>>,
)
    requires
        channel.raw != 0,
        old(audio)@.wf(),
        !old(audio)@.drained.contains_key(channel.raw),
        call_ensures(ChannelAudio::channel_port_get_frame, (audio, channel, now), first),
        old(later)@ == final(audio)@,
        call_ensures(ChannelAudio::channel_port_get_frame, (later, channel, soon), second),
        now.nanos <= soon.nanos < now.nanos + 15_000_000,
    ensures
        first matches Some(frame) && frame@.len() == 320 && (second matches Some(same)
            && same@ == frame@),
        final(later)@ == final(audio)@,
        old(audio)@.rings.contains_key(channel.raw) ==> (first matches Some(frame) && forall|k: int|
            0 <= k < 320 ==> #[trigger] frame@[k] == (if k < old(audio)@.rings[channel.raw].items.len() {
                old(audio)@.rings[channel.raw].items[k]
            } else {
                0i16
            })),
        !old(audio)@.rings.contains_key(channel.raw) ==> (first matches Some(frame) && forall|
            k: int,
        |
            0 <= k < 320 ==> #[trigger] frame@[k] == 0),
        old(audio)@.rings.contains_key(channel.raw) ==> final(audio)@.rings[channel.raw].items.len() == (if old(audio)@.rings[channel.raw].items.len() <= 320 {
            0int
        } else {
            old(audio)@.rings[channel.raw].items.len() - 320
        }),
{
}

/// A frame that is 15 ms old is not given again: the caller gets what waits in the
/// buffer now, and it is taken out. The channel 0 gives nothing and changes nothing.
pub proof fn law_old_frame_is_not_repeated(
    audio: &mut ChannelAudio,
    channel: Snowflake,
    now: Instant,
    frame: Option<Vec<i16>>,
    place: u64,
)
    requires
        old(audio)@.drained.contains_key(channel.raw),
        old(audio)@.drained[channel.raw].at.nanos + 15_000_000 <= now.nanos,
        call_ensures(ChannelAudio::channel_port_get_frame, (audio, channel, now), frame),
    ensures
        frame is None <==> channel.raw == 0,
        channel.raw == 0 ==> final(audio)@ == old(audio)@,
        channel.raw != 0 ==> (frame matches Some(f) && f@.len() == 320 && forall|k: int|
            0 <= k < 320 ==> #[trigger] f@[k] == (if old(audio)@.rings.contains_key(channel.raw)
                && k < old(audio)@.rings[channel.raw].items.len() {
                old(audio)@.rings[channel.raw].items[k]
            } else {
                0i16
            })),
        channel.raw != 0 && old(audio)@.rings.contains_key(channel.raw) ==> {
            let waiting = old(audio)@.rings[channel.raw].items;
            let left = final(audio)@.rings[channel.raw].items;
            &&& waiting.len() <= 320 ==> left.len() == 0
            &&& waiting.len() > 320 ==> left == waiting.skip(320)
        },
        channel.raw != 0 ==> final(audio)@.drained[channel.raw].at == now,
        place != channel.raw ==> final(audio)@.rings[place] == old(audio)@.rings[place]
            && final(audio)@.drained[place] == old(audio)@.drained[place],
        final(audio)@.audio_in == old(audio)@.audio_in,
        final(audio)@.channel_calls == old(audio)@.channel_calls,
{
}

/// A call that comes back from hold is connected again, in the channel that it left.
pub proof fn law_held_call_comes_back(
    audio: &mut ChannelAudio,
    call: CallId,
    ops: Vec<ConfOp>,
    later: &mut ChannelAudio,
    port: ConfPort,
    made: Option<CallConnections>,
)
    requires
        old(audio)@.call_channels.contains_key(call.raw),
        call_ensures(ChannelAudio::disconnect_call_for_hold, (audio, call), ops),
        old(later)@ == final(audio)@,
        call_ensures(
            ChannelAudio::complete_pending_channel_registration,
            (later, call, port),
            made,
        ),
    ensures
        made matches Some(c) && c.conf_port == port && c.channel_id.raw
            == old(audio)@.call_channels[call.raw] && names_others(
            final(audio)@,
            c.others@,
            call.raw,
            c.channel_id.raw,
        ),
        is_in(final(later)@, call.raw, old(audio)@.call_channels[call.raw]),
{
    law_late_call_is_connected_with_everybody(later, call, port, made, 0, 0);
}

/// A port is found by its channel and its channel by the port, until the port goes.
pub proof fn law_port_belongs_to_its_channel(
    audio: &mut ChannelAudio,
    channel: Snowflake,
    port: ChannelPort,
    seen: &ChannelAudio,
    slot: Option<ConfPort>,
    later: &mut ChannelAudio,
    removed: Option<ChannelPort>,
    place: u64,
)
    requires
        call_ensures(ChannelAudio::channel_port_created, (audio, channel, port), ()),
        seen@ == final(audio)@,
        call_ensures(ChannelAudio::get_channel_slot, (seen, channel), slot),
        old(later)@ == final(audio)@,
        call_ensures(ChannelAudio::cleanup_channel_port, (later, channel), removed),
    ensures
        slot == Some(port.slot),
        final(audio)@.channel_ports[channel.raw] == port,
        final(audio)@.port_channels[port.port] == channel.raw,
        removed == Some(port),
        !final(later)@.channel_ports.contains_key(channel.raw),
        !final(later)@.port_channels.contains_key(port.port),
        place != channel.raw ==> (final(later)@.channel_ports.contains_key(place) <==> old(audio)@.channel_ports.contains_key(place)) && final(later)@.channel_ports[place]
            == old(audio)@.channel_ports[place],
        final(later)@.rings == old(audio)@.rings,
        final(later)@.channel_calls == old(audio)@.channel_calls,
        final(later)@.audio_in == old(audio)@.audio_in,
{
}

/// The buffer of a channel starts empty with room for 3200 samples, and goes with
/// everything that is left in it and of the calls' sound.
pub proof fn law_buffers_start_and_end_empty(
    audio: &mut ChannelAudio,
    channel: Snowflake,
    later: &mut ChannelAudio,
    place: u64,
)
    requires
        call_ensures(rings::setup_channel_ring_buffers, (audio, channel), ()),
        old(later)@ == final(audio)@,
        call_ensures(rings::teardown_channel_ring_buffers, (later, channel), ()),
    ensures
        final(audio)@.rings.contains_key(channel.raw),
        final(audio)@.rings[channel.raw].items.len() == 0,
        final(audio)@.rings[channel.raw].capacity == 3200,
        final(audio)@.audio_in == old(audio)@.audio_in,
        !final(later)@.rings.contains_key(channel.raw),
        !final(later)@.audio_in.contains_key(channel.raw),
        !final(later)@.drained.contains_key(channel.raw),
        place != channel.raw ==> (final(later)@.rings.contains_key(place) <==> old(audio)@.rings.contains_key(place)) && final(later)@.rings[place] == old(audio)@.rings[place]
            && (final(later)@.audio_in.contains_key(place) <==> old(audio)@.audio_in.contains_key(
            place,
        )) && final(later)@.audio_in[place] == old(audio)@.audio_in[place],
        final(later)@.channel_calls == old(audio)@.channel_calls,
        final(later)@.call_channels == old(audio)@.call_channels,
        final(later)@.conf_ports == old(audio)@.conf_ports,
        final(later)@.pending == old(audio)@.pending,
{
}

/// The active channels are those that have calls, each once.
pub proof fn law_active_channels_have_calls(
    audio: &ChannelAudio,
    out: &mut Vec<Snowflake>,
    channel: Snowflake,
)
    requires
        call_ensures(ChannelAudio::get_active_channels_into, (audio, out), ()),
    ensures
        final(out)@.contains(channel) <==> audio@.channel_calls.contains_key(channel.raw),
        forall|i: int, j: int|
            0 <= i < j < final(out)@.len() ==> (#[trigger] final(out)@[i]) != (#[trigger] final(out)@[j]),
{
    let raw = final(out)@.map_values(|c: Snowflake| c.raw);
    assert(table::enumerates(raw, audio@.channel_calls.dom()));
    assert(raw.contains(channel.raw) <==> audio@.channel_calls.dom().contains(channel.raw));
    if final(out)@.contains(channel) {
        let k = choose|k: int| 0 <= k < final(out)@.len() && final(out)@[k] == channel;
        assert(raw[k] == channel.raw);
    }
    if raw.contains(channel.raw) {
        let k = choose|k: int| 0 <= k < raw.len() && raw[k] == channel.raw;
        assert(final(out)@[k] == channel);
    }
    assert forall|i: int, j: int| 0 <= i < j < final(out)@.len() implies (#[trigger] final(out)@[i]) != (#[trigger] final(out)@[j]) by {
        assert(raw[i] != raw[j]);
    }
}

/// The slot of a call is the one that was set for it, and no other call's changes.
pub proof fn law_slot_of_a_call_is_the_one_set(
    audio: &mut ChannelAudio,
    call: CallId,
    port: ConfPort,
    seen: &ChannelAudio,
    found: Option<ConfPort>,
    other: i32,
)
    requires
        call_ensures(ChannelAudio::set_call_conf_port, (audio, call, port), ()),
        seen@ == final(audio)@,
        call_ensures(ChannelAudio::call_conf_port, (seen, call), found),
    ensures
        found == Some(port),
        other != call.raw ==> (final(audio)@.conf_ports.contains_key(other) <==> old(
            audio,
        )@.conf_ports.contains_key(other)) && final(audio)@.conf_ports[other]
            == old(audio)@.conf_ports[other],
        final(audio)@.call_channels == old(audio)@.call_channels,
        final(audio)@.channel_calls == old(audio)@.channel_calls,
        final(audio)@.pending == old(audio)@.pending,
        same_sound(old(audio)@, final(audio)@),
{
}

/// A port that was destroyed belongs to no channel; other ports stay.
pub proof fn law_destroyed_port_has_no_channel(audio: &mut ChannelAudio, port: u64, other: u64)
    requires
        call_ensures(ChannelAudio::channel_port_on_destroy, (audio, port), ()),
    ensures
        !final(audio)@.port_channels.contains_key(port),
        other != port ==> (final(audio)@.port_channels.contains_key(other) <==> old(
            audio,
        )@.port_channels.contains_key(other)) && final(audio)@.port_channels[other]
            == old(audio)@.port_channels[other],
        final(audio)@.channel_ports == old(audio)@.channel_ports,
        final(audio)@.rings == old(audio)@.rings,
        final(audio)@.audio_in == old(audio)@.audio_in,
{
}

/// A buffer that is registered for a channel is the one that is used there until it
/// is dropped; old sound is cleared from a channel without touching its buffer or
/// other channels.
pub proof fn law_buffer_and_old_sound_of_a_channel(
    audio: &mut ChannelAudio,
    channel: Snowflake,
    ring: crate::ring::SampleRing,
    then: &mut ChannelAudio,
    cleared: &mut ChannelAudio,
    place: u64,
)
    requires
        call_ensures(ChannelAudio::register_discord_to_sip, (audio, channel, ring), ()),
        call_ensures(ChannelAudio::unregister_discord_to_sip, (then, channel), ()),
        call_ensures(ChannelAudio::clear_channel_stale_audio, (cleared, channel), ()),
    ensures
        final(audio)@.rings.contains_key(channel.raw),
        final(audio)@.rings[channel.raw] == ring@,
        !final(then)@.rings.contains_key(channel.raw),
        place != channel.raw ==> final(audio)@.rings[place] == old(audio)@.rings[place]
            && final(then)@.rings[place] == old(then)@.rings[place] && (final(then)@.rings.contains_key(place) <==> old(then)@.rings.contains_key(place)),
        !final(cleared)@.audio_in.contains_key(channel.raw),
        !final(cleared)@.drained.contains_key(channel.raw),
        final(cleared)@.rings == old(cleared)@.rings,
        final(cleared)@.channel_calls == old(cleared)@.channel_calls,
        place != channel.raw ==> final(cleared)@.audio_in[place] == old(cleared)@.audio_in[place]
            && (final(cleared)@.audio_in.contains_key(place) <==> old(
            cleared,
        )@.audio_in.contains_key(place)),
{
}

} // verus!
