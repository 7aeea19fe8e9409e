//! Looping player for early media.
//!
//! Plays samples to a call over and over until it is stopped, while the call
//! is being set up.

use crate::ids::{CallId, ConfPort};
use crate::transport::sip::ffi::frame_utils;
use crate::transport::sip::ffi::frame_utils::{
    fill_audio_frame, fill_silence_frame, samples_between, SAMPLES_PER_FRAME,
};
use std::collections::HashMap;
use vstd::prelude::*;

verus! {

broadcast use vstd::std_specs::hash::group_hash_axioms;

/// What a looping player plays.
#[derive(Debug)]
pub struct LoopingPlayerData {
    pub samples: Vec<i16>,
    pub position: usize,
    pub is_active: bool,
}

/// The same in the model.
pub ghost struct LoopView {
    pub samples: Seq<i16>,
    pub position: int,
    pub is_active: bool,
}

impl View for LoopingPlayerData {
    type V = LoopView;

    open spec fn view(&self) -> LoopView {
        LoopView {
            samples: self.samples@,
            position: self.position as int,
            is_active: self.is_active,
        }
    }
}

/// Where a looping player is attached.
#[derive(Debug, Clone, Copy, PartialEq, Eq, Structural)]
pub struct LoopingPlayerState {
    pub conf_slot: ConfPort,
    /// The port that asks for the frames.
    pub port_key: u64,
}

impl LoopView {
    /// A position that lies in the samples.
    pub open spec fn wf(self) -> bool {
        0 <= self.position && (self.samples.len() > 0 ==> self.position < self.samples.len())
    }

    /// Where the next frame ends.
    pub open spec fn frame_end(self) -> int {
        if self.position + SAMPLES_PER_FRAME <= self.samples.len() {
            self.position + SAMPLES_PER_FRAME
        } else {
            self.samples.len() as int
        }
    }

    /// Whether the player gives sound.
    pub open spec fn sounds(self) -> bool {
        self.is_active && self.samples.len() > 0
    }

    /// The next frame.
    pub open spec fn frame(self) -> Seq<i16> {
        if self.sounds() {
            frame_utils::padded(self.samples.subrange(self.position, self.frame_end()))
        } else {
            frame_utils::silence(SAMPLES_PER_FRAME as int)
        }
    }

    /// The player after that frame. At its end it begins anew.
    pub open spec fn advanced(self) -> LoopView {
        if self.sounds() {
            LoopView {
                position: if self.frame_end() >= self.samples.len() {
                    0
                } else {
                    self.frame_end()
                },
                ..self
            }
        } else {
            self
        }
    }
}

impl LoopingPlayerData {
    /// The next frame of the loop; silence where the player is stopped or has
    /// nothing to play.
    pub fn next_frame(&mut self) -> (frame: Vec<i16>)
        requires
            old(self)@.wf(),
        ensures
            frame@ == old(self)@.frame(),
            final(self)@ == old(self)@.advanced(),
            final(self)@.wf(),
    {
        if self.is_active && self.samples.len() > 0 {
            let pos: usize = self.position;
            let left: usize = self.samples.len() - pos;
            let end: usize = if left >= SAMPLES_PER_FRAME {
                pos + SAMPLES_PER_FRAME
            } else {
                self.samples.len()
            };
            let part = samples_between(&self.samples, pos, end);
            self.position = if end >= self.samples.len() {
                0
            } else {
                end
            };
            fill_audio_frame(&part)
        } else {
            fill_silence_frame()
        }
    }
}

/// All looping players.
pub struct LoopingPlayers {
    /// The player of each call.
    players: HashMap<i32, LoopingPlayerState>,
    /// What the player of each port plays.
    data: HashMap<u64, LoopingPlayerData>,
}

/// The looping players in the model.
pub ghost struct LoopsView {
    pub players: Map<i32, LoopingPlayerState>,
    pub data: Map<u64, LoopView>,
}

impl View for LoopingPlayers {
    type V = LoopsView;

    closed spec fn view(&self) -> LoopsView {
        LoopsView {
            players: self.players@,
            data: self.data@.map_values(|d: LoopingPlayerData| d@),
        }
    }
}

impl LoopsView {
    /// Every player has a position that lies in its samples.
    pub open spec fn wf(self) -> bool {
        forall|key: u64| #[trigger] self.data.contains_key(key) ==> self.data[key].wf()
    }

    /// With the player of a port stopped.
    pub open spec fn silenced(self, key: u64) -> LoopsView {
        if self.data.contains_key(key) {
            LoopsView {
                data: self.data.insert(key, LoopView { is_active: false, ..self.data[key] }),
                ..self
            }
        } else {
            self
        }
    }
}

/// What starting a loop needs.
#[derive(Debug, Clone, Copy, PartialEq, Eq, Structural)]
pub enum LoopStart {
    /// The call has a player already; nothing is to be done.
    AlreadyPlaying,
    /// The media of the call are not ready.
    NoConfPort,
    /// A port is to be created and connected to this one.
    CreatePort { call_conf_port: ConfPort },
}

impl LoopingPlayers {
    pub fn new() -> (players: LoopingPlayers)
        ensures
            players@.wf(),
            players@.players == (Map::<i32, LoopingPlayerState>::empty()),
            players@.data == (Map::<u64, LoopView>::empty()),
    {
        let players = LoopingPlayers { players: HashMap::new(), data: HashMap::new() };
        assert(players@.data =~= Map::<u64, LoopView>::empty());
        players
    }

    /// What starting a loop for a call needs: nothing where it has a player,
    /// else a port, if the media of the call are ready.
    pub fn start_loop(&self, call_id: CallId, conf_port: Option<ConfPort>) -> (start: LoopStart)
        ensures
            start == (if self@.players.contains_key(call_id.raw) {
                LoopStart::AlreadyPlaying
            } else {
                match conf_port {
                    Some(call_conf_port) => LoopStart::CreatePort { call_conf_port },
                    None => LoopStart::NoConfPort,
                }
            }),
    {
        if self.players.contains_key(&call_id.raw) {
            return LoopStart::AlreadyPlaying;
        }
        match conf_port {
            Some(call_conf_port) => LoopStart::CreatePort { call_conf_port },
            None => LoopStart::NoConfPort,
        }
    }

    /// Lets the port that was created play the samples from their start.
    pub fn loop_started(&mut self, call_id: CallId, state: LoopingPlayerState, samples: Vec<i16>)
        requires
            old(self)@.wf(),
        ensures
            final(self)@.wf(),
            final(self)@.players == old(self)@.players.insert(call_id.raw, state),
            final(self)@.data == old(self)@.data.insert(
                state.port_key,
                (LoopView { samples: samples@, position: 0, is_active: true }),
            ),
    {
        let ghost before = self@;
        let player = LoopingPlayerData { samples, position: 0, is_active: true };
        let ghost seen = player@;
        let _ = self.data.insert(state.port_key, player);
        let _ = self.players.insert(call_id.raw, state);
        assert(self@.data =~= before.data.insert(state.port_key, seen));
    }

    /// The next frame for a port; silence where it has no player.
    pub fn looping_player_get_frame(&mut self, port_key: u64) -> (frame: Vec<i16>)
        requires
            old(self)@.wf(),
        ensures
            final(self)@.wf(),
            final(self)@.players == old(self)@.players,
            old(self)@.data.contains_key(port_key) ==> frame@ == old(self)@.data[port_key].frame()
                && final(self)@.data == old(self)@.data.insert(
                port_key,
                old(self)@.data[port_key].advanced(),
            ),
            !old(self)@.data.contains_key(port_key) ==> frame@ == frame_utils::silence(
                SAMPLES_PER_FRAME as int,
            ) && final(self)@.data == old(self)@.data,
    {
        let ghost before = self@;
        match self.data.remove(&port_key) {
            Some(mut player) => {
                assert(before.data.contains_key(port_key));
                assert(before.data[port_key] == player@);
                let frame = player.next_frame();
                let ghost seen = player@;
                let _ = self.data.insert(port_key, player);
                assert(self@.data =~= before.data.insert(port_key, seen));
                frame
            },
            None => {
                assert(self@.data =~= before.data);
                fill_silence_frame()
            },
        }
    }

    /// Forgets the player of a port that is destroyed.
    pub fn looping_player_on_destroy(&mut self, port_key: u64)
        requires
            old(self)@.wf(),
        ensures
            final(self)@.wf(),
            final(self)@.players == old(self)@.players,
            final(self)@.data == old(self)@.data.remove(port_key),
    {
        let ghost before = self@;
        let _ = self.data.remove(&port_key);
        assert(self@.data =~= before.data.remove(port_key));
    }

    /// Stops the player of a call: from now on it gives silence. Returns the
    /// slot to take out of the conference.
    pub fn stop_loop(&mut self, call_id: CallId) -> (slot: Option<ConfPort>)
        requires
            old(self)@.wf(),
        ensures
            final(self)@.wf(),
            slot == (if old(self)@.players.contains_key(call_id.raw) {
                Some(old(self)@.players[call_id.raw].conf_slot)
            } else {
                None
            }),
            final(self)@.players == old(self)@.players.remove(call_id.raw),
            final(self)@.data == (if old(self)@.players.contains_key(call_id.raw) {
                old(self)@.silenced(old(self)@.players[call_id.raw].port_key).data
            } else {
                old(self)@.data
            }),
    {
        let ghost before = self@;
        match self.players.remove(&call_id.raw) {
            Some(state) => {
                match self.data.remove(&state.port_key) {
                    Some(mut player) => {
                        assert(before.data.contains_key(state.port_key));
                        assert(before.data[state.port_key] == player@);
                        player.is_active = false;
                        let ghost seen = player@;
                        let _ = self.data.insert(state.port_key, player);
                        assert(self@.data =~= before.data.insert(state.port_key, seen));
                    },
                    None => {
                        assert(self@.data =~= before.data);
                    },
                }
                assert(self@.wf());
                Some(state.conf_slot)
            },
            None => {
                assert(self@.data =~= before.data);
                None
            },
        }
    }
}

// Laws

/// A stopped player is silent, whatever it was playing.
pub proof fn law_stopped_loop_is_silent(player: LoopView)
    ensures
        (LoopView { is_active: false, ..player }).frame() == frame_utils::silence(
            SAMPLES_PER_FRAME as int,
        ),
        (LoopView { is_active: false, ..player }).advanced() == (LoopView {
            is_active: false,
            ..player
        }),
{
}

/// A loop plays every sample in order and then begins anew: a frame is
/// followed by what comes next, and the last frame by the start.
pub proof fn law_loop_plays_every_sample(player: LoopView)
    requires
        player.wf(),
        player.sounds(),
    ensures
        player.advanced().wf(),
        player.advanced().position == player.frame_end() || (player.frame_end()
            == player.samples.len() && player.advanced().position == 0),
        player.frame().len() == SAMPLES_PER_FRAME,
        player.frame().take(player.frame_end() - player.position) == player.samples.subrange(
            player.position,
            player.frame_end(),
        ),
{
    assert(player.frame().take(player.frame_end() - player.position) =~= player.samples.subrange(
        player.position,
        player.frame_end(),
    ));
}

} // verus!
