//! Audio ports and helpers at the boundary of the SIP stack.

pub mod frame_utils;
pub mod looping_player;
pub mod player_laws;
pub mod streaming_player;
pub mod test_tone;
pub mod utils;
