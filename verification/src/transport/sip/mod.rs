//! The SIP side of the bridge.

pub mod audio_laws;
pub mod channel_audio;
pub mod contact;
pub mod contact_laws;
pub mod ffi;
pub mod fork_group;
pub mod fork_laws;
pub mod nat_fixup;
pub mod nat_laws;
pub mod nat_source_laws;
pub mod register_handler;
pub mod register_laws;
pub mod types;
