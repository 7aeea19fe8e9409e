//! Incoming faxes.
//!
//! A fax comes in as audio, or as T.38 packets once the remote side switches.
//! Here stand the audio port of a fax call, the course of its reception, and
//! the errors.

pub mod audio_port;
pub mod error;
pub mod fax_laws;
pub mod reception;
