//! Calls and the bridges that carry them.

pub mod action;
pub mod bridges;
pub mod calls;
pub mod coordinator;
pub mod event_laws;
pub mod failures;
pub mod fax_sessions;
pub mod health;
pub mod health_laws;
pub mod incoming;
pub mod incoming_laws;
pub mod outbound;
pub mod outbound_laws;
pub mod report_laws;
pub mod rings;
pub mod session_laws;
pub mod sip_events;
pub mod sounds;
pub mod t38;
