//! Transports that the bridge joins.

pub mod sip;
