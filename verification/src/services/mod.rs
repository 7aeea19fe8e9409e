//! Services around the call bridge.

pub mod auth_cache;
pub mod auth_laws;
pub mod registrar;
pub mod registrar_laws;
