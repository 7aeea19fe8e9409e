//! The logic of a bridge between SIP phones and Discord voice channels.
//!
//! - `call`: calls, the bridges that carry them, and the outbound calls;
//! - `fax`: the reception of faxes;
//! - `services`: the registrar of phones and the cache of credentials;
//! - `transport`: the SIP side, with its audio and its NAT fixups;
//! - `routing`: what the bridge and its backend tell each other.
//!
//! What holds of the operations together stands in the modules whose names end in
//! `laws`.
//!
//! The functions change plain state and return what is to be done. Sockets,
//! threads, the SIP stack and Discord lie outside. Where the logic rests on
//! another crate, the call stands behind a small function whose contract is
//! believed, not proved: the tables of `dashmap` in `table`, the ring buffers
//! of `rtrb` in `ring`, the caches of `moka` and the digest of `md5` in
//! `services::auth_cache`, and the random numbers of `rand` in
//! `transport::sip::register_handler`.

pub mod call;
pub mod fax;
pub mod ids;
pub mod net;
pub mod ring;
pub mod routing;
pub mod services;
pub mod table;
pub mod text;
pub mod text_laws;
pub mod time;
pub mod transport;
