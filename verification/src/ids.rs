//! Identifiers of calls and of Discord objects.

use crate::text;
use crate::text::{decimal_of, from_chars, signed_decimal_of};
use vstd::prelude::*;

verus! {

/// The number that the SIP stack gives to a call. It is reused once the call
/// has ended.
#[derive(Clone, Copy, Debug, PartialEq, Eq, Structural, Hash)]
pub struct CallId {
    pub raw: i32,
}

impl CallId {
    pub fn new(raw: i32) -> (id: CallId)
        ensures
            id == (CallId { raw }),
    {
        CallId { raw }
    }

    /// The decimal notation of the number.
    pub fn to_text(&self) -> (out: String)
        ensures
            out@ == text::signed_decimal(self.raw as int),
    {
        from_chars(&signed_decimal_of(self.raw))
    }
}

/// A Discord identifier.
#[derive(Clone, Copy, Debug, PartialEq, Eq, Structural, Hash)]
pub struct Snowflake {
    pub raw: u64,
}

impl Snowflake {
    pub fn new(raw: u64) -> (id: Snowflake)
        ensures
            id == (Snowflake { raw }),
    {
        Snowflake { raw }
    }

    /// The decimal notation of the number.
    pub fn to_text(&self) -> (out: String)
        ensures
            out@ == text::decimal(self.raw as nat),
    {
        from_chars(&decimal_of(self.raw))
    }
}

/// A slot of the conference bridge.
#[derive(Clone, Copy, Debug, PartialEq, Eq, Structural, Hash)]
pub struct ConfPort {
    pub raw: i32,
}

impl ConfPort {
    pub fn new(raw: i32) -> (port: ConfPort)
        ensures
            port == (ConfPort { raw }),
    {
        ConfPort { raw }
    }

    /// Whether there is such a slot: an absent one is negative.
    pub fn is_valid(&self) -> (r: bool)
        ensures
            r == (self.raw >= 0),
    {
        self.raw >= 0
    }
}

} // verus!
