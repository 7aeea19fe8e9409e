//! Network addresses as plain values.

use crate::text::{number_of, split_of};
use vstd::prelude::*;

verus! {

/// An IPv4 address by its four octets.
#[derive(Clone, Copy, Debug, PartialEq, Eq, Structural)]
pub struct Ipv4Addr {
    pub a: u8,
    pub b: u8,
    pub c: u8,
    pub d: u8,
}

impl Ipv4Addr {
    pub fn new(a: u8, b: u8, c: u8, d: u8) -> (addr: Ipv4Addr)
        ensures
            addr == (Ipv4Addr { a, b, c, d }),
    {
        Ipv4Addr { a, b, c, d }
    }
}

/// The value of one octet in dotted notation: one to three digits, no leading
/// zero, at most 255.
pub open spec fn octet(part: Seq<char>) -> Option<u8> {
    if 1 <= part.len() <= 3 && crate::text::all_digits(part) && (part.len() == 1 || part[0] != '0')
        && crate::text::digits_value(part) <= 255 {
        Some(crate::text::digits_value(part) as u8)
    } else {
        None
    }
}

/// The address that a text in dotted notation denotes.
pub open spec fn ipv4_of(text: Seq<char>) -> Option<Ipv4Addr> {
    let parts = crate::text::split(text, '.');
    if parts.len() == 4 && octet(parts[0]) is Some && octet(parts[1]) is Some && octet(
        parts[2],
    ) is Some && octet(parts[3]) is Some {
        Some(
            Ipv4Addr {
                a: octet(parts[0])->0,
                b: octet(parts[1])->0,
                c: octet(parts[2])->0,
                d: octet(parts[3])->0,
            },
        )
    } else {
        None
    }
}

fn parse_octet(part: &Vec<char>) -> (r: Option<u8>)
    ensures
        r == octet(part@),
{
    if part.len() < 1 || part.len() > 3 {
        return None;
    }
    if part.len() > 1 && part[0] == '0' {
        return None;
    }
    if part[0] == '+' {
        assert(!crate::text::is_digit(part@[0]));
        return None;
    }
    match number_of(part, 255) {
        Some(n) => Some(n as u8),
        None => None,
    }
}

/// Reads an IPv4 address in dotted notation.
pub fn parse_ipv4(text: &Vec<char>) -> (r: Option<Ipv4Addr>)
    ensures
        r == ipv4_of(text@),
{
    let parts = split_of(text, '.');
    let ghost all = crate::text::texts(parts@);
    assert(all.len() == parts@.len());
    if parts.len() != 4 {
        return None;
    }
    assert(forall|i: int| 0 <= i < 4 ==> #[trigger] all[i] == parts@[i]@);
    match (
        parse_octet(&parts[0]),
        parse_octet(&parts[1]),
        parse_octet(&parts[2]),
        parse_octet(&parts[3]),
    ) {
        (Some(a), Some(b), Some(c), Some(d)) => Some(Ipv4Addr { a, b, c, d }),
        _ => None,
    }
}

} // verus!
