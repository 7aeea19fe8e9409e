//! Helpers for the values that the SIP stack hands over.

use crate::text;
use crate::text::{after_prefix, find_char, from_chars, slice_of, to_chars};
use vstd::prelude::*;

verus! {

broadcast use vstd::string::group_string_axioms;

/// A text without the `c`s at its start.
pub open spec fn trim_leading(s: Seq<char>, c: char) -> Seq<char>
    decreases s.len(),
{
    if s.len() > 0 && s[0] == c {
        trim_leading(s.skip(1), c)
    } else {
        s
    }
}

/// A text without the `c`s at its end.
pub open spec fn trim_trailing(s: Seq<char>, c: char) -> Seq<char>
    decreases s.len(),
{
    if s.len() > 0 && s.last() == c {
        trim_trailing(s.drop_last(), c)
    } else {
        s
    }
}

/// The user of a SIP URI: what stands before the first `@`, without angle
/// brackets around the URI and without the scheme.
pub open spec fn sip_username(uri: Seq<char>) -> Seq<char> {
    let bare = trim_trailing(trim_leading(uri, '<'), '>');
    let rest = if text::starts_with(bare, "sip:"@) {
        bare.skip("sip:"@.len() as int)
    } else {
        bare
    };
    rest.take(text::next_char(rest, '@', 0))
}

fn trim_leading_of(chars: &Vec<char>, c: char) -> (out: Vec<char>)
    ensures
        out@ == trim_leading(chars@, c),
{
    let mut start: usize = 0;
    assert(chars@.skip(0) =~= chars@);
    while start < chars.len() && chars[start] == c
        invariant
            start <= chars@.len(),
            trim_leading(chars@, c) == trim_leading(chars@.skip(start as int), c),
        decreases chars@.len() - start,
    {
        assert(chars@.skip(start as int)[0] == chars@[start as int]);
        assert(chars@.skip(start as int).skip(1) =~= chars@.skip(start + 1));
        start = start + 1;
    }
    let out = slice_of(chars, start, chars.len());
    assert(out@ =~= chars@.skip(start as int));
    assert(out@.len() > 0 ==> out@[0] == chars@[start as int]);
    out
}

fn trim_trailing_of(chars: &Vec<char>, c: char) -> (out: Vec<char>)
    ensures
        out@ == trim_trailing(chars@, c),
{
    let mut end: usize = chars.len();
    assert(chars@.take(end as int) =~= chars@);
    while end > 0 && chars[end - 1] == c
        invariant
            end <= chars@.len(),
            trim_trailing(chars@, c) == trim_trailing(chars@.take(end as int), c),
        decreases end,
    {
        assert(chars@.take(end as int).last() == chars@[end - 1]);
        assert(chars@.take(end as int).drop_last() =~= chars@.take(end - 1));
        end = end - 1;
    }
    let out = slice_of(chars, 0, end);
    assert(out@ =~= chars@.take(end as int));
    assert(out@.len() > 0 ==> out@.last() == chars@[end - 1]);
    out
}

/// The user of a SIP URI: `alice` for `<sip:alice@example.com>`.
pub fn extract_sip_username(uri: &str) -> (user: String)
    ensures
        user@ == sip_username(uri@),
{
    let bare = trim_trailing_of(&trim_leading_of(&to_chars(uri), '<'), '>');
    let rest = match after_prefix(&bare, "sip:") {
        Some(rest) => rest,
        None => bare,
    };
    let at = find_char(&rest, '@', 0);
    let user = slice_of(&rest, 0, at);
    assert(user@ =~= rest@.take(at as int));
    from_chars(&user)
}

} // verus!
