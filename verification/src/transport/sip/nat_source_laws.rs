//! What a phone behind NAT is reached by after its messages were fixed.
//!
//! The laws speak of the lines of the body before and after, not of how they are
//! rewritten.

use crate::net;
use crate::net::Ipv4Addr;
use crate::text;
use crate::text_laws;
use crate::transport::sip::nat_fixup;
use crate::transport::sip::nat_fixup::{
    extract_dst_ipv4, is_rfc1918, on_rx_request_nat_fixup_cb, on_rx_response_nat_fixup_cb,
    on_tx_request_cb, on_tx_response_cb, rewrite_contact_host, rewrite_local_network_tdata,
    rewrite_private_contact_for_external, rewrite_sdp_body, sanitize_sdp_missing_rtpmap, LocalNetConfig, PacketSource, PublicHostConfig, SipMessage,
    TxTarget,
};
use crate::transport::sip::nat_laws;
use vstd::prelude::*;
use vstd::utf8;

verus! {

// Replacing a text

/// A text that occurs once is replaced there, and the rest stays.
proof fn lemma_replaced_once(
    s: Seq<char>,
    old_text: Seq<char>,
    new_text: Seq<char>,
    i: int,
    p: int,
)
    requires
        0 <= i <= p,
        old_text.len() > 0,
        text::occurs_at(s, old_text, p),
        forall|q: int| q != p ==> !#[trigger] text::occurs_at(s, old_text, q),
    ensures
        text::replaced_from(s, old_text, new_text, i) == s.subrange(i, p) + new_text + s.skip(
            p + old_text.len(),
        ),
    decreases p - i,
{
    if i == p {
        text_laws::lemma_kept(s, old_text, new_text, p + old_text.len());
        assert(s.subrange(i, p) + new_text =~= new_text);
    } else {
        lemma_replaced_once(s, old_text, new_text, i + 1, p);
        assert(s.subrange(i, p) =~= seq![s[i]] + s.subrange(i + 1, p));
        assert(seq![s[i]] + (s.subrange(i + 1, p) + new_text + s.skip(p + old_text.len()))
            =~= seq![s[i]] + s.subrange(i + 1, p) + new_text + s.skip(p + old_text.len()));
    }
}

// Trimming

/// What trimming leaves stands in the text between white space.
proof fn lemma_trim_end(s: Seq<char>)
    ensures
        text::trim_end(s).len() <= s.len(),
        text::trim_end(s) == s.take(text::trim_end(s).len() as int),
        forall|j: int|
            text::trim_end(s).len() <= j < s.len() ==> text::is_white(#[trigger] s[j]),
    decreases s.len(),
{
    if s.len() > 0 && text::is_white(s.last()) {
        lemma_trim_end(s.drop_last());
        let n = text::trim_end(s).len() as int;
        assert(s.drop_last().take(n) =~= s.take(n));
        assert forall|j: int| n <= j < s.len() implies text::is_white(#[trigger] s[j]) by {
            if j < s.len() - 1 {
                assert(s[j] == s.drop_last()[j]);
            }
        }
    } else {
        assert(s.take(s.len() as int) =~= s);
    }
}

/// A word is trimmed out of the white space around it.
proof fn lemma_trim_end_of_word(word: Seq<char>, after: Seq<char>)
    requires
        text::is_word(word),
        forall|j: int| 0 <= j < after.len() ==> text::is_white(#[trigger] after[j]),
    ensures
        text::trim_end(word + after) == word,
    decreases after.len(),
{
    let s = word + after;
    if after.len() > 0 {
        assert(s.last() == after.last());
        assert(text::is_white(after[after.len() - 1]));
        assert(s.drop_last() =~= word + after.drop_last());
        lemma_trim_end_of_word(word, after.drop_last());
    } else {
        assert(s =~= word);
        assert(!text::is_white(word[word.len() - 1]));
    }
}

proof fn lemma_first_dark(s: Seq<char>, i: int, j: int)
    requires
        0 <= i <= j < s.len(),
        !text::is_white(s[j]),
        forall|k: int| i <= k < j ==> text::is_white(#[trigger] s[k]),
    ensures
        text::next_white(s, false, i) == j,
    decreases j - i,
{
    if i < j {
        lemma_first_dark(s, i + 1, j);
    }
}

proof fn lemma_trim_of_word(before: Seq<char>, word: Seq<char>, after: Seq<char>)
    requires
        text::is_word(word),
        forall|j: int| 0 <= j < before.len() ==> text::is_white(#[trigger] before[j]),
        forall|j: int| 0 <= j < after.len() ==> text::is_white(#[trigger] after[j]),
    ensures
        text::trim(before + word + after) == word,
{
    let s = before + word + after;
    let n = before.len() as int;
    assert(s[n] == word[0]);
    assert forall|k: int| 0 <= k < n implies text::is_white(#[trigger] s[k]) by {
        assert(s[k] == before[k]);
    }
    lemma_first_dark(s, 0, n);
    assert(s.subrange(n, s.len() as int) =~= word + after);
    lemma_trim_end_of_word(word, after);
}

/// Where the text that trimming leaves begins.
proof fn lemma_trim_parts(s: Seq<char>) -> (a: int)
    ensures
        0 <= a,
        a + text::trim(s).len() <= s.len(),
        s.subrange(a, a + text::trim(s).len()) == text::trim(s),
        forall|j: int| 0 <= j < a ==> text::is_white(#[trigger] s[j]),
        forall|j: int| a + text::trim(s).len() <= j < s.len() ==> text::is_white(#[trigger] s[j]),
{
    let a = text::next_white(s, false, 0);
    text::lemma_next_white(s, false, 0);
    let rest = s.subrange(a, s.len() as int);
    lemma_trim_end(rest);
    let n = text::trim(s).len() as int;
    assert(s.subrange(a, a + n) =~= rest.take(n));
    assert forall|j: int| a + n <= j < s.len() implies text::is_white(#[trigger] s[j]) by {
        assert(s[j] == rest[j - a]);
    }
    a
}

// Addresses as text

/// A character of an address in dotted notation.
spec fn dotted(c: char) -> bool {
    text::is_digit(c) || c == '.'
}

proof fn lemma_split_covers(s: Seq<char>, c: char, i: int)
    requires
        0 <= i <= s.len(),
        forall|k: int|
            0 <= k < text::split_from(s, c, i).len() ==> text::all_digits(
                #[trigger] text::split_from(s, c, i)[k],
            ),
    ensures
        text::split_from(s, c, i).len() <= s.len() - i + 1,
        forall|j: int| i <= j < s.len() ==> text::is_digit(#[trigger] s[j]) || s[j] == c,
    decreases s.len() - i,
{
    let parts = text::split_from(s, c, i);
    let end = text::next_char(s, c, i);
    text::lemma_next_char(s, c, i);
    assert(text::all_digits(parts[0]));
    if end < s.len() {
        let rest = text::split_from(s, c, end + 1);
        assert forall|k: int| 0 <= k < rest.len() implies text::all_digits(#[trigger] rest[k]) by {
            assert(rest[k] == parts[k + 1]);
        }
        lemma_split_covers(s, c, end + 1);
    }
    assert forall|j: int| i <= j < s.len() implies text::is_digit(#[trigger] s[j]) || s[j] == c by {
        if j < end {
            assert(s[j] == parts[0][j - i]);
        }
    }
}

/// The text of an address holds digits and dots, at least two characters.
proof fn lemma_address_text(addr: Seq<char>)
    requires
        net::ipv4_of(addr) is Some,
    ensures
        addr.len() >= 2,
        forall|j: int| 0 <= j < addr.len() ==> dotted(#[trigger] addr[j]),
        text::is_word(addr),
        !text::holds(addr, '\n'),
{
    let parts = text::split(addr, '.');
    assert forall|k: int| 0 <= k < parts.len() implies text::all_digits(#[trigger] parts[k]) by {
        assert(k == 0 || k == 1 || k == 2 || k == 3);
    }
    lemma_split_covers(addr, '.', 0);
    assert forall|j: int| 0 <= j < addr.len() implies dotted(#[trigger] addr[j]) && !text::is_white(
        addr[j],
    ) && addr[j] != '\n' by {
    }
}

// Where a packet came from

/// Whether a packet came from an address, and that address is written so: what
/// stands before the first NUL byte of the source, or all of it.
pub open spec fn came_from(source: PacketSource, name: Seq<char>, ip: Ipv4Addr) -> bool {
    &&& net::ipv4_of(name) == Some(ip)
    &&& exists|n: int|
        {
            &&& 0 <= n <= source.src_name@.len()
            &&& #[trigger] source.src_name@.take(n) == utf8::encode_utf8(name)
            &&& forall|k: int| 0 <= k < n ==> #[trigger] source.src_name@[k] != 0
            &&& n < source.src_name@.len() ==> source.src_name@[n] == 0
        }
}

proof fn lemma_nul(bytes: Seq<u8>, i: int, n: int)
    requires
        0 <= i <= n <= bytes.len(),
        forall|k: int| i <= k < n ==> #[trigger] bytes[k] != 0,
        n < bytes.len() ==> bytes[n] == 0,
    ensures
        nat_fixup::nul_from(bytes, i) == n,
    decreases n - i,
{
    if i < n {
        lemma_nul(bytes, i + 1, n);
    }
}

proof fn lemma_came_from(source: PacketSource, name: Seq<char>, ip: Ipv4Addr)
    requires
        came_from(source, name, ip),
    ensures
        nat_fixup::source_of(source.src_name@) == Some((name, ip)),
{
    let bytes = source.src_name@;
    let n = choose|n: int|
        {
            &&& 0 <= n <= bytes.len()
            &&& #[trigger] bytes.take(n) == utf8::encode_utf8(name)
            &&& forall|k: int| 0 <= k < n ==> #[trigger] bytes[k] != 0
            &&& n < bytes.len() ==> bytes[n] == 0
        };
    lemma_nul(bytes, 0, n);
    utf8::encode_utf8_valid_utf8(name);
    utf8::encode_utf8_decode_utf8(name);
}

/// An address that only its own network reaches, and that the packet did not come
/// from.
pub open spec fn unreachable_from(ip: Ipv4Addr, src: Ipv4Addr) -> bool {
    &&& ip.a == 10 || (ip.a == 172 && 16 <= ip.b && ip.b < 32) || (ip.a == 192 && ip.b == 168)
    &&& ip.a != src.a || ip.b != src.b || ip.c != src.c || ip.d != src.d
}

/// Whether a line gives a media address: `c=IN IP4`, a space, the address and
/// perhaps white space around it.
pub open spec fn gives_address(line: Seq<char>, addr: Seq<char>) -> bool {
    &&& line.len() >= 9
    &&& line.take(9) == seq!['c', '=', 'I', 'N', ' ', 'I', 'P', '4', ' ']
    &&& text::trim(line.skip(9)) == addr
}

/// Whether a line gives a media address that cannot be reached.
pub open spec fn gives_unreachable(line: Seq<char>, src: Ipv4Addr) -> bool {
    exists|addr: Seq<char>| #[trigger]
        gives_address(line, addr) && net::ipv4_of(addr) is Some && unreachable_from(
            net::ipv4_of(addr)->0,
            src,
        )
}

proof fn lemma_prefix()
    ensures
        "c=IN IP4 "@ == seq!['c', '=', 'I', 'N', ' ', 'I', 'P', '4', ' '],
        "c="@ == seq!['c', '='],
        "o="@ == seq!['o', '='],
{
    reveal_strlit("c=IN IP4 ");
    reveal_strlit("c=");
    reveal_strlit("o=");
    assert("c=IN IP4 "@ =~= seq!['c', '=', 'I', 'N', ' ', 'I', 'P', '4', ' ']);
    assert("c="@ =~= seq!['c', '=']);
    assert("o="@ =~= seq!['o', '=']);
}

proof fn lemma_gives_address(line: Seq<char>, addr: Seq<char>)
    ensures
        gives_address(line, addr) <==> nat_fixup::connection_address(line) == Some(addr),
{
    lemma_prefix();
    if line.len() >= 9 {
        assert(line.take(9) =~= line.subrange(0, 9));
    }
}

proof fn lemma_gives_unreachable(line: Seq<char>, src: Ipv4Addr)
    ensures
        gives_unreachable(line, src) <==> nat_fixup::private_connection(line, src),
{
    if gives_unreachable(line, src) {
        let addr = choose|addr: Seq<char>| #[trigger]
            gives_address(line, addr) && net::ipv4_of(addr) is Some && unreachable_from(
                net::ipv4_of(addr)->0,
                src,
            );
        lemma_gives_address(line, addr);
    }
    if nat_fixup::private_connection(line, src) {
        let addr = nat_fixup::connection_address(line)->0;
        lemma_gives_address(line, addr);
        assert(gives_address(line, addr));
    }
}

proof fn lemma_private_media(lines: Seq<Seq<char>>, src: Ipv4Addr, i: int, k: int)
    requires
        0 <= i <= k <= lines.len(),
        forall|j: int| i <= j < k ==> !gives_unreachable(#[trigger] lines[j], src),
        k < lines.len() ==> gives_unreachable(lines[k], src),
    ensures
        nat_fixup::private_media(lines, src, i) == (if k < lines.len() {
            nat_fixup::connection_address(lines[k])
        } else {
            None
        }),
    decreases k - i,
{
    if i < lines.len() {
        lemma_gives_unreachable(lines[i], src);
    }
    if i < k {
        lemma_private_media(lines, src, i + 1, k);
    }
}

/// Whether a line is one that carries addresses: a connection or an origin line.
pub open spec fn carries_addresses(line: Seq<char>) -> bool {
    line.len() >= 2 && (line[0] == 'c' || line[0] == 'o') && line[1] == '='
}

proof fn lemma_carries_addresses(line: Seq<char>)
    ensures
        carries_addresses(line) <==> text::starts_with(line, "c="@) || text::starts_with(
            line,
            "o="@,
        ),
{
    lemma_prefix();
    if line.len() >= 2 {
        assert(line.subrange(0, 2) =~= seq![line[0], line[1]]);
        assert(seq![line[0], line[1]][0] == line[0]);
        assert(seq!['c', '='][0] == 'c' && seq!['c', '='][1] == '=');
        assert(seq!['o', '='][0] == 'o' && seq!['o', '='][1] == '=');
        if carries_addresses(line) {
            if line[0] == 'c' {
                assert(line.subrange(0, 2) =~= seq!['c', '=']);
            } else {
                assert(line.subrange(0, 2) =~= seq!['o', '=']);
            }
        }
    }
}

/// Whether a line was moved from one address to another: a line that carries
/// addresses and holds the first one holds the other in its place, wherever it
/// stands; a line that does not hold it, or carries no addresses, is the same.
pub open spec fn is_moved(
    before: Seq<char>,
    after: Seq<char>,
    addr: Seq<char>,
    name: Seq<char>,
) -> bool {
    &&& !carries_addresses(before) ==> after == before
    &&& (forall|q: int| !#[trigger] text::occurs_at(before, addr, q)) ==> after == before
    &&& forall|p: int|
        carries_addresses(before) && #[trigger] text::occurs_at(before, addr, p) && (forall|q: int|
            q != p ==> !#[trigger] text::occurs_at(before, addr, q)) ==> after == before.take(p)
            + name + before.skip(p + addr.len())
    &&& forall|p: int|
        carries_addresses(before) && #[trigger] text::occurs_at(before, addr, p) && (forall|q: int|
            0 <= q < p ==> !#[trigger] text::occurs_at(before, addr, q)) ==> after == before.take(p)
            + name + text::replaced(before.skip(p + addr.len()), addr, name)
}

proof fn lemma_is_moved(before: Seq<char>, addr: Seq<char>, name: Seq<char>)
    requires
        addr.len() > 0,
    ensures
        is_moved(before, nat_fixup::rewritten_line(before, addr, name), addr, name),
{
    let after = nat_fixup::rewritten_line(before, addr, name);
    lemma_carries_addresses(before);
    if forall|q: int| !#[trigger] text::occurs_at(before, addr, q) {
        assert(!text::contains(before, addr));
    }
    assert forall|p: int|
        carries_addresses(before) && #[trigger] text::occurs_at(before, addr, p) && (forall|q: int|
            q != p ==> !#[trigger] text::occurs_at(before, addr, q)) implies after == before.take(p)
        + name + before.skip(p + addr.len()) by {
        assert(text::contains(before, addr));
        lemma_replaced_once(before, addr, name, 0, p);
        assert(before.subrange(0, p) =~= before.take(p));
    }
    assert forall|p: int|
        carries_addresses(before) && #[trigger] text::occurs_at(before, addr, p) && (forall|q: int|
            0 <= q < p ==> !#[trigger] text::occurs_at(before, addr, q)) implies after
        == before.take(p) + name + text::replaced(before.skip(p + addr.len()), addr, name) by {
        assert(text::contains(before, addr));
        text_laws::lemma_replacing_goes_on(before, addr, name, p);
    }
}

/// The head of a connection line holds no two characters of an address in a row.
proof fn lemma_head_is_no_address(line: Seq<char>, q: int)
    requires
        line.len() >= 9,
        line.take(9) == seq!['c', '=', 'I', 'N', ' ', 'I', 'P', '4', ' '],
        0 <= q < 9,
    ensures
        !(dotted(line[q]) && (q == 7 ==> dotted(line[q + 1]))),
        carries_addresses(line),
{
    let head = line.take(9);
    assert(head[q] == line[q]);
    assert(head[0] == line[0] && head[1] == line[1] && head[8] == line[8]);
}

/// In a connection line the address stands at one place alone.
proof fn lemma_address_stands_once(line: Seq<char>, addr: Seq<char>, p: int)
    requires
        line.len() >= 9,
        line.take(9) == seq!['c', '=', 'I', 'N', ' ', 'I', 'P', '4', ' '],
        addr.len() >= 2,
        forall|j: int| 0 <= j < addr.len() ==> dotted(#[trigger] addr[j]),
        p >= 9,
        p + addr.len() <= line.len(),
        forall|j: int| 9 <= j < p ==> text::is_white(#[trigger] line[j]),
        forall|j: int| p + addr.len() <= j < line.len() ==> text::is_white(#[trigger] line[j]),
    ensures
        forall|q: int| q != p ==> !#[trigger] text::occurs_at(line, addr, q),
{
    let n = addr.len() as int;
    assert forall|q: int| q != p implies !#[trigger] text::occurs_at(line, addr, q) by {
        if text::occurs_at(line, addr, q) {
            let found = line.subrange(q, q + n);
            assert(found[0] == line[q] && found[1] == line[q + 1] && found[n - 1] == line[q + n
                - 1]);
            assert(dotted(addr[0]) && dotted(addr[1]) && dotted(addr[n - 1]));
            if q < 9 {
                lemma_head_is_no_address(line, q);
            } else if q < p {
                assert(text::is_white(line[q]));
            } else {
                assert(text::is_white(line[q + n - 1]));
            }
        }
    }
}

/// A connection line gives the address that stands in it between white space.
proof fn lemma_gives_new_address(
    before: Seq<char>,
    after: Seq<char>,
    name: Seq<char>,
    p: int,
    q: int,
)
    requires
        before.len() >= 9,
        before.take(9) == seq!['c', '=', 'I', 'N', ' ', 'I', 'P', '4', ' '],
        text::is_word(name),
        9 <= p <= q <= before.len(),
        after == before.take(p) + name + before.skip(q),
        forall|j: int| 9 <= j < p ==> text::is_white(#[trigger] before[j]),
        forall|j: int| q <= j < before.len() ==> text::is_white(#[trigger] before[j]),
    ensures
        gives_address(after, name),
{
    let blank = before.subrange(9, p);
    let tail = before.skip(q);
    assert(after.take(9) =~= before.take(9));
    assert(after.skip(9) =~= blank + name + tail);
    lemma_trim_of_word(blank, name, tail);
}

/// Where the address of a connection line stands: at one place alone, between white
/// space.
proof fn lemma_place_of_address(line: Seq<char>, addr: Seq<char>) -> (p: int)
    requires
        gives_address(line, addr),
        addr.len() >= 2,
        forall|j: int| 0 <= j < addr.len() ==> dotted(#[trigger] addr[j]),
    ensures
        9 <= p,
        p + addr.len() <= line.len(),
        text::occurs_at(line, addr, p),
        forall|q: int| q != p ==> !#[trigger] text::occurs_at(line, addr, q),
        forall|j: int| 9 <= j < p ==> text::is_white(#[trigger] line[j]),
        forall|j: int| p + addr.len() <= j < line.len() ==> text::is_white(#[trigger] line[j]),
{
    let rest = line.skip(9);
    let a = lemma_trim_parts(rest);
    let n = addr.len() as int;
    let p = 9 + a;
    assert(line.subrange(p, p + n) =~= rest.subrange(a, a + n));
    assert forall|j: int| 9 <= j < p implies text::is_white(#[trigger] line[j]) by {
        assert(line[j] == rest[j - 9]);
    }
    assert forall|j: int| p + n <= j < line.len() implies text::is_white(#[trigger] line[j]) by {
        assert(line[j] == rest[j - 9]);
    }
    lemma_address_stands_once(line, addr, p);
    p
}

/// A line that gave one address gives the other once it was moved.
proof fn lemma_moved_connection(line: Seq<char>, addr: Seq<char>, name: Seq<char>)
    requires
        gives_address(line, addr),
        net::ipv4_of(addr) is Some,
        net::ipv4_of(name) is Some,
    ensures
        gives_address(nat_fixup::rewritten_line(line, addr, name), name),
        text::contains(line, addr),
{
    lemma_address_text(addr);
    lemma_address_text(name);
    let p = lemma_place_of_address(line, addr);
    lemma_head_is_no_address(line, 0);
    lemma_carries_addresses(line);
    assert(text::contains(line, addr));
    lemma_replaced_once(line, addr, name, 0, p);
    assert(line.subrange(0, p) =~= line.take(p));
    lemma_gives_new_address(
        line,
        nat_fixup::rewritten_line(line, addr, name),
        name,
        p,
        p + addr.len(),
    );
}

/// Whether a body was moved: it has the same lines as before, each of them moved,
/// and its line `k` now gives the address of the source.
pub open spec fn body_is_moved(
    before: Seq<u8>,
    after: Seq<u8>,
    k: int,
    addr: Seq<char>,
    name: Seq<char>,
) -> bool {
    let lines = text::lines(utf8::decode_utf8(before));
    let moved = text::lines(utf8::decode_utf8(after));
    &&& utf8::valid_utf8(after)
    &&& moved.len() == lines.len()
    &&& gives_address(moved[k], name)
    &&& forall|j: int| 0 <= j < lines.len() ==> is_moved(#[trigger] lines[j], moved[j], addr, name)
}

proof fn lemma_body_is_moved(body: Seq<u8>, k: int, addr: Seq<char>, name: Seq<char>, src: Ipv4Addr)
    requires
        body.len() > 0,
        utf8::valid_utf8(body),
        net::ipv4_of(name) == Some(src),
        ({
            let lines = text::lines(utf8::decode_utf8(body));
            &&& 0 <= k < lines.len()
            &&& gives_address(lines[k], addr)
            &&& gives_unreachable(lines[k], src)
            &&& forall|j: int| 0 <= j < k ==> !gives_unreachable(#[trigger] lines[j], src)
        }),
    ensures
        body_is_moved(body, nat_fixup::media_fixed(body, (name, src)), k, addr, name),
{
    let sdp = utf8::decode_utf8(body);
    let lines = text::lines(sdp);
    lemma_private_media(lines, src, 0, k);
    lemma_gives_address(lines[k], addr);
    lemma_gives_unreachable(lines[k], src);
    assert(net::ipv4_of(addr) is Some);
    lemma_address_text(addr);
    lemma_address_text(name);
    lemma_moved_connection(lines[k], addr, name);
    lemma_carries_addresses(lines[k]);
    lemma_prefix();
    lemma_head_is_no_address(lines[k], 0);
    assert(text::contains(lines[k], addr));
    assert(nat_fixup::rewrites_line(lines[k], addr));
    let out = nat_fixup::sdp_rewritten(sdp, addr, name)->0;
    assert(nat_fixup::sdp_rewritten(sdp, addr, name) is Some);
    utf8::encode_utf8_valid_utf8(out);
    utf8::encode_utf8_decode_utf8(out);
    assert forall|j: int| 0 <= j < lines.len() implies is_moved(
        #[trigger] lines[j],
        text::lines(out)[j],
        addr,
        name,
    ) by {
        nat_laws::law_rewriting_keeps_other_lines(sdp, addr, name, j);
        lemma_is_moved(lines[j], addr, name);
    }
    nat_laws::law_rewriting_keeps_other_lines(sdp, addr, name, k);
}

/// A response of a phone behind NAT leads back to where it came from. Its Contact
/// becomes the source of the packet. So does the first media address that cannot
/// be reached, together with the other connection and origin lines that hold it;
/// all other lines stay. A body without such an address stays as it is.
pub proof fn law_response_leads_back_to_its_source(
    status: i32,
    source: &PacketSource,
    msg: &mut SipMessage,
    name: Seq<char>,
    src: Ipv4Addr,
    k: int,
    addr: Seq<char>,
)
    requires
        call_ensures(on_rx_response_nat_fixup_cb, (status, source, msg), ()),
        100 <= status < 300,
        came_from(*source, name, src),
        old(msg)@.contact is Some,
        net::ipv4_of(old(msg)@.contact->0.host) is Some,
        unreachable_from(net::ipv4_of(old(msg)@.contact->0.host)->0, src),
    ensures
        final(msg)@.contact == Some(
            nat_fixup::HostPort { host: name, port: (source.src_port as u16) as i32 },
        ),
        old(msg)@.body.len() == 0 || !utf8::valid_utf8(old(msg)@.body) ==> final(msg)@.body == old(
            msg,
        )@.body,
        old(msg)@.body.len() > 0 && utf8::valid_utf8(old(msg)@.body) ==> {
            let lines = text::lines(utf8::decode_utf8(old(msg)@.body));
            &&& (forall|j: int| 0 <= j < lines.len() ==> !gives_unreachable(#[trigger] lines[j], src))
                ==> final(msg)@.body == old(msg)@.body
            &&& 0 <= k < lines.len() && gives_address(lines[k], addr) && gives_unreachable(
                lines[k],
                src,
            ) && (forall|j: int| 0 <= j < k ==> !gives_unreachable(#[trigger] lines[j], src))
                ==> body_is_moved(old(msg)@.body, final(msg)@.body, k, addr, name)
        },
{
    lemma_came_from(*source, name, src);
    let body = old(msg)@.body;
    if body.len() > 0 && utf8::valid_utf8(body) {
        let lines = text::lines(utf8::decode_utf8(body));
        if forall|j: int| 0 <= j < lines.len() ==> !gives_unreachable(#[trigger] lines[j], src) {
            lemma_private_media(lines, src, 0, lines.len() as int);
        }
        if 0 <= k < lines.len() && gives_address(lines[k], addr) && gives_unreachable(lines[k], src)
            && (forall|j: int| 0 <= j < k ==> !gives_unreachable(#[trigger] lines[j], src)) {
            lemma_body_is_moved(body, k, addr, name, src);
        }
    }
}

/// A response is left alone where it is neither provisional nor successful, where
/// it has no Contact, or where its Contact can be reached.
pub proof fn law_other_responses_are_left_alone(
    status: i32,
    source: &PacketSource,
    msg: &mut SipMessage,
    name: Seq<char>,
    src: Ipv4Addr,
)
    requires
        call_ensures(on_rx_response_nat_fixup_cb, (status, source, msg), ()),
        came_from(*source, name, src),
        status < 100 || status >= 300 || old(msg)@.contact is None || net::ipv4_of(
            old(msg)@.contact->0.host,
        ) is None || !unreachable_from(net::ipv4_of(old(msg)@.contact->0.host)->0, src),
    ensures
        final(msg)@ == old(msg)@,
{
    lemma_came_from(*source, name, src);
}

/// An INVITE of a phone leads back to where it came from. Where its Contact cannot
/// be reached it becomes the source of the packet, else it stays. Its body is fixed
/// as that of a response would be, and then cleaned of payload types that nothing
/// declares.
pub proof fn law_invite_leads_back_to_its_source(
    source: &PacketSource,
    msg: &mut SipMessage,
    status: i32,
    reply: &mut SipMessage,
    sdp: &str,
    clean: Option<String>,
    name: Seq<char>,
    src: Ipv4Addr,
)
    requires
        call_ensures(on_rx_request_nat_fixup_cb, (true, true, source, msg), ()),
        came_from(*source, name, src),
        old(msg)@.body.len() > 0,
        utf8::valid_utf8(old(msg)@.body),
        call_ensures(on_rx_response_nat_fixup_cb, (status, source, reply), ()),
        100 <= status < 300,
        old(reply)@.contact is Some,
        net::ipv4_of(old(reply)@.contact->0.host) is Some,
        unreachable_from(net::ipv4_of(old(reply)@.contact->0.host)->0, src),
        old(reply)@.body == old(msg)@.body,
        final(reply)@.body == utf8::encode_utf8(sdp@),
        final(reply)@.body.len() > 0,
        call_ensures(sanitize_sdp_missing_rtpmap, (sdp,), clean),
    ensures
        clean is None ==> final(msg)@.body == final(reply)@.body,
        clean matches Some(t) ==> final(msg)@.body == utf8::encode_utf8(t@),
        old(msg)@.contact is None ==> final(msg)@.contact is None,
        old(msg)@.contact matches Some(c) ==> final(msg)@.contact == Some(
            if net::ipv4_of(c.host) is Some && unreachable_from(net::ipv4_of(c.host)->0, src) {
                nat_fixup::HostPort { host: name, port: (source.src_port as u16) as i32 }
            } else {
                c
            },
        ),
{
    lemma_came_from(*source, name, src);
    utf8::encode_utf8_valid_utf8(sdp@);
    utf8::encode_utf8_decode_utf8(sdp@);
}

/// Only an INVITE with a readable body is looked at; every other request stays.
pub proof fn law_other_requests_are_left_alone(
    is_request: bool,
    is_invite: bool,
    source: &PacketSource,
    msg: &mut SipMessage,
)
    requires
        call_ensures(on_rx_request_nat_fixup_cb, (is_request, is_invite, source, msg), ()),
        !is_request || !is_invite || old(msg)@.body.len() == 0 || !utf8::valid_utf8(
            old(msg)@.body,
        ),
    ensures
        final(msg)@ == old(msg)@,
{
}

/// Whether a word names a dynamic payload type, from 96 on, that no line declares.
pub open spec fn undeclared(word: Seq<char>, attrs: Seq<Seq<char>>) -> bool {
    &&& text::parse_unsigned(word, u32::MAX as nat) is Some
    &&& text::parse_unsigned(word, u32::MAX as nat)->0 >= 96
    &&& forall|i: int|
        0 <= i < attrs.len() ==> !names_payload(
            #[trigger] attrs[i],
            "a=rtpmap:"@,
            text::parse_unsigned(word, u32::MAX as nat)->0,
        )
}

/// Whether an attribute line is about a payload type.
pub open spec fn names_payload(line: Seq<char>, attribute: Seq<char>, pt: nat) -> bool {
    &&& line.len() >= attribute.len()
    &&& line.take(attribute.len() as int) == attribute
    &&& text::words(line.skip(attribute.len() as int)).len() > 0
    &&& text::parse_unsigned(
        text::words(line.skip(attribute.len() as int))[0],
        u32::MAX as nat,
    ) == Some(pt)
}

proof fn lemma_names_payload(line: Seq<char>, attribute: Seq<char>, pt: nat)
    ensures
        names_payload(line, attribute, pt) <==> nat_fixup::attribute_pt(line, attribute) == Some(pt),
{
    if line.len() >= attribute.len() {
        assert(line.take(attribute.len() as int) =~= line.subrange(0, attribute.len() as int));
    }
}

proof fn lemma_undeclared(word: Seq<char>, attrs: Seq<Seq<char>>)
    ensures
        undeclared(word, attrs) <==> nat_fixup::orphan(word, attrs),
{
    if let Some(pt) = text::parse_unsigned(word, u32::MAX as nat) {
        assert forall|i: int| 0 <= i < attrs.len() implies (names_payload(
            #[trigger] attrs[i],
            "a=rtpmap:"@,
            pt,
        ) <==> nat_fixup::attribute_pt(attrs[i], "a=rtpmap:"@) == Some(pt)) by {
            lemma_names_payload(attrs[i], "a=rtpmap:"@, pt);
        }
    }
}

/// A media section is cleaned of what nothing declares. Of the formats of an RTP
/// section those stay that are declared, static or no numbers, in their order; the
/// parameters of those that leave go with them. Nothing changes where there is
/// nothing to remove, where nothing would be left, or in a section that is not RTP.
pub proof fn law_undeclared_payload_types_leave(
    sdp: &str,
    clean: Option<String>,
    head: Seq<Seq<char>>,
    m_line: Seq<char>,
    attrs: Seq<Seq<char>>,
)
    requires
        call_ensures(sanitize_sdp_missing_rtpmap, (sdp,), clean),
        text::lines(sdp@) == head + seq![m_line] + attrs,
        text::starts_with(m_line, "m="@),
        forall|k: int| 0 <= k < head.len() ==> !text::starts_with(#[trigger] head[k], "m="@),
        forall|k: int| 0 <= k < attrs.len() ==> !text::starts_with(#[trigger] attrs[k], "m="@),
    ensures
        ({
            let words = text::words(m_line);
            let formats = words.skip(3);
            let kept = formats.filter(|w: Seq<char>| !undeclared(w, attrs));
            let lines = attrs.filter(
                |line: Seq<char>|
                    !exists|i: int|
                        0 <= i < formats.len() && undeclared(#[trigger] formats[i], attrs)
                            && names_payload(
                            line,
                            "a=fmtp:"@,
                            text::parse_unsigned(formats[i], u32::MAX as nat)->0,
                        ),
            );
            &&& clean is Some <==> words.len() >= 4 && text::starts_with(words[2], "RTP/"@) && 0
                < kept.len() < formats.len()
            &&& clean matches Some(t) ==> {
                let out = text::lines(t@);
                &&& out.len() == head.len() + 1 + lines.len()
                &&& out.take(head.len() as int) == head
                &&& text::words(out[head.len() as int]) == words.take(3) + kept
                &&& out.skip(head.len() as int + 1) == lines
            }
        }),
{
    let all = text::lines(sdp@);
    let first = head.len() as int;
    let words = text::words(m_line);
    let formats = words.skip(3);
    let keep = |w: Seq<char>| !undeclared(w, attrs);
    assert forall|w: Seq<char>| #[trigger] keep(w) == (nat_fixup::keeps_word(attrs))(w) by {
        lemma_undeclared(w, attrs);
    }
    assert(keep =~= nat_fixup::keeps_word(attrs));
    let stay = |line: Seq<char>|
        !exists|i: int|
            0 <= i < formats.len() && undeclared(#[trigger] formats[i], attrs) && names_payload(
                line,
                "a=fmtp:"@,
                text::parse_unsigned(formats[i], u32::MAX as nat)->0,
            );
    assert forall|line: Seq<char>| #[trigger]
        stay(line) == (nat_fixup::keeps_line(formats, attrs))(line) by {
        assert forall|i: int| 0 <= i < formats.len() implies undeclared(
            #[trigger] formats[i],
            attrs,
        ) == nat_fixup::orphan(formats[i], attrs) by {
            lemma_undeclared(formats[i], attrs);
        }
        assert forall|pt: nat| #[trigger] names_payload(line, "a=fmtp:"@, pt) == (
        nat_fixup::attribute_pt(line, "a=fmtp:"@) == Some(pt)) by {
            lemma_names_payload(line, "a=fmtp:"@, pt);
        }
        if !stay(line) {
            let i = choose|i: int|
                0 <= i < formats.len() && undeclared(#[trigger] formats[i], attrs) && names_payload(
                    line,
                    "a=fmtp:"@,
                    text::parse_unsigned(formats[i], u32::MAX as nat)->0,
                );
            assert(nat_fixup::orphan(formats[i], attrs));
        }
        if !(nat_fixup::keeps_line(formats, attrs))(line) {
            let pt = nat_fixup::attribute_pt(line, "a=fmtp:"@)->0;
            assert(nat_fixup::stripped(formats, attrs, pt));
            let i = choose|i: int|
                0 <= i < formats.len() && nat_fixup::orphan(#[trigger] formats[i], attrs)
                    && nat_fixup::payload_type(formats[i]) == Some(pt);
            assert(undeclared(formats[i], attrs));
            assert(names_payload(line, "a=fmtp:"@, pt));
        }
    }
    assert(stay =~= nat_fixup::keeps_line(formats, attrs));
    assert forall|k: int| 0 <= k < first implies !text::starts_with(#[trigger] all[k], "m="@) by {
        assert(all[k] == head[k]);
    }
    assert(all[first] == m_line);
    nat_laws::lemma_next_media_is(all, 0, first);
    assert forall|k: int| first + 1 <= k < all.len() implies !text::starts_with(
        #[trigger] all[k],
        "m="@,
    ) by {
        assert(all[k] == attrs[k - first - 1]);
    }
    let n = all.len() as int;
    nat_laws::lemma_next_media_is(all, first + 1, n);
    assert(all.subrange(first + 1, n) =~= attrs);
    assert(nat_fixup::sanitized_from(all, n) =~= Seq::<Seq<char>>::empty());
    assert(!nat_fixup::changes_from(all, n));
    let section = nat_fixup::sanitized_section(m_line, attrs);
    assert(nat_fixup::sanitized_from(all, first) =~= section);
    assert(all.take(first) =~= head);
    if let Some(t) = clean {
        assert(nat_fixup::sanitized(sdp@) == Some(t@));
        nat_laws::lemma_sanitized_text(sdp@);
        assert(text::lines(t@) == head + section);
        nat_laws::lemma_sanitized_words(m_line, attrs);
        let out = text::lines(t@);
        assert(out.take(first) =~= head);
        assert(out[first] == section[0]);
        assert(out.skip(first + 1) =~= attrs.filter(stay));
    }
}

// Outgoing messages

/// A client of the local network is told the local host: in the Contact, where
/// there is one, and in place of the public address of the media. It is never
/// told the public host, if it has a private address.
pub proof fn law_local_client_is_told_the_local_host(
    local: &Option<LocalNetConfig>,
    public: &Option<PublicHostConfig>,
    target: &TxTarget,
    msg: &mut SipMessage,
    r: bool,
    request: bool,
    config: LocalNetConfig,
)
    requires
        request ==> call_ensures(on_tx_request_cb, (local, public, target, true, msg), r),
        !request ==> call_ensures(on_tx_response_cb, (local, public, target, true, msg), r),
        *local == Some(config),
        target.has_transport,
        target.dst_addr_len > 0,
        target.family == 2,
        target.ipv4.a == 10 || (target.ipv4.a == 192 && target.ipv4.b == 168) || (target.ipv4.a
            == 172 && 16 <= target.ipv4.b <= 31),
        forall|k: int| 0 <= k < config.local_host@.len() ==> config.local_host@[k] != '\0',
    ensures
        old(msg)@.contact matches Some(c) && c.host.len() > 0 ==> r && final(msg)@.contact == Some(
            nat_fixup::HostPort { host: config.local_host@, port: config.port as i32 },
        ),
        old(msg)@.contact is None ==> final(msg)@.contact is None,
        config.rtp_public_ip is None ==> final(msg)@.body == old(msg)@.body,
        !r ==> final(msg)@ == old(msg)@,
        config.rtp_public_ip is Some && config.rtp_public_ip->0@.len() > 0 && !text::holds(
            config.local_host@,
            '\n',
        ) && old(msg)@.body.len() > 0 && utf8::valid_utf8(old(msg)@.body) ==> {
            let ip = config.rtp_public_ip->0;
            let lines = text::lines(utf8::decode_utf8(old(msg)@.body));
            let told = text::lines(utf8::decode_utf8(final(msg)@.body));
            &&& told.len() == lines.len()
            &&& forall|j: int|
                0 <= j < lines.len() ==> is_moved(
                    #[trigger] lines[j],
                    told[j],
                    ip@,
                    config.local_host@,
                )
        },
{
    if old(msg)@.contact is Some {
        assert(!config.local_host@.contains('\0'));
    }
    if let Some(ip) = config.rtp_public_ip {
        if ip@.len() > 0 && !text::holds(config.local_host@, '\n') && old(msg)@.body.len() > 0
            && utf8::valid_utf8(old(msg)@.body) {
            lemma_body_rewritten(old(msg)@.body, ip@, config.local_host@);
        }
    }
}

proof fn lemma_body_rewritten(body: Seq<u8>, addr: Seq<char>, name: Seq<char>)
    requires
        addr.len() > 0,
        !text::holds(name, '\n'),
        body.len() > 0,
        utf8::valid_utf8(body),
    ensures
        ({
            let after = match nat_fixup::body_rewritten(body, addr, name) {
                Some(out) => out,
                None => body,
            };
            let lines = text::lines(utf8::decode_utf8(body));
            let told = text::lines(utf8::decode_utf8(after));
            &&& utf8::valid_utf8(after)
            &&& told.len() == lines.len()
            &&& forall|j: int|
                0 <= j < lines.len() ==> is_moved(#[trigger] lines[j], told[j], addr, name)
            &&& nat_fixup::body_rewritten(body, addr, name) is None <==> forall|j: int|
                0 <= j < lines.len() ==> !(carries_addresses(#[trigger] lines[j])
                    && text::contains(lines[j], addr))
        }),
{
    let sdp = utf8::decode_utf8(body);
    let lines = text::lines(sdp);
    assert forall|j: int| 0 <= j < lines.len() implies nat_fixup::rewrites_line(
        #[trigger] lines[j],
        addr,
    ) == (carries_addresses(lines[j]) && text::contains(lines[j], addr)) by {
        lemma_carries_addresses(lines[j]);
    }
    match nat_fixup::sdp_rewritten(sdp, addr, name) {
        Some(out) => {
            utf8::encode_utf8_valid_utf8(out);
            utf8::encode_utf8_decode_utf8(out);
            assert forall|j: int| 0 <= j < lines.len() implies is_moved(
                #[trigger] lines[j],
                text::lines(out)[j],
                addr,
                name,
            ) by {
                nat_laws::law_rewriting_keeps_other_lines(sdp, addr, name, j);
                lemma_is_moved(lines[j], addr, name);
            }
            let i = choose|i: int|
                0 <= i < lines.len() && nat_fixup::rewrites_line(#[trigger] lines[i], addr);
            nat_laws::law_rewriting_keeps_other_lines(sdp, addr, name, i);
        },
        None => {
            assert forall|j: int| 0 <= j < lines.len() implies is_moved(
                #[trigger] lines[j],
                lines[j],
                addr,
                name,
            ) by {
                lemma_is_moved(lines[j], addr, name);
                assert(!nat_fixup::rewrites_line(lines[j], addr));
            }
        },
    }
}

/// Rewriting a body moves its connection and origin lines to the new address, and
/// says whether one of them held the old one; the Contact stays.
pub proof fn law_rewritten_body_is_moved(
    msg: &mut SipMessage,
    addr: &str,
    name: &str,
    r: bool,
)
    requires
        call_ensures(rewrite_sdp_body, (msg, addr, name), r),
        addr@.len() > 0,
        !text::holds(name@, '\n'),
    ensures
        final(msg)@.contact == old(msg)@.contact,
        !r ==> final(msg)@ == old(msg)@,
        r ==> old(msg)@.body.len() > 0 && utf8::valid_utf8(old(msg)@.body),
        old(msg)@.body.len() > 0 && utf8::valid_utf8(old(msg)@.body) ==> {
            let lines = text::lines(utf8::decode_utf8(old(msg)@.body));
            let moved = text::lines(utf8::decode_utf8(final(msg)@.body));
            &&& moved.len() == lines.len()
            &&& forall|j: int|
                0 <= j < lines.len() ==> is_moved(#[trigger] lines[j], moved[j], addr@, name@)
            &&& r <==> exists|j: int|
                0 <= j < lines.len() && carries_addresses(#[trigger] lines[j]) && text::contains(
                    lines[j],
                    addr@,
                )
        },
{
    if old(msg)@.body.len() > 0 && utf8::valid_utf8(old(msg)@.body) {
        lemma_body_rewritten(old(msg)@.body, addr@, name@);
    }
}

/// An external client is told the public host in place of a private Contact
/// address. Hostnames and public addresses stay, and nothing is told of the body.
pub proof fn law_external_client_is_told_the_public_host(
    local: &Option<LocalNetConfig>,
    public: &Option<PublicHostConfig>,
    target: &TxTarget,
    msg: &mut SipMessage,
    r: bool,
    request: bool,
    config: PublicHostConfig,
)
    requires
        request ==> call_ensures(on_tx_request_cb, (local, public, target, false, msg), r),
        !request ==> call_ensures(on_tx_response_cb, (local, public, target, false, msg), r),
        *public == Some(config),
        old(msg)@.contact is Some,
        old(msg)@.contact->0.host.len() > 0,
        forall|k: int| 0 <= k < config.public_host@.len() ==> config.public_host@[k] != '\0',
    ensures
        ({
            let ip = net::ipv4_of(old(msg)@.contact->0.host);
            let inside = ip is Some && (ip->0.a == 10 || (ip->0.a == 192 && ip->0.b == 168) || (
            ip->0.a == 172 && 16 <= ip->0.b <= 31));
            let known = target.has_transport && target.dst_addr_len > 0 && target.family == 2;
            let to = target.ipv4;
            let near = known && (to.a == 10 || (to.a == 192 && to.b == 168) || (to.a == 172 && 16
                <= to.b <= 31));
            &&& final(msg)@.body == old(msg)@.body
            &&& r <==> inside && !near
            &&& final(msg)@.contact == (if inside && !near {
                Some(nat_fixup::HostPort { host: config.public_host@, port: config.port as i32 })
            } else {
                old(msg)@.contact
            })
        }),
{
    assert(!config.public_host@.contains('\0'));
}

/// A Contact is given the new host and port together, or stays as it is.
pub proof fn law_contact_changes_as_a_whole(msg: &mut SipMessage, host: &str, port: u16, r: bool)
    requires
        call_ensures(rewrite_contact_host, (msg, host, port), r),
    ensures
        r <==> old(msg)@.contact is Some && old(msg)@.contact->0.host.len() > 0 && forall|k: int|
            0 <= k < host@.len() ==> #[trigger] host@[k] != '\0',
        r ==> final(msg)@.contact == Some(nat_fixup::HostPort { host: host@, port: port as i32 }),
        !r ==> final(msg)@.contact == old(msg)@.contact,
        final(msg)@.body == old(msg)@.body,
{
    assert(host@.contains('\0') <==> exists|k: int| 0 <= k < host@.len() && host@[k] == '\0');
}

/// A destination is known where the transport has an IPv4 address for it.
pub proof fn law_destination_is_that_of_the_transport(
    target: &TxTarget,
    ip: Option<Ipv4Addr>,
    private: bool,
)
    requires
        call_ensures(extract_dst_ipv4, (target,), ip),
        ip matches Some(a) ==> call_ensures(is_rfc1918, (a,), private),
    ensures
        ip is Some <==> target.has_transport && target.dst_addr_len > 0 && target.family == 2,
        ip matches Some(a) ==> a == target.ipv4 && (private <==> a.a == 10 || (a.a == 192 && a.b
            == 168) || (a.a == 172 && 16 <= a.b <= 31)),
{
}

/// An outgoing message is rewritten for a local client and then for an external
/// one, requests and responses alike, and is encoded anew if either touched it.
pub proof fn law_outgoing_message_is_rewritten_twice(
    local: &Option<LocalNetConfig>,
    public: &Option<PublicHostConfig>,
    target: &TxTarget,
    near: bool,
    msg: &mut SipMessage,
    r: bool,
    reply: &mut SipMessage,
    s: bool,
    first: &mut SipMessage,
    a: bool,
    second: &mut SipMessage,
    b: bool,
)
    requires
        call_ensures(on_tx_request_cb, (local, public, target, near, msg), r),
        call_ensures(on_tx_response_cb, (local, public, target, near, reply), s),
        call_ensures(rewrite_local_network_tdata, (local, target, near, first), a),
        call_ensures(rewrite_private_contact_for_external, (public, target, second), b),
        old(reply)@ == old(msg)@,
        old(first)@ == old(msg)@,
        old(second)@ == final(first)@,
    ensures
        final(msg)@ == final(second)@,
        final(reply)@ == final(second)@,
        r <==> a || b,
        s <==> a || b,
{
}

/// For a local client the Contact and then the body are rewritten, where the
/// destination is known and near; for others nothing is.
pub proof fn law_local_rewriting_takes_contact_and_body(
    local: &Option<LocalNetConfig>,
    target: &TxTarget,
    near: bool,
    msg: &mut SipMessage,
    r: bool,
    host: &str,
    port: u16,
    first: &mut SipMessage,
    a: bool,
    ip: &str,
    second: &mut SipMessage,
    b: bool,
)
    requires
        call_ensures(rewrite_local_network_tdata, (local, target, near, msg), r),
        *local is Some,
        host@ == (*local)->0.local_host@,
        port == (*local)->0.port,
        (*local)->0.rtp_public_ip is Some,
        ip@ == (*local)->0.rtp_public_ip->0@,
        old(first)@ == old(msg)@,
        call_ensures(rewrite_contact_host, (first, host, port), a),
        old(second)@ == final(first)@,
        call_ensures(rewrite_sdp_body, (second, ip, host), b),
    ensures
        ({
            let known = target.has_transport && target.dst_addr_len > 0 && target.family == 2;
            &&& known && near ==> final(msg)@ == final(second)@ && (r <==> a || b)
            &&& !(known && near) ==> final(msg)@ == old(msg)@ && !r
        }),
{
}

// Several media sections

proof fn lemma_next_media_in(lines: Seq<Seq<char>>, n: int, i: int)
    requires
        0 <= i <= n <= lines.len(),
        n < lines.len() ==> text::starts_with(lines[n], "m="@),
    ensures
        nat_fixup::next_media(lines, i) == nat_fixup::next_media(lines.take(n), i),
        nat_fixup::next_media(lines, i) <= n,
    decreases n - i,
{
    if i < n {
        assert(lines.take(n)[i] == lines[i]);
        if !text::starts_with(lines[i], "m="@) {
            lemma_next_media_in(lines, n, i + 1);
        }
    }
}

proof fn lemma_next_media_behind(lines: Seq<Seq<char>>, n: int, i: int)
    requires
        0 <= n <= i <= lines.len(),
    ensures
        nat_fixup::next_media(lines, i) == n + nat_fixup::next_media(lines.skip(n), i - n),
    decreases lines.len() - i,
{
    if i < lines.len() {
        assert(lines.skip(n)[i - n] == lines[i]);
        if !text::starts_with(lines[i], "m="@) {
            lemma_next_media_behind(lines, n, i + 1);
        }
    }
}

proof fn lemma_sections_behind(lines: Seq<Seq<char>>, n: int, i: int)
    requires
        0 <= n <= i <= lines.len(),
    ensures
        nat_fixup::sanitized_from(lines, i) == nat_fixup::sanitized_from(lines.skip(n), i - n),
        nat_fixup::changes_from(lines, i) == nat_fixup::changes_from(lines.skip(n), i - n),
    decreases lines.len() - i,
{
    if i < lines.len() {
        nat_fixup::lemma_next_media(lines, i + 1);
        lemma_next_media_behind(lines, n, i + 1);
        let end = nat_fixup::next_media(lines, i + 1);
        assert(lines.skip(n)[i - n] == lines[i]);
        assert(lines.skip(n).subrange(i + 1 - n, end - n) =~= lines.subrange(i + 1, end));
        lemma_sections_behind(lines, n, end);
    }
}

proof fn lemma_sections_part(lines: Seq<Seq<char>>, n: int, i: int)
    requires
        0 <= i <= n < lines.len(),
        text::starts_with(lines[n], "m="@),
    ensures
        nat_fixup::sanitized_from(lines, i) == nat_fixup::sanitized_from(lines.take(n), i)
            + nat_fixup::sanitized_from(lines, n),
        nat_fixup::changes_from(lines, i) == (nat_fixup::changes_from(lines.take(n), i)
            || nat_fixup::changes_from(lines, n)),
    decreases n - i,
{
    let head = lines.take(n);
    if i < n {
        nat_fixup::lemma_next_media(lines, i + 1);
        lemma_next_media_in(lines, n, i + 1);
        let end = nat_fixup::next_media(lines, i + 1);
        assert(head[i] == lines[i]);
        assert(head.subrange(i + 1, end) =~= lines.subrange(i + 1, end));
        lemma_sections_part(lines, n, end);
        let section = nat_fixup::sanitized_section(lines[i], lines.subrange(i + 1, end));
        assert(section + (nat_fixup::sanitized_from(head, end) + nat_fixup::sanitized_from(
            lines,
            n,
        )) =~= section + nat_fixup::sanitized_from(head, end) + nat_fixup::sanitized_from(
            lines,
            n,
        ));
    } else {
        assert(nat_fixup::sanitized_from(head, i) =~= Seq::<Seq<char>>::empty());
        assert(nat_fixup::sanitized_from(lines, n) =~= Seq::<Seq<char>>::empty()
            + nat_fixup::sanitized_from(lines, n));
    }
}

proof fn lemma_unchanged(lines: Seq<Seq<char>>, i: int)
    requires
        0 <= i <= lines.len(),
        !nat_fixup::changes_from(lines, i),
    ensures
        nat_fixup::sanitized_from(lines, i) == lines.skip(i),
    decreases lines.len() - i,
{
    if i < lines.len() {
        nat_fixup::lemma_next_media(lines, i + 1);
        let end = nat_fixup::next_media(lines, i + 1);
        let attrs = lines.subrange(i + 1, end);
        lemma_unchanged(lines, end);
        assert(lines.skip(i) =~= seq![lines[i]] + attrs + lines.skip(end));
    } else {
        assert(lines.skip(i) =~= Seq::<Seq<char>>::empty());
    }
}

/// The lines of a description after it was cleaned, or as they are.
pub open spec fn lines_after(sdp: Seq<char>, clean: Option<String>) -> Seq<Seq<char>> {
    match clean {
        Some(t) => text::lines(t@),
        None => text::lines(sdp),
    }
}

proof fn lemma_lines_after(sdp: Seq<char>, clean: Option<String>)
    requires
        text::opt_text(clean) == nat_fixup::sanitized(sdp),
    ensures
        lines_after(sdp, clean) == nat_fixup::sanitized_lines(text::lines(sdp)),
{
    let lines = text::lines(sdp);
    let first = nat_fixup::next_media(lines, 0);
    nat_fixup::lemma_next_media(lines, 0);
    if clean is Some {
        nat_laws::lemma_sanitized_text(sdp);
    } else {
        lemma_unchanged(lines, first);
        assert(lines.take(first) + lines.skip(first) =~= lines);
    }
}

/// Each media section is cleaned for itself: a description is cleaned as its parts
/// are, wherever it is parted before a media line.
pub proof fn law_sections_are_cleaned_one_by_one(
    sdp: &str,
    clean: Option<String>,
    head: &str,
    head_clean: Option<String>,
    tail: &str,
    tail_clean: Option<String>,
)
    requires
        call_ensures(sanitize_sdp_missing_rtpmap, (sdp,), clean),
        call_ensures(sanitize_sdp_missing_rtpmap, (head,), head_clean),
        call_ensures(sanitize_sdp_missing_rtpmap, (tail,), tail_clean),
        text::lines(sdp@) == text::lines(head@) + text::lines(tail@),
        text::lines(tail@).len() > 0,
        text::starts_with(text::lines(tail@)[0], "m="@),
    ensures
        lines_after(sdp@, clean) == lines_after(head@, head_clean) + lines_after(tail@, tail_clean),
        clean is Some <==> head_clean is Some || tail_clean is Some,
{
    let all = text::lines(sdp@);
    let front = text::lines(head@);
    let back = text::lines(tail@);
    let n = front.len() as int;
    assert(all.take(n) =~= front);
    assert(all.skip(n) =~= back);
    assert(all[n] == back[0]);
    lemma_next_media_in(all, n, 0);
    nat_fixup::lemma_next_media(all, 0);
    nat_fixup::lemma_next_media(front, 0);
    let first = nat_fixup::next_media(all, 0);
    assert(first == nat_fixup::next_media(front, 0));
    lemma_sections_part(all, n, first);
    lemma_sections_behind(all, n, n);
    assert(nat_fixup::next_media(back, 0) == 0);
    lemma_lines_after(sdp@, clean);
    lemma_lines_after(head@, head_clean);
    lemma_lines_after(tail@, tail_clean);
    assert(all.take(first) =~= front.take(first));
    assert(back.take(0) =~= Seq::<Seq<char>>::empty());
    assert(nat_fixup::sanitized_lines(all) =~= nat_fixup::sanitized_lines(front)
        + nat_fixup::sanitized_lines(back));
}

} // verus!
