//! Rewriting of Contact headers and SDP bodies across NAT.
//!
//! - Outgoing messages: clients in the local network are given the local host,
//!   external clients the public host in place of a private Contact address.
//! - Incoming messages: private addresses are replaced by the address the
//!   packet came from, and SDP that lacks `a=rtpmap` lines is sanitized.

use crate::net;
use crate::net::{parse_ipv4, Ipv4Addr};
use crate::text;
use crate::text::{
    after_prefix, begins, copy_of, from_chars, has, has_nul, join_of, lines_of, parse_u32, push_chars,
    push_str, replace_of, to_chars, trim_of, utf8_text, words_of,
};
use vstd::prelude::*;
use vstd::utf8;

verus! {

broadcast use vstd::string::group_string_axioms;

/// The first dynamic RTP payload type.
pub const FIRST_DYNAMIC_PT: u32 = 96;

// Sanitizing of media sections

/// The payload type that a word denotes.
pub open spec fn payload_type(word: Seq<char>) -> Option<nat> {
    text::parse_unsigned(word, u32::MAX as nat)
}

/// The payload type that an attribute line names behind `prefix`.
pub open spec fn attribute_pt(line: Seq<char>, prefix: Seq<char>) -> Option<nat> {
    let rest = text::words(line.skip(prefix.len() as int));
    if text::starts_with(line, prefix) && rest.len() > 0 {
        payload_type(rest[0])
    } else {
        None
    }
}

/// Whether an `a=rtpmap` line among `attrs` declares the payload type.
pub open spec fn declared(attrs: Seq<Seq<char>>, pt: nat) -> bool {
    exists|i: int|
        0 <= i < attrs.len() && #[trigger] attribute_pt(attrs[i], "a=rtpmap:"@) == Some(pt)
}

/// Whether a word of the `m=` line is a dynamic payload type without `a=rtpmap`.
pub open spec fn orphan(word: Seq<char>, attrs: Seq<Seq<char>>) -> bool {
    payload_type(word) matches Some(pt) && pt >= FIRST_DYNAMIC_PT && !declared(attrs, pt)
}

/// The words of an `m=` line that stay.
pub open spec fn keeps_word(attrs: Seq<Seq<char>>) -> spec_fn(Seq<char>) -> bool {
    |word: Seq<char>| !orphan(word, attrs)
}

/// Whether a payload type is one of the orphans among `formats`.
pub open spec fn stripped(formats: Seq<Seq<char>>, attrs: Seq<Seq<char>>, pt: nat) -> bool {
    exists|i: int|
        0 <= i < formats.len() && orphan(#[trigger] formats[i], attrs) && payload_type(formats[i])
            == Some(pt)
}

/// The attribute lines that stay: all but the `a=fmtp` lines of orphans.
pub open spec fn keeps_line(formats: Seq<Seq<char>>, attrs: Seq<Seq<char>>) -> spec_fn(
    Seq<char>,
) -> bool {
    |line: Seq<char>|
        !(attribute_pt(line, "a=fmtp:"@) matches Some(pt) && stripped(formats, attrs, pt))
}

/// The formats of an `m=` line: its words behind media, port and transport.
pub open spec fn formats_of(m_line: Seq<char>) -> Seq<Seq<char>> {
    text::words(m_line).skip(3)
}

/// Whether a media section loses payload types: it is RTP, and some but not
/// all of its formats are orphans.
pub open spec fn section_changes(m_line: Seq<char>, attrs: Seq<Seq<char>>) -> bool {
    let parts = text::words(m_line);
    let kept = formats_of(m_line).filter(keeps_word(attrs));
    &&& parts.len() >= 4
    &&& text::starts_with(parts[2], "RTP/"@)
    &&& kept.len() > 0
    &&& kept.len() < formats_of(m_line).len()
}

/// The `m=` line without its orphans.
pub open spec fn sanitized_m_line(m_line: Seq<char>, attrs: Seq<Seq<char>>) -> Seq<char> {
    let parts = text::words(m_line);
    parts[0] + " "@ + parts[1] + " "@ + parts[2] + " "@ + text::join(
        formats_of(m_line).filter(keeps_word(attrs)),
        " "@,
    )
}

/// The lines of one media section after sanitizing.
pub open spec fn sanitized_section(m_line: Seq<char>, attrs: Seq<Seq<char>>) -> Seq<Seq<char>> {
    if section_changes(m_line, attrs) {
        seq![sanitized_m_line(m_line, attrs)] + attrs.filter(keeps_line(formats_of(m_line), attrs))
    } else {
        seq![m_line] + attrs
    }
}

/// The first line at or after `i` that begins a media section, or the end.
pub open spec fn next_media(lines: Seq<Seq<char>>, i: int) -> int
    decreases lines.len() - i,
{
    if i >= lines.len() {
        lines.len() as int
    } else if text::starts_with(lines[i], "m="@) {
        i
    } else {
        next_media(lines, i + 1)
    }
}

/// The sanitized lines of the media sections from the `m=` line `i` on.
pub open spec fn sanitized_from(lines: Seq<Seq<char>>, i: int) -> Seq<Seq<char>>
    decreases lines.len() - i,
{
    if i < 0 || i >= lines.len() {
        Seq::empty()
    } else {
        let end = next_media(lines, i + 1);
        proof {
            lemma_next_media(lines, i + 1);
        }
        sanitized_section(lines[i], lines.subrange(i + 1, end)) + sanitized_from(lines, end)
    }
}

/// Whether a media section from the `m=` line `i` on loses payload types.
pub open spec fn changes_from(lines: Seq<Seq<char>>, i: int) -> bool
    decreases lines.len() - i,
{
    if i < 0 || i >= lines.len() {
        false
    } else {
        let end = next_media(lines, i + 1);
        proof {
            lemma_next_media(lines, i + 1);
        }
        section_changes(lines[i], lines.subrange(i + 1, end)) || changes_from(lines, end)
    }
}

/// All lines after sanitizing: the session lines as they are, then the media
/// sections.
pub open spec fn sanitized_lines(lines: Seq<Seq<char>>) -> Seq<Seq<char>> {
    lines.take(next_media(lines, 0)) + sanitized_from(lines, next_media(lines, 0))
}

/// What sanitizing an SDP text gives, where it changes anything.
pub open spec fn sanitized(sdp: Seq<char>) -> Option<Seq<char>> {
    let lines = text::lines(sdp);
    if changes_from(lines, next_media(lines, 0)) {
        Some(text::join(sanitized_lines(lines), "\r\n"@) + "\r\n"@)
    } else {
        None
    }
}

pub proof fn lemma_next_media(lines: Seq<Seq<char>>, i: int)
    requires
        0 <= i <= lines.len(),
    ensures
        i <= next_media(lines, i) <= lines.len(),
        next_media(lines, i) < lines.len() ==> text::starts_with(
            lines[next_media(lines, i)],
            "m="@,
        ),
        forall|j: int|
            i <= j < next_media(lines, i) ==> !text::starts_with(#[trigger] lines[j], "m="@),
    decreases lines.len() - i,
{
    if i < lines.len() && !text::starts_with(lines[i], "m="@) {
        lemma_next_media(lines, i + 1);
    }
}

fn payload_type_of(word: &Vec<char>) -> (r: Option<u32>)
    ensures
        match r {
            Some(n) => payload_type(word@) == Some(n as nat),
            None => payload_type(word@) is None,
        },
{
    parse_u32(word)
}

fn attribute_pt_of(line: &Vec<char>, prefix: &str) -> (r: Option<u32>)
    ensures
        match r {
            Some(n) => attribute_pt(line@, prefix@) == Some(n as nat),
            None => attribute_pt(line@, prefix@) is None,
        },
{
    match after_prefix(line, prefix) {
        Some(rest) => {
            let ws = words_of(&rest);
            assert(text::texts(ws@).len() == ws@.len());
            if ws.len() > 0 {
                assert(text::texts(ws@)[0] == ws@[0]@);
                payload_type_of(&ws[0])
            } else {
                None
            }
        },
        None => None,
    }
}

fn is_declared(attrs: &Vec<Vec<char>>, pt: u32) -> (r: bool)
    ensures
        r == declared(text::texts(attrs@), pt as nat),
{
    let ghost all = text::texts(attrs@);
    for i in 0..attrs.len()
        invariant
            all == text::texts(attrs@),
            forall|j: int|
                0 <= j < i ==> #[trigger] attribute_pt(all[j], "a=rtpmap:"@) != Some(pt as nat),
    {
        assert(all[i as int] == attrs@[i as int]@);
        if let Some(n) = attribute_pt_of(&attrs[i], "a=rtpmap:") {
            if n == pt {
                return true;
            }
        }
    }
    false
}

fn orphan_pt(word: &Vec<char>, attrs: &Vec<Vec<char>>) -> (r: Option<u32>)
    ensures
        r is Some <==> orphan(word@, text::texts(attrs@)),
        r matches Some(pt) ==> payload_type(word@) == Some(pt as nat),
{
    match payload_type_of(word) {
        Some(pt) => if pt >= FIRST_DYNAMIC_PT && !is_declared(attrs, pt) {
            Some(pt)
        } else {
            None
        },
        None => None,
    }
}

fn copy_lines(out: &mut Vec<Vec<char>>, lines: &Vec<Vec<char>>, from: usize, to: usize)
    requires
        from <= to <= lines@.len(),
    ensures
        text::texts(final(out)@) == text::texts(old(out)@) + text::texts(lines@).subrange(
            from as int,
            to as int,
        ),
{
    let ghost start = text::texts(out@);
    let ghost all = text::texts(lines@);
    for i in from..to
        invariant
            from <= to <= lines@.len(),
            all == text::texts(lines@),
            text::texts(out@) == start + all.subrange(from as int, i as int),
    {
        let ghost before = out@;
        let line = copy_of(&lines[i]);
        out.push(line);
        assert(text::texts(out@) =~= text::texts(before).push(line@));
        assert(all.subrange(from as int, i + 1) =~= all.subrange(from as int, i as int).push(
            all[i as int],
        ));
    }
}

pub proof fn lemma_filter_take(s: Seq<Seq<char>>, pred: spec_fn(Seq<char>) -> bool, n: int)
    requires
        0 <= n < s.len(),
    ensures
        s.take(n + 1).filter(pred) == (if pred(s[n]) {
            s.take(n).filter(pred).push(s[n])
        } else {
            s.take(n).filter(pred)
        }),
{
    reveal(Seq::filter);
    assert(s.take(n + 1).drop_last() =~= s.take(n));
    assert(s.take(n + 1).last() == s[n]);
}

/// Writes the sanitized lines of one media section to `out` and says whether
/// the section lost payload types.
fn sanitize_section(out: &mut Vec<Vec<char>>, m_line: &Vec<char>, attrs: &Vec<Vec<char>>) -> (r:
    bool)
    ensures
        r == section_changes(m_line@, text::texts(attrs@)),
        text::texts(final(out)@) == text::texts(old(out)@) + sanitized_section(
            m_line@,
            text::texts(attrs@),
        ),
{
    let ghost start = text::texts(out@);
    let ghost lines = text::texts(attrs@);
    let ghost parts_view = text::words(m_line@);
    let ghost formats = formats_of(m_line@);
    let parts = words_of(m_line);
    assert(parts_view.len() == parts@.len());
    assert(forall|i: int| 0 <= i < parts_view.len() ==> #[trigger] parts_view[i] == parts@[i]@);
    let eligible = parts.len() >= 4 && begins(&parts[2], "RTP/");
    let mut kept: Vec<Vec<char>> = Vec::new();
    let mut removed: Vec<u32> = Vec::new();
    if eligible {
        assert(formats.take(0) =~= Seq::<Seq<char>>::empty());
        reveal(Seq::filter);
        assert(formats.len() == parts@.len() - 3);
        for i in 3..parts.len()
            invariant
                parts@.len() >= 4,
                lines == text::texts(attrs@),
                parts_view == text::words(m_line@),
                formats == formats_of(m_line@),
                parts_view.len() == parts@.len(),
                formats.len() == parts@.len() - 3,
                forall|j: int|
                    0 <= j < parts_view.len() ==> #[trigger] parts_view[j] == parts@[j]@,
                text::texts(kept@) == formats.take(i - 3).filter(keeps_word(lines)),
                kept@.len() + removed@.len() == i - 3,
                forall|pt: u32|
                    removed@.contains(pt) <==> stripped(formats.take(i - 3), lines, pt as nat),
        {
            assert(formats[i - 3] == parts@[i as int]@);
            let ghost before = formats.take(i - 3);
            let ghost after = formats.take(i - 2);
            proof {
                lemma_filter_take(formats, keeps_word(lines), i - 3);
                assert(after =~= before.push(formats[i - 3]));
            }
            let ghost kept_before = kept@;
            let ghost removed_before = removed@;
            match orphan_pt(&parts[i], attrs) {
                Some(pt) => {
                    removed.push(pt);
                    assert forall|p: u32| removed@.contains(p) <==> stripped(after, lines, p as nat) by {
                        assert(removed@ =~= removed_before.push(pt));
                        if removed@.contains(p) {
                            if p == pt {
                                assert(after[i - 3] == formats[i - 3]);
                                assert(stripped(after, lines, p as nat));
                            } else {
                                let k = choose|k: int|
                                    0 <= k < removed@.len() && removed@[k] == p;
                                assert(removed_before[k] == p);
                                assert(removed_before.contains(p));
                                let m = choose|m: int|
                                    0 <= m < before.len() && orphan(#[trigger] before[m], lines)
                                        && payload_type(before[m]) == Some(p as nat);
                                assert(after[m] == before[m]);
                            }
                        }
                        if stripped(after, lines, p as nat) {
                            let m = choose|m: int|
                                0 <= m < after.len() && orphan(#[trigger] after[m], lines)
                                    && payload_type(after[m]) == Some(p as nat);
                            if m < i - 3 {
                                assert(before[m] == after[m]);
                                assert(removed_before.contains(p));
                                let k = choose|k: int|
                                    0 <= k < removed_before.len() && removed_before[k] == p;
                                assert(removed@[k] == p);
                            } else {
                                assert(removed@[removed@.len() - 1] == p);
                            }
                        }
                    }
                },
                None => {
                    let word = copy_of(&parts[i]);
                    kept.push(word);
                    assert(text::texts(kept@) =~= text::texts(kept_before).push(word@));
                    assert forall|p: u32| removed@.contains(p) <==> stripped(after, lines, p as nat) by {
                        if stripped(after, lines, p as nat) {
                            let m = choose|m: int|
                                0 <= m < after.len() && orphan(#[trigger] after[m], lines)
                                    && payload_type(after[m]) == Some(p as nat);
                            assert(m < i - 3);
                            assert(before[m] == after[m]);
                        }
                        if stripped(before, lines, p as nat) {
                            let m = choose|m: int|
                                0 <= m < before.len() && orphan(#[trigger] before[m], lines)
                                    && payload_type(before[m]) == Some(p as nat);
                            assert(after[m] == before[m]);
                        }
                    }
                },
            }
        }
        assert(formats.take(formats.len() as int) =~= formats);
    }
    assert(text::texts(kept@).len() == kept@.len());
    if !eligible || removed.len() == 0 || kept.len() == 0 {
        let line = copy_of(m_line);
        let ghost before = out@;
        out.push(line);
        assert(text::texts(out@) =~= start.push(m_line@));
        copy_lines(out, attrs, 0, attrs.len());
        assert(lines.subrange(0, lines.len() as int) =~= lines);
        assert(text::texts(out@) =~= start + (seq![m_line@] + lines));
        return false;
    }
    let mut new_line = copy_of(&parts[0]);
    push_str(&mut new_line, " ");
    push_chars(&mut new_line, &parts[1]);
    push_str(&mut new_line, " ");
    push_chars(&mut new_line, &parts[2]);
    push_str(&mut new_line, " ");
    let list = join_of(&kept, " ");
    push_chars(&mut new_line, &list);
    let ghost head = sanitized_m_line(m_line@, lines);
    assert(new_line@ == head);
    out.push(new_line);
    let ghost base = text::texts(out@);
    assert(base =~= start.push(head));
    let ghost pred = keeps_line(formats, lines);
    assert(lines.take(0).filter(pred) =~= Seq::<Seq<char>>::empty()) by {
        reveal(Seq::filter);
    }
    for i in 0..attrs.len()
        invariant
            lines == text::texts(attrs@),
            pred == keeps_line(formats, lines),
            forall|pt: u32| removed@.contains(pt) <==> stripped(formats, lines, pt as nat),
            text::texts(out@) == base + lines.take(i as int).filter(pred),
    {
        let ghost before = out@;
        proof {
            assert(lines[i as int] == attrs@[i as int]@);
            lemma_filter_take(lines, pred, i as int);
        }
        let drop = match attribute_pt_of(&attrs[i], "a=fmtp:") {
            Some(pt) => holds(&removed, pt),
            None => false,
        };
        if !drop {
            let line = copy_of(&attrs[i]);
            out.push(line);
            assert(text::texts(out@) =~= text::texts(before).push(line@));
        }
    }
    assert(lines.take(lines.len() as int) =~= lines);
    assert(text::texts(out@) =~= start + (seq![head] + lines.filter(pred)));
    true
}

fn holds(list: &Vec<u32>, n: u32) -> (r: bool)
    ensures
        r == list@.contains(n),
{
    for i in 0..list.len()
        invariant
            forall|j: int| 0 <= j < i ==> list@[j] != n,
    {
        if list[i] == n {
            return true;
        }
    }
    false
}

fn next_media_of(lines: &Vec<Vec<char>>, from: usize) -> (r: usize)
    requires
        from <= lines@.len(),
    ensures
        r == next_media(text::texts(lines@), from as int),
        from <= r <= lines@.len(),
{
    let ghost all = text::texts(lines@);
    let mut i: usize = from;
    while i < lines.len()
        invariant
            all == text::texts(lines@),
            from <= i <= lines@.len(),
            next_media(all, from as int) == next_media(all, i as int),
        decreases lines@.len() - i,
    {
        assert(all[i as int] == lines@[i as int]@);
        if begins(&lines[i], "m=") {
            return i;
        }
        i = i + 1;
    }
    i
}

/// Removes dynamic payload types from `m=` lines of RTP media that have no
/// `a=rtpmap` attribute in their section, with their `a=fmtp` lines. A section
/// that would lose all payload types stays as it is.
///
/// Gives nothing when nothing has to be removed.
pub fn sanitize_sdp_missing_rtpmap(sdp: &str) -> (r: Option<String>)
    ensures
        text::opt_text(r) == sanitized(sdp@),
{
    let lines = lines_of(&to_chars(sdp));
    let ghost all = text::lines(sdp@);
    let mut out: Vec<Vec<char>> = Vec::new();
    let mut changed = false;
    let first = next_media_of(&lines, 0);
    copy_lines(&mut out, &lines, 0, first);
    let ghost head = all.take(first as int);
    assert(text::texts(out@) =~= head);
    assert(text::texts(out@) + sanitized_from(all, first as int) =~= sanitized_lines(all));
    let mut start: usize = first;
    while start < lines.len()
        invariant
            all == text::texts(lines@),
            start <= lines@.len(),
            text::texts(out@) + sanitized_from(all, start as int) == sanitized_lines(all),
            (changed || changes_from(all, start as int)) == changes_from(all, next_media(all, 0)),
        decreases lines@.len() - start,
    {
        let end = next_media_of(&lines, start + 1);
        let mut attrs: Vec<Vec<char>> = Vec::new();
        copy_lines(&mut attrs, &lines, start + 1, end);
        assert(text::texts(attrs@) =~= all.subrange(start + 1, end as int));
        assert(all[start as int] == lines@[start as int]@);
        let ghost before = text::texts(out@);
        if sanitize_section(&mut out, &lines[start], &attrs) {
            changed = true;
        }
        assert(text::texts(out@) + sanitized_from(all, end as int) =~= before + sanitized_from(
            all,
            start as int,
        ));
        start = end;
    }
    assert(text::texts(out@) =~= sanitized_lines(all));
    if changed {
        let mut joined = join_of(&out, "\r\n");
        push_str(&mut joined, "\r\n");
        Some(from_chars(&joined))
    } else {
        None
    }
}

// Addresses

/// The private IPv4 networks 10/8, 172.16/12 and 192.168/16.
pub open spec fn private_ipv4(ip: Ipv4Addr) -> bool {
    ||| ip.a == 10
    ||| (ip.a == 172 && 16 <= ip.b <= 31)
    ||| (ip.a == 192 && ip.b == 168)
}

/// Whether an IPv4 address is in RFC 1918 private space.
pub fn is_rfc1918(ip: Ipv4Addr) -> (r: bool)
    ensures
        r == private_ipv4(ip),
{
    ip.a == 10 || (ip.a == 172 && 16 <= ip.b && ip.b <= 31) || (ip.a == 192 && ip.b == 168)
}

/// The address family of IPv4 in a socket address.
pub const AF_INET: u16 = 2;

/// Where an outgoing message goes, as its transport information tells.
#[derive(Clone, Copy, Debug)]
pub struct TxTarget {
    /// Whether a transport was chosen.
    pub has_transport: bool,
    /// The length of the destination address; none is set if it is not positive.
    pub dst_addr_len: i32,
    /// The family of the destination address.
    pub family: u16,
    /// The destination, where the family is IPv4.
    pub ipv4: Ipv4Addr,
}

pub open spec fn dst_ipv4(target: TxTarget) -> Option<Ipv4Addr> {
    if target.has_transport && target.dst_addr_len > 0 && target.family == AF_INET {
        Some(target.ipv4)
    } else {
        None
    }
}

/// The destination IPv4 address of an outgoing message, where it has one.
pub fn extract_dst_ipv4(target: &TxTarget) -> (r: Option<Ipv4Addr>)
    ensures
        r == dst_ipv4(*target),
{
    if !target.has_transport || target.dst_addr_len <= 0 {
        return None;
    }
    if target.family == AF_INET {
        Some(target.ipv4)
    } else {
        None
    }
}

// Messages

/// Host and port of the SIP URI in a Contact header.
#[derive(Debug)]
pub struct ContactHost {
    pub host: String,
    pub port: i32,
}

/// The parts of a SIP message that NAT rewriting looks at.
#[derive(Debug)]
pub struct SipMessage {
    /// The Contact header, where there is one that holds a SIP URI.
    pub contact: Option<ContactHost>,
    /// The message body; empty if there is none.
    pub body: Vec<u8>,
}

/// Host and port of a Contact in the model.
pub ghost struct HostPort {
    pub host: Seq<char>,
    pub port: i32,
}

/// A SIP message in the model.
pub ghost struct MessageView {
    pub contact: Option<HostPort>,
    pub body: Seq<u8>,
}

impl View for SipMessage {
    type V = MessageView;

    open spec fn view(&self) -> MessageView {
        MessageView {
            contact: match self.contact {
                Some(c) => Some(HostPort { host: c.host@, port: c.port }),
                None => None,
            },
            body: self.body@,
        }
    }
}

/// A host that fits in a Contact header: no NUL character.
pub open spec fn is_host(host: Seq<char>) -> bool {
    !host.contains('\0')
}

/// Whether the Contact of a message can be given a new host.
pub open spec fn contact_can_change(msg: MessageView, new_host: Seq<char>) -> bool {
    msg.contact matches Some(c) && c.host.len() > 0 && is_host(new_host)
}

/// Gives the Contact header a new host and port. Says whether it did: there
/// must be a Contact with a host, and the new host must hold no NUL character.
pub fn rewrite_contact_host(msg: &mut SipMessage, new_host: &str, new_port: u16) -> (r: bool)
    ensures
        r == contact_can_change(old(msg)@, new_host@),
        final(msg)@ == (if r {
            (MessageView { contact: Some(HostPort { host: new_host@, port: new_port as i32 }), ..old(msg)@ })
        } else {
            old(msg)@
        }),
{
    let can = match &msg.contact {
        Some(c) => !c.host.as_str().is_empty(),
        None => false,
    };
    if !can || has_nul(&to_chars(new_host)) {
        return false;
    }
    msg.contact = Some(ContactHost { host: new_host.to_owned(), port: new_port as i32 });
    true
}

/// Whether a line carries an address that the rewriting replaces: a connection
/// or origin line that holds `old_ip`.
pub open spec fn rewrites_line(line: Seq<char>, old_ip: Seq<char>) -> bool {
    (text::starts_with(line, "c="@) || text::starts_with(line, "o="@)) && text::contains(
        line,
        old_ip,
    )
}

/// One line of an SDP text after rewriting.
pub open spec fn rewritten_line(line: Seq<char>, old_ip: Seq<char>, new_ip: Seq<char>) -> Seq<
    char,
> {
    if rewrites_line(line, old_ip) {
        text::replaced(line, old_ip, new_ip)
    } else {
        line
    }
}

/// An SDP text with `old_ip` replaced in its `c=` and `o=` lines, where one of
/// them holds it.
pub open spec fn sdp_rewritten(sdp: Seq<char>, old_ip: Seq<char>, new_ip: Seq<char>) -> Option<
    Seq<char>,
> {
    let lines = text::lines(sdp);
    if exists|i: int| 0 <= i < lines.len() && rewrites_line(#[trigger] lines[i], old_ip) {
        Some(
            text::join(
                lines.map_values(|line: Seq<char>| rewritten_line(line, old_ip, new_ip)),
                "\r\n"@,
            ) + "\r\n"@,
        )
    } else {
        None
    }
}

/// The text that a body holds: nothing for an empty body or one that is not
/// UTF-8.
pub open spec fn body_text(body: Seq<u8>) -> Option<Seq<char>> {
    if body.len() > 0 && utf8::valid_utf8(body) {
        Some(utf8::decode_utf8(body))
    } else {
        None
    }
}

/// A body with `old_ip` replaced in its `c=` and `o=` lines.
pub open spec fn body_rewritten(body: Seq<u8>, old_ip: Seq<char>, new_ip: Seq<char>) -> Option<
    Seq<u8>,
> {
    match body_text(body) {
        Some(sdp) => match sdp_rewritten(sdp, old_ip, new_ip) {
            Some(t) => Some(utf8::encode_utf8(t)),
            None => None,
        },
        None => None,
    }
}

fn text_of_body(body: &Vec<u8>) -> (r: Option<String>)
    ensures
        text::opt_text(r) == body_text(body@),
{
    if body.len() == 0 {
        None
    } else {
        utf8_text(body)
    }
}

fn rewrite_sdp_text(sdp: &str, old_ip: &str, new_ip: &str) -> (r: Option<String>)
    ensures
        text::opt_text(r) == sdp_rewritten(sdp@, old_ip@, new_ip@),
{
    let lines = lines_of(&to_chars(sdp));
    let old_chars = to_chars(old_ip);
    let new_chars = to_chars(new_ip);
    let ghost all = text::lines(sdp@);
    let ghost f = |line: Seq<char>| rewritten_line(line, old_ip@, new_ip@);
    let mut out: Vec<Vec<char>> = Vec::new();
    let mut changed = false;
    for i in 0..lines.len()
        invariant
            all == text::texts(lines@),
            f == (|line: Seq<char>| rewritten_line(line, old_ip@, new_ip@)),
            old_chars@ == old_ip@,
            new_chars@ == new_ip@,
            text::texts(out@) == all.map_values(f).take(i as int),
            changed == exists|j: int| 0 <= j < i && rewrites_line(#[trigger] all[j], old_ip@),
    {
        assert(all[i as int] == lines@[i as int]@);
        let ghost before = out@;
        let line = if (begins(&lines[i], "c=") || begins(&lines[i], "o=")) && has(
            &lines[i],
            &old_chars,
        ) {
            changed = true;
            replace_of(&lines[i], &old_chars, &new_chars)
        } else {
            copy_of(&lines[i])
        };
        assert(line@ == rewritten_line(all[i as int], old_ip@, new_ip@));
        out.push(line);
        assert(text::texts(out@) =~= text::texts(before).push(line@));
        assert(all.map_values(f).take(i + 1) =~= all.map_values(f).take(i as int).push(
            f(all[i as int]),
        ));
    }
    assert(all.map_values(f).take(all.len() as int) =~= all.map_values(f));
    if !changed {
        return None;
    }
    let mut joined = join_of(&out, "\r\n");
    push_str(&mut joined, "\r\n");
    Some(from_chars(&joined))
}

/// Replaces `old_ip` by `new_ip` in the SDP body, in its `c=` and `o=` lines
/// alone, so that attribute values that hold the same text are kept. Says
/// whether a line was changed.
pub fn rewrite_sdp_body(msg: &mut SipMessage, old_ip: &str, new_ip: &str) -> (r: bool)
    ensures
        r == body_rewritten(old(msg)@.body, old_ip@, new_ip@) is Some,
        final(msg)@ == (match body_rewritten(old(msg)@.body, old_ip@, new_ip@) {
            Some(body) => (MessageView { body, ..old(msg)@ }),
            None => old(msg)@,
        }),
{
    match text_of_body(&msg.body) {
        Some(sdp) => match rewrite_sdp_text(sdp.as_str(), old_ip, new_ip) {
            Some(t) => {
                msg.body = t.as_str().as_bytes_vec();
                true
            },
            None => false,
        },
        None => false,
    }
}

// Outgoing messages

/// How clients of the local network reach the bridge.
#[derive(Debug)]
pub struct LocalNetConfig {
    pub local_host: String,
    pub port: u16,
    /// The public address that media descriptions carry.
    pub rtp_public_ip: Option<String>,
}

/// How external clients reach the bridge.
#[derive(Debug)]
pub struct PublicHostConfig {
    pub public_host: String,
    pub port: u16,
}

/// The message after the rewriting for a local client.
pub open spec fn local_rewritten(
    config: Option<LocalNetConfig>,
    dst: Option<Ipv4Addr>,
    dst_is_local: bool,
    msg: MessageView,
) -> MessageView {
    match config {
        Some(c) if dst is Some && dst_is_local => MessageView {
            contact: if contact_can_change(msg, c.local_host@) {
                Some(HostPort { host: c.local_host@, port: c.port as i32 })
            } else {
                msg.contact
            },
            body: match c.rtp_public_ip {
                Some(ip) => match body_rewritten(msg.body, ip@, c.local_host@) {
                    Some(body) => body,
                    None => msg.body,
                },
                None => msg.body,
            },
        },
        _ => msg,
    }
}

/// Whether the rewriting for a local client touches the message.
pub open spec fn local_touches(
    config: Option<LocalNetConfig>,
    dst: Option<Ipv4Addr>,
    dst_is_local: bool,
    msg: MessageView,
) -> bool {
    &&& config is Some
    &&& dst is Some
    &&& dst_is_local
    &&& (contact_can_change(msg, config->0.local_host@) || (config->0.rtp_public_ip matches Some(
        ip,
    ) && body_rewritten(msg.body, ip@, config->0.local_host@) is Some))
}

/// Rewrites Contact and SDP of an outgoing message for a client of the local
/// network. `dst_is_local` says whether the destination lies in the local
/// network. Returns whether anything was rewritten.
pub fn rewrite_local_network_tdata(
    config: &Option<LocalNetConfig>,
    target: &TxTarget,
    dst_is_local: bool,
    msg: &mut SipMessage,
) -> (r: bool)
    ensures
        r == local_touches(*config, dst_ipv4(*target), dst_is_local, old(msg)@),
        final(msg)@ == local_rewritten(*config, dst_ipv4(*target), dst_is_local, old(msg)@),
{
    let Some(c) = config else {
        return false;
    };
    if extract_dst_ipv4(target).is_none() || !dst_is_local {
        return false;
    }
    let mut changed = false;
    if rewrite_contact_host(msg, c.local_host.as_str(), c.port) {
        changed = true;
    }
    if let Some(public_ip) = &c.rtp_public_ip {
        if rewrite_sdp_body(msg, public_ip.as_str(), c.local_host.as_str()) {
            changed = true;
        }
    }
    changed
}

/// Whether a private Contact host leaves for a client that is not private.
pub open spec fn external_touches(
    config: Option<PublicHostConfig>,
    dst: Option<Ipv4Addr>,
    msg: MessageView,
) -> bool {
    &&& config is Some
    &&& msg.contact is Some
    &&& net::ipv4_of(msg.contact->0.host) is Some
    &&& private_ipv4(net::ipv4_of(msg.contact->0.host)->0)
    &&& !(dst matches Some(ip) && private_ipv4(ip))
    &&& contact_can_change(msg, config->0.public_host@)
}

/// The message after the rewriting for an external client.
pub open spec fn external_rewritten(
    config: Option<PublicHostConfig>,
    dst: Option<Ipv4Addr>,
    msg: MessageView,
) -> MessageView {
    if external_touches(config, dst, msg) {
        MessageView {
            contact: Some(HostPort { host: config->0.public_host@, port: config->0.port as i32 }),
            ..msg
        }
    } else {
        msg
    }
}

/// Gives an outgoing message to an external client the public host in place
/// of a private Contact address, so that requests within the dialog find back.
/// Hostnames and public addresses stay, and so do messages to private
/// addresses. Returns whether the Contact was rewritten.
pub fn rewrite_private_contact_for_external(
    config: &Option<PublicHostConfig>,
    target: &TxTarget,
    msg: &mut SipMessage,
) -> (r: bool)
    ensures
        r == external_touches(*config, dst_ipv4(*target), old(msg)@),
        final(msg)@ == external_rewritten(*config, dst_ipv4(*target), old(msg)@),
{
    let Some(c) = config else {
        return false;
    };
    let contact_ip = match &msg.contact {
        Some(contact) => parse_ipv4(&to_chars(contact.host.as_str())),
        None => None,
    };
    let Some(ip) = contact_ip else {
        return false;
    };
    if !is_rfc1918(ip) {
        return false;
    }
    if let Some(dst) = extract_dst_ipv4(target) {
        if is_rfc1918(dst) {
            return false;
        }
    }
    rewrite_contact_host(msg, c.public_host.as_str(), c.port)
}

/// What becomes of an outgoing message: the local rewriting, then the external.
pub open spec fn tx_rewritten(
    local: Option<LocalNetConfig>,
    public: Option<PublicHostConfig>,
    dst: Option<Ipv4Addr>,
    dst_is_local: bool,
    msg: MessageView,
) -> MessageView {
    external_rewritten(public, dst, local_rewritten(local, dst, dst_is_local, msg))
}

/// Whether an outgoing message has to be encoded again.
pub open spec fn tx_touched(
    local: Option<LocalNetConfig>,
    public: Option<PublicHostConfig>,
    dst: Option<Ipv4Addr>,
    dst_is_local: bool,
    msg: MessageView,
) -> bool {
    local_touches(local, dst, dst_is_local, msg) || external_touches(
        public,
        dst,
        local_rewritten(local, dst, dst_is_local, msg),
    )
}

/// Rewrites an outgoing response. Returns whether it has to be encoded again.
pub fn on_tx_response_cb(
    local: &Option<LocalNetConfig>,
    public: &Option<PublicHostConfig>,
    target: &TxTarget,
    dst_is_local: bool,
    msg: &mut SipMessage,
) -> (r: bool)
    ensures
        r == tx_touched(*local, *public, dst_ipv4(*target), dst_is_local, old(msg)@),
        final(msg)@ == tx_rewritten(*local, *public, dst_ipv4(*target), dst_is_local, old(msg)@),
{
    let local_rewrite = rewrite_local_network_tdata(local, target, dst_is_local, msg);
    let public_rewrite = rewrite_private_contact_for_external(public, target, msg);
    local_rewrite || public_rewrite
}

/// Rewrites an outgoing request as `on_tx_response_cb` does a response.
pub fn on_tx_request_cb(
    local: &Option<LocalNetConfig>,
    public: &Option<PublicHostConfig>,
    target: &TxTarget,
    dst_is_local: bool,
    msg: &mut SipMessage,
) -> (r: bool)
    ensures
        r == tx_touched(*local, *public, dst_ipv4(*target), dst_is_local, old(msg)@),
        final(msg)@ == tx_rewritten(*local, *public, dst_ipv4(*target), dst_is_local, old(msg)@),
{
    let local_rewrite = rewrite_local_network_tdata(local, target, dst_is_local, msg);
    let public_rewrite = rewrite_private_contact_for_external(public, target, msg);
    local_rewrite || public_rewrite
}

// Incoming messages

/// Where an incoming packet came from.
#[derive(Debug)]
pub struct PacketSource {
    /// The source address as text, ended by a NUL byte where it is shorter
    /// than its buffer.
    pub src_name: Vec<u8>,
    pub src_port: i32,
}

/// The first NUL byte at or after `i`, or the end.
pub open spec fn nul_from(bytes: Seq<u8>, i: int) -> int
    decreases bytes.len() - i,
{
    if i >= bytes.len() {
        bytes.len() as int
    } else if bytes[i] == 0 {
        i
    } else {
        nul_from(bytes, i + 1)
    }
}

/// The source address as text, with the IPv4 address that it denotes.
pub open spec fn source_of(src_name: Seq<u8>) -> Option<(Seq<char>, Ipv4Addr)> {
    let name = src_name.take(nul_from(src_name, 0));
    if utf8::valid_utf8(name) && net::ipv4_of(utf8::decode_utf8(name)) is Some {
        Some((utf8::decode_utf8(name), net::ipv4_of(utf8::decode_utf8(name))->0))
    } else {
        None
    }
}

fn source_ipv4(source: &PacketSource) -> (r: Option<(String, Ipv4Addr)>)
    ensures
        match r {
            Some(found) => source_of(source.src_name@) == Some((found.0@, found.1)),
            None => source_of(source.src_name@) is None,
        },
{
    let mut name: Vec<u8> = Vec::new();
    let mut i: usize = 0;
    let ghost all = source.src_name@;
    while i < source.src_name.len() && source.src_name[i] != 0
        invariant
            all == source.src_name@,
            i <= all.len(),
            name@ == all.take(i as int),
            nul_from(all, 0) == nul_from(all, i as int),
        decreases all.len() - i,
    {
        name.push(source.src_name[i]);
        assert(all.take(i + 1) =~= all.take(i as int).push(all[i as int]));
        i = i + 1;
    }
    match utf8_text(&name) {
        Some(t) => match parse_ipv4(&to_chars(t.as_str())) {
            Some(ip) => Some((t, ip)),
            None => None,
        },
        None => None,
    }
}

/// Whether an address is private and differs from the packet's source.
pub open spec fn behind_nat(ip: Option<Ipv4Addr>, src: Ipv4Addr) -> bool {
    ip matches Some(a) && private_ipv4(a) && a != src
}

/// The connection address of a `c=` line.
pub open spec fn connection_address(line: Seq<char>) -> Option<Seq<char>> {
    if text::starts_with(line, "c=IN IP4 "@) {
        Some(text::trim(line.skip("c=IN IP4 "@.len() as int)))
    } else {
        None
    }
}

/// Whether a line is a `c=` line with an address behind NAT.
pub open spec fn private_connection(line: Seq<char>, src: Ipv4Addr) -> bool {
    connection_address(line) matches Some(addr) && behind_nat(net::ipv4_of(addr), src)
}

/// The address of the first `c=` line from `i` on that is behind NAT.
pub open spec fn private_media(lines: Seq<Seq<char>>, src: Ipv4Addr, i: int) -> Option<Seq<char>>
    decreases lines.len() - i,
{
    if i < 0 || i >= lines.len() {
        None
    } else if private_connection(lines[i], src) {
        connection_address(lines[i])
    } else {
        private_media(lines, src, i + 1)
    }
}

fn find_private_media(sdp: &str, src: Ipv4Addr) -> (r: Option<String>)
    ensures
        text::opt_text(r) == private_media(text::lines(sdp@), src, 0),
{
    let lines = lines_of(&to_chars(sdp));
    let ghost all = text::lines(sdp@);
    let mut i: usize = 0;
    while i < lines.len()
        invariant
            all == text::texts(lines@),
            all == text::lines(sdp@),
            i <= lines@.len(),
            private_media(all, src, 0) == private_media(all, src, i as int),
        decreases lines@.len() - i,
    {
        assert(all[i as int] == lines@[i as int]@);
        if let Some(rest) = after_prefix(&lines[i], "c=IN IP4 ") {
            let addr = trim_of(&rest);
            if let Some(ip) = parse_ipv4(&addr) {
                if is_rfc1918(ip) && ip != src {
                    return Some(from_chars(&addr));
                }
            }
        }
        i = i + 1;
    }
    None
}

/// The body with its media address moved to the packet's source, where its
/// first private connection address needs it.
pub open spec fn media_fixed(body: Seq<u8>, src: (Seq<char>, Ipv4Addr)) -> Seq<u8> {
    match body_text(body) {
        Some(sdp) => match private_media(text::lines(sdp), src.1, 0) {
            Some(addr) => match body_rewritten(body, addr, src.0) {
                Some(fixed) => fixed,
                None => body,
            },
            None => body,
        },
        None => body,
    }
}

fn fix_media(msg: &mut SipMessage, src_text: &str, src: Ipv4Addr)
    ensures
        final(msg)@ == (MessageView {
            body: media_fixed(old(msg)@.body, (src_text@, src)),
            ..old(msg)@
        }),
{
    if let Some(sdp) = text_of_body(&msg.body) {
        if let Some(addr) = find_private_media(sdp.as_str(), src) {
            let _ = rewrite_sdp_body(msg, addr.as_str(), src_text);
        }
    }
}

/// The body without orphaned payload types.
pub open spec fn body_sanitized(body: Seq<u8>) -> Seq<u8> {
    match body_text(body) {
        Some(sdp) => match sanitized(sdp) {
            Some(t) => utf8::encode_utf8(t),
            None => body,
        },
        None => body,
    }
}

/// The Contact moved to the packet's source, where it is behind NAT.
pub open spec fn contact_fixed(
    contact: Option<HostPort>,
    src: (Seq<char>, Ipv4Addr),
    src_port: i32,
) -> Option<HostPort> {
    if contact matches Some(c) && behind_nat(net::ipv4_of(c.host), src.1) {
        Some(HostPort { host: src.0, port: (src_port as u16) as i32 })
    } else {
        contact
    }
}

fn contact_is_behind_nat(contact: &Option<ContactHost>, src: Ipv4Addr) -> (r: bool)
    ensures
        r == (contact matches Some(c) && behind_nat(net::ipv4_of(c.host@), src)),
{
    match contact {
        Some(c) => match parse_ipv4(&to_chars(c.host.as_str())) {
            Some(ip) => is_rfc1918(ip) && ip != src,
            None => false,
        },
        None => false,
    }
}

/// An incoming request after the NAT fixup. Only an INVITE with a UTF-8 body
/// from an IPv4 source is looked at.
pub open spec fn request_fixed(
    is_request: bool,
    is_invite: bool,
    source: PacketSource,
    msg: MessageView,
) -> MessageView {
    match source_of(source.src_name@) {
        Some(src) if is_request && is_invite && body_text(msg.body) is Some => MessageView {
            contact: contact_fixed(msg.contact, src, source.src_port),
            body: body_sanitized(media_fixed(msg.body, src)),
        },
        _ => msg,
    }
}

/// Fixes an incoming INVITE of a phone behind NAT: private media and Contact
/// addresses become the address the packet came from, and dynamic payload
/// types without `a=rtpmap` leave the SDP.
pub fn on_rx_request_nat_fixup_cb(
    is_request: bool,
    is_invite: bool,
    source: &PacketSource,
    msg: &mut SipMessage,
)
    ensures
        final(msg)@ == request_fixed(is_request, is_invite, *source, old(msg)@),
{
    if !is_request || !is_invite || msg.body.len() == 0 {
        return;
    }
    let Some((src_text, src)) = source_ipv4(source) else {
        return;
    };
    if text_of_body(&msg.body).is_none() {
        return;
    }
    fix_media(msg, src_text.as_str(), src);
    let port: i32 = (source.src_port as u16) as i32;
    if contact_is_behind_nat(&msg.contact, src) {
        msg.contact = Some(ContactHost { host: src_text, port });
    }
    if let Some(sdp) = text_of_body(&msg.body) {
        if let Some(clean) = sanitize_sdp_missing_rtpmap(sdp.as_str()) {
            msg.body = clean.as_str().as_bytes_vec();
        }
    }
}

/// An incoming response after the NAT fixup. Only provisional and success
/// responses from an IPv4 source whose Contact is behind NAT are touched.
pub open spec fn response_fixed(status_code: i32, source: PacketSource, msg: MessageView) ->
    MessageView {
    match source_of(source.src_name@) {
        Some(src) if 100 <= status_code < 300 && msg.contact is Some && behind_nat(
            net::ipv4_of(msg.contact->0.host),
            src.1,
        ) => MessageView {
            contact: contact_fixed(msg.contact, src, source.src_port),
            body: media_fixed(msg.body, src),
        },
        _ => msg,
    }
}

/// Fixes an incoming response of a phone behind NAT: where its Contact holds a
/// private address other than the packet's source, Contact and media address
/// become that source. The media address is read from the SDP, as it may
/// differ from that of the Contact.
pub fn on_rx_response_nat_fixup_cb(status_code: i32, source: &PacketSource, msg: &mut SipMessage)
    ensures
        final(msg)@ == response_fixed(status_code, *source, old(msg)@),
{
    if !(100 <= status_code && status_code < 300) {
        return;
    }
    let Some((src_text, src)) = source_ipv4(source) else {
        return;
    };
    if !contact_is_behind_nat(&msg.contact, src) {
        return;
    }
    fix_media(msg, src_text.as_str(), src);
    let port: i32 = (source.src_port as u16) as i32;
    msg.contact = Some(ContactHost { host: src_text, port });
}

} // verus!
