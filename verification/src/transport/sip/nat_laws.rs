//! What holds of the NAT fixups as a whole.

use crate::net;
use crate::net::Ipv4Addr;
use crate::table;
use crate::text;
use crate::transport::sip::nat_fixup;
use crate::transport::sip::nat_fixup::{LocalNetConfig, PacketSource, PublicHostConfig};
use vstd::prelude::*;

verus! {

pub proof fn lemma_next_media_is(lines: Seq<Seq<char>>, i: int, j: int)
    requires
        0 <= i <= j <= lines.len(),
        j < lines.len() ==> text::starts_with(lines[j], "m="@),
        forall|k: int| i <= k < j ==> !text::starts_with(#[trigger] lines[k], "m="@),
    ensures
        nat_fixup::next_media(lines, i) == j,
    decreases j - i,
{
    if i < j {
        lemma_next_media_is(lines, i + 1, j);
    }
}

/// A line does not declare a payload type and give its parameters at once.
proof fn lemma_rtpmap_is_not_fmtp(line: Seq<char>)
    requires
        text::starts_with(line, "a=rtpmap:"@),
    ensures
        !text::starts_with(line, "a=fmtp:"@),
{
    reveal_strlit("a=rtpmap:");
    reveal_strlit("a=fmtp:");
    if text::starts_with(line, "a=fmtp:"@) {
        assert(line.subrange(0, 9)[2] == 'r');
        assert(line.subrange(0, 7)[2] == 'f');
        assert(line[2] == 'r');
    }
}

/// The lines that stay declare the same payload types.
proof fn lemma_declared_stays(formats: Seq<Seq<char>>, attrs: Seq<Seq<char>>, pt: nat)
    requires
        nat_fixup::declared(attrs, pt),
    ensures
        nat_fixup::declared(attrs.filter(nat_fixup::keeps_line(formats, attrs)), pt),
{
    let pred = nat_fixup::keeps_line(formats, attrs);
    let k = choose|k: int|
        0 <= k < attrs.len() && #[trigger] nat_fixup::attribute_pt(attrs[k], "a=rtpmap:"@)
            == Some(pt);
    lemma_rtpmap_is_not_fmtp(attrs[k]);
    assert(pred(attrs[k]));
    attrs.lemma_filter_contains(pred, k);
    let kept = attrs.filter(pred);
    let j = choose|j: int| 0 <= j < kept.len() && kept[j] == attrs[k];
    assert(nat_fixup::attribute_pt(kept[j], "a=rtpmap:"@) == Some(pt));
}

/// The first word of an `m=` line begins with `m=`.
proof fn lemma_first_word(line: Seq<char>)
    requires
        text::starts_with(line, "m="@),
    ensures
        text::words(line).len() > 0,
        text::starts_with(text::words(line)[0], "m="@),
{
    reveal_strlit("m=");
    assert("m="@ =~= seq!['m', '=']);
    assert(line.subrange(0, 2)[0] == 'm' && line.subrange(0, 2)[1] == '=');
    assert(line[0] == 'm' && line[1] == '=');
    assert(!text::is_white('m') && !text::is_white('='));
    text::lemma_next_white(line, true, 0);
    let end = text::next_white(line, true, 0);
    assert(end >= 2);
    assert(text::next_white(line, false, 0) == 0);
    let word = text::words(line)[0];
    assert(word == line.subrange(0, end));
    assert(word.subrange(0, 2) =~= seq!['m', '=']);
}

/// Words without white space hold no line feed.
proof fn lemma_words_hold_no_feed(list: Seq<Seq<char>>)
    requires
        forall|k: int| 0 <= k < list.len() ==> text::is_word(#[trigger] list[k]),
    ensures
        !text::holds(text::join(list, " "@), '\n'),
    decreases list.len(),
{
    reveal_strlit(" ");
    assert(" "@ =~= seq![' ']);
    let joined = text::join(list, " "@);
    assert(text::is_white('\n'));
    if list.len() > 0 {
        let rest = list.drop_last();
        assert forall|k: int| 0 <= k < rest.len() implies text::is_word(#[trigger] rest[k]) by {
            assert(rest[k] == list[k]);
        }
        lemma_words_hold_no_feed(rest);
        assert(text::is_word(list[list.len() - 1]));
        assert forall|k: int| 0 <= k < joined.len() implies #[trigger] joined[k] != '\n' by {
            if list.len() > 1 {
                let head = text::join(rest, " "@);
                if k < head.len() {
                    assert(joined[k] == head[k]);
                } else if k > head.len() {
                    assert(joined[k] == list.last()[k - head.len() - 1]);
                }
            }
        }
    }
}

/// The words of a sanitized `m=` line.
proof fn lemma_sanitized_m_line(m_line: Seq<char>, attrs: Seq<Seq<char>>)
    requires
        text::starts_with(m_line, "m="@),
        nat_fixup::section_changes(m_line, attrs),
    ensures
        ({
            let new_line = nat_fixup::sanitized_m_line(m_line, attrs);
            &&& nat_fixup::formats_of(new_line) == nat_fixup::formats_of(m_line).filter(
                nat_fixup::keeps_word(attrs),
            )
            &&& text::starts_with(new_line, "m="@)
            &&& !text::holds(new_line, '\n')
        }),
{
    let parts = text::words(m_line);
    let formats = nat_fixup::formats_of(m_line);
    let pred = nat_fixup::keeps_word(attrs);
    let kept = formats.filter(pred);
    let head = seq![parts[0], parts[1], parts[2]];
    let all = head + kept;
    text::lemma_words_are_words(m_line, 0);
    assert forall|k: int| 0 <= k < all.len() implies text::is_word(#[trigger] all[k]) by {
        if k < 3 {
            assert(all[k] == parts[k]);
        } else {
            table::lemma_filter_member(formats, pred, k - 3);
            let j = choose|j: int| 0 <= j < formats.len() && formats[j] == kept[k - 3];
            assert(formats[j] == parts[j + 3]);
        }
    }
    let new_line = nat_fixup::sanitized_m_line(m_line, attrs);
    text::lemma_join_front(parts[2], kept);
    text::lemma_join_front(parts[1], seq![parts[2]] + kept);
    text::lemma_join_front(parts[0], seq![parts[1]] + (seq![parts[2]] + kept));
    assert(all =~= seq![parts[0]] + (seq![parts[1]] + (seq![parts[2]] + kept)));
    assert(new_line =~= text::join(all, " "@));
    text::lemma_words_of_joined(all);
    assert(nat_fixup::formats_of(new_line) =~= kept);
    lemma_words_hold_no_feed(all);
    lemma_first_word(m_line);
    reveal_strlit("m=");
    assert(new_line.subrange(0, 2) =~= parts[0].subrange(0, 2));
}

/// The words of an `m=` line after sanitizing: the first three, and those that stay.
pub proof fn lemma_sanitized_words(m_line: Seq<char>, attrs: Seq<Seq<char>>)
    requires
        text::starts_with(m_line, "m="@),
        nat_fixup::section_changes(m_line, attrs),
    ensures
        text::words(nat_fixup::sanitized_m_line(m_line, attrs)) == text::words(m_line).take(3)
            + nat_fixup::formats_of(m_line).filter(nat_fixup::keeps_word(attrs)),
{
    let parts = text::words(m_line);
    let formats = nat_fixup::formats_of(m_line);
    let pred = nat_fixup::keeps_word(attrs);
    let kept = formats.filter(pred);
    let all = parts.take(3) + kept;
    text::lemma_words_are_words(m_line, 0);
    assert forall|k: int| 0 <= k < all.len() implies text::is_word(#[trigger] all[k]) by {
        if k < 3 {
            assert(all[k] == parts[k]);
        } else {
            table::lemma_filter_member(formats, pred, k - 3);
            let j = choose|j: int| 0 <= j < formats.len() && formats[j] == kept[k - 3];
            assert(formats[j] == parts[j + 3]);
        }
    }
    text::lemma_join_front(parts[2], kept);
    text::lemma_join_front(parts[1], seq![parts[2]] + kept);
    text::lemma_join_front(parts[0], seq![parts[1]] + (seq![parts[2]] + kept));
    assert(all =~= seq![parts[0]] + (seq![parts[1]] + (seq![parts[2]] + kept)));
    assert(nat_fixup::sanitized_m_line(m_line, attrs) =~= text::join(all, " "@));
    text::lemma_words_of_joined(all);
}

/// A sanitized section is a section that has nothing to lose.
proof fn lemma_section_is_stable(m_line: Seq<char>, attrs: Seq<Seq<char>>)
    requires
        text::starts_with(m_line, "m="@),
        !text::holds(m_line, '\n'),
        forall|k: int| 0 <= k < attrs.len() ==> !text::starts_with(#[trigger] attrs[k], "m="@),
        forall|k: int| 0 <= k < attrs.len() ==> !text::holds(#[trigger] attrs[k], '\n'),
    ensures
        ({
            let section = nat_fixup::sanitized_section(m_line, attrs);
            &&& section.len() > 0
            &&& text::starts_with(section[0], "m="@)
            &&& forall|k: int|
                0 < k < section.len() ==> !text::starts_with(#[trigger] section[k], "m="@)
            &&& forall|k: int| 0 <= k < section.len() ==> !text::holds(#[trigger] section[k], '\n')
            &&& !nat_fixup::section_changes(section[0], section.skip(1))
        }),
{
    let section = nat_fixup::sanitized_section(m_line, attrs);
    if nat_fixup::section_changes(m_line, attrs) {
        let formats = nat_fixup::formats_of(m_line);
        let pred = nat_fixup::keeps_line(formats, attrs);
        let kept_lines = attrs.filter(pred);
        let kept_words = formats.filter(nat_fixup::keeps_word(attrs));
        let new_line = nat_fixup::sanitized_m_line(m_line, attrs);
        lemma_sanitized_m_line(m_line, attrs);
        assert(section[0] == new_line);
        assert(section.skip(1) =~= kept_lines);
        assert forall|k: int| 0 < k < section.len() implies !text::starts_with(
            #[trigger] section[k],
            "m="@,
        ) && !text::holds(section[k], '\n') by {
            assert(section[k] == kept_lines[k - 1]);
            table::lemma_filter_member(attrs, pred, k - 1);
        }
        let again = nat_fixup::keeps_word(kept_lines);
        assert forall|k: int| 0 <= k < kept_words.len() implies again(#[trigger] kept_words[k]) by {
            table::lemma_filter_member(formats, nat_fixup::keeps_word(attrs), k);
            if let Some(pt) = nat_fixup::payload_type(kept_words[k]) {
                if nat_fixup::declared(attrs, pt) {
                    lemma_declared_stays(formats, attrs, pt);
                }
            }
        }
        table::lemma_filter_all(kept_words, again);
    } else {
        assert(section.skip(1) =~= attrs);
    }
}

/// The sanitized sections from a line on have nothing to lose.
proof fn lemma_sections_are_stable(before: Seq<Seq<char>>, lines: Seq<Seq<char>>, i: int)
    requires
        0 <= i <= lines.len(),
        i < lines.len() ==> text::starts_with(lines[i], "m="@),
        forall|k: int| 0 <= k < lines.len() ==> !text::holds(#[trigger] lines[k], '\n'),
    ensures
        ({
            let rest = nat_fixup::sanitized_from(lines, i);
            &&& !nat_fixup::changes_from(before + rest, before.len() as int)
            &&& rest.len() > 0 ==> text::starts_with(rest[0], "m="@)
            &&& i < lines.len() ==> rest.len() > 0
            &&& forall|k: int| 0 <= k < rest.len() ==> !text::holds(#[trigger] rest[k], '\n')
        }),
    decreases lines.len() - i,
{
    let rest = nat_fixup::sanitized_from(lines, i);
    let all = before + rest;
    if i < lines.len() {
        let end = nat_fixup::next_media(lines, i + 1);
        nat_fixup::lemma_next_media(lines, i + 1);
        let attrs = lines.subrange(i + 1, end);
        assert forall|k: int| 0 <= k < attrs.len() implies !text::starts_with(
            #[trigger] attrs[k],
            "m="@,
        ) && !text::holds(attrs[k], '\n') by {
            assert(attrs[k] == lines[i + 1 + k]);
        }
        lemma_section_is_stable(lines[i], attrs);
        let section = nat_fixup::sanitized_section(lines[i], attrs);
        let tail = nat_fixup::sanitized_from(lines, end);
        lemma_sections_are_stable(before + section, lines, end);
        assert(rest == section + tail);
        assert(all =~= (before + section) + tail);
        let start = before.len() as int;
        let stop = start + section.len();
        assert forall|k: int| start + 1 <= k < stop implies !text::starts_with(
            #[trigger] all[k],
            "m="@,
        ) by {
            assert(all[k] == section[k - start]);
        }
        if stop < all.len() {
            assert(all[stop] == tail[0]);
        }
        lemma_next_media_is(all, start + 1, stop);
        assert(all[start] == section[0]);
        assert(all.subrange(start + 1, stop) =~= section.skip(1));
        assert forall|k: int| 0 <= k < rest.len() implies !text::holds(#[trigger] rest[k], '\n') by {
            if k < section.len() {
                assert(rest[k] == section[k]);
            } else {
                assert(rest[k] == tail[k - section.len()]);
            }
        }
        assert(rest[0] == section[0]);
    }
}

/// The lines of a sanitized text are the sanitized lines.
pub proof fn lemma_sanitized_text(sdp: Seq<char>)
    requires
        nat_fixup::sanitized(sdp) is Some,
    ensures
        text::lines(nat_fixup::sanitized(sdp)->0) == nat_fixup::sanitized_lines(text::lines(sdp)),
        nat_fixup::next_media(
            nat_fixup::sanitized_lines(text::lines(sdp)),
            0,
        ) == nat_fixup::next_media(text::lines(sdp), 0),
{
    let lines = text::lines(sdp);
    let first = nat_fixup::next_media(lines, 0);
    nat_fixup::lemma_next_media(lines, 0);
    text::lemma_lines_hold_no_feed(sdp, 0);
    let head = lines.take(first);
    lemma_sections_are_stable(head, lines, first);
    let rest = nat_fixup::sanitized_from(lines, first);
    let all = nat_fixup::sanitized_lines(lines);
    assert(all == head + rest);
    assert forall|k: int| 0 <= k < all.len() implies !text::holds(#[trigger] all[k], '\n') by {
        if k < first {
            assert(all[k] == lines[k]);
        } else {
            assert(all[k] == rest[k - first]);
        }
    }
    assert forall|k: int| 0 <= k < first implies !text::starts_with(#[trigger] all[k], "m="@) by {
        assert(all[k] == lines[k]);
    }
    assert(first < lines.len());
    assert(all[first] == rest[0]);
    lemma_next_media_is(all, 0, first);
    text::lemma_lines_of_joined(all);
}

/// A sanitized description has nothing left to be sanitized.
pub proof fn law_sanitizing_is_complete(sdp: Seq<char>)
    ensures
        nat_fixup::sanitized(sdp) matches Some(out) ==> nat_fixup::sanitized(out) is None,
{
    if let Some(out) = nat_fixup::sanitized(sdp) {
        lemma_sanitized_text(sdp);
        let lines = text::lines(sdp);
        let first = nat_fixup::next_media(lines, 0);
        nat_fixup::lemma_next_media(lines, 0);
        text::lemma_lines_hold_no_feed(sdp, 0);
        lemma_sections_are_stable(lines.take(first), lines, first);
    }
}

/// Sanitizing leaves the session lines as they are.
pub proof fn law_sanitizing_keeps_session_lines(sdp: Seq<char>)
    ensures
        nat_fixup::sanitized(sdp) matches Some(out) ==> {
            let lines = text::lines(sdp);
            let first = nat_fixup::next_media(lines, 0);
            &&& nat_fixup::next_media(text::lines(out), 0) == first
            &&& text::lines(out).take(first) == lines.take(first)
        },
{
    if let Some(out) = nat_fixup::sanitized(sdp) {
        lemma_sanitized_text(sdp);
        let lines = text::lines(sdp);
        let first = nat_fixup::next_media(lines, 0);
        nat_fixup::lemma_next_media(lines, 0);
        assert(text::lines(out).take(first) =~= lines.take(first));
    }
}

/// A text keeps free of line feeds when a part of it is replaced.
proof fn lemma_replaced_holds_no_feed(
    s: Seq<char>,
    old_text: Seq<char>,
    new_text: Seq<char>,
    i: int,
)
    requires
        0 <= i <= s.len(),
        !text::holds(s, '\n'),
        !text::holds(new_text, '\n'),
    ensures
        !text::holds(text::replaced_from(s, old_text, new_text, i), '\n'),
    decreases s.len() - i,
{
    let out = text::replaced_from(s, old_text, new_text, i);
    if old_text.len() == 0 {
        if i < s.len() {
            lemma_replaced_holds_no_feed(s, old_text, new_text, i + 1);
            let rest = text::replaced_from(s, old_text, new_text, i + 1);
            assert forall|k: int| 0 <= k < out.len() implies #[trigger] out[k] != '\n' by {
                if k < new_text.len() {
                    assert(out[k] == new_text[k]);
                } else if k == new_text.len() {
                    assert(out[k] == s[i]);
                } else {
                    assert(out[k] == rest[k - new_text.len() - 1]);
                }
            }
        }
    } else if text::occurs_at(s, old_text, i) {
        lemma_replaced_holds_no_feed(s, old_text, new_text, i + old_text.len());
        let rest = text::replaced_from(s, old_text, new_text, i + old_text.len());
        assert forall|k: int| 0 <= k < out.len() implies #[trigger] out[k] != '\n' by {
            if k < new_text.len() {
                assert(out[k] == new_text[k]);
            } else {
                assert(out[k] == rest[k - new_text.len()]);
            }
        }
    } else if i < s.len() {
        lemma_replaced_holds_no_feed(s, old_text, new_text, i + 1);
        let rest = text::replaced_from(s, old_text, new_text, i + 1);
        assert forall|k: int| 0 <= k < out.len() implies #[trigger] out[k] != '\n' by {
            if k == 0 {
                assert(out[k] == s[i]);
            } else {
                assert(out[k] == rest[k - 1]);
            }
        }
    }
}

/// Rewriting an address in a description changes only its connection and origin
/// lines, and no line comes or goes.
pub proof fn law_rewriting_keeps_other_lines(
    sdp: Seq<char>,
    old_ip: Seq<char>,
    new_ip: Seq<char>,
    k: int,
)
    requires
        !text::holds(new_ip, '\n'),
        0 <= k < text::lines(sdp).len(),
    ensures
        nat_fixup::sdp_rewritten(sdp, old_ip, new_ip) matches Some(out) ==> {
            &&& text::lines(out).len() == text::lines(sdp).len()
            &&& text::lines(out)[k] == nat_fixup::rewritten_line(
                text::lines(sdp)[k],
                old_ip,
                new_ip,
            )
            &&& !text::starts_with(text::lines(sdp)[k], "c="@) && !text::starts_with(
                text::lines(sdp)[k],
                "o="@,
            ) ==> text::lines(out)[k] == text::lines(sdp)[k]
        },
{
    let lines = text::lines(sdp);
    let f = |line: Seq<char>| nat_fixup::rewritten_line(line, old_ip, new_ip);
    let all = lines.map_values(f);
    text::lemma_lines_hold_no_feed(sdp, 0);
    assert forall|j: int| 0 <= j < all.len() implies !text::holds(#[trigger] all[j], '\n') by {
        assert(!text::holds(lines[j], '\n'));
        if nat_fixup::rewrites_line(lines[j], old_ip) {
            lemma_replaced_holds_no_feed(lines[j], old_ip, new_ip, 0);
        }
    }
    text::lemma_lines_of_joined(all);
}

/// A client in private address space keeps the Contact that the local rewriting
/// gave it: the public host is for external clients only.
pub proof fn law_private_clients_see_no_public_host(
    config: Option<PublicHostConfig>,
    dst: Ipv4Addr,
    msg: nat_fixup::MessageView,
)
    requires
        nat_fixup::private_ipv4(dst),
    ensures
        nat_fixup::external_rewritten(config, Some(dst), msg) == msg,
{
}

/// An external client is never given a private Contact address, if the bridge
/// has a public host that can take its place.
pub proof fn law_external_clients_see_no_private_contact(
    local: Option<LocalNetConfig>,
    config: PublicHostConfig,
    dst: Option<Ipv4Addr>,
    dst_is_local: bool,
    msg: nat_fixup::MessageView,
)
    requires
        dst matches Some(ip) ==> !nat_fixup::private_ipv4(ip),
        nat_fixup::is_host(config.public_host@),
        net::ipv4_of(config.public_host@) matches Some(ip) ==> !nat_fixup::private_ipv4(ip),
    ensures
        nat_fixup::tx_rewritten(local, Some(config), dst, dst_is_local, msg).contact matches Some(
            contact,
        ) ==> (net::ipv4_of(contact.host) matches Some(ip) ==> !nat_fixup::private_ipv4(ip)),
{
}

/// A Contact that was fixed can be reached: it is no private address other than
/// the one that the packet came from. For a request this takes an INVITE with a
/// readable body, for a response a provisional or successful one.
pub proof fn law_fixed_contact_can_be_reached(
    source: PacketSource,
    status_code: i32,
    msg: nat_fixup::MessageView,
)
    requires
        nat_fixup::source_of(source.src_name@) is Some,
    ensures
        ({
            let src = (nat_fixup::source_of(source.src_name@)->0).1;
            let request = nat_fixup::request_fixed(true, true, source, msg);
            let response = nat_fixup::response_fixed(status_code, source, msg);
            &&& nat_fixup::body_text(msg.body) is Some ==> (request.contact matches Some(c)
                ==> !nat_fixup::behind_nat(net::ipv4_of(c.host), src))
            &&& 100 <= status_code < 300 ==> (response.contact matches Some(c)
                ==> !nat_fixup::behind_nat(net::ipv4_of(c.host), src))
        }),
{
}

/// A phone that is not behind NAT is left alone: its Contact stays, and so does
/// its whole response. Of its INVITE the body stays too, where no media address
/// is private and no payload type is orphaned.
pub proof fn law_reachable_phone_is_left_alone(
    is_request: bool,
    is_invite: bool,
    source: PacketSource,
    status_code: i32,
    msg: nat_fixup::MessageView,
)
    requires
        (nat_fixup::source_of(source.src_name@) is Some && msg.contact is Some)
            ==> !nat_fixup::behind_nat(
            net::ipv4_of(msg.contact->0.host),
            (nat_fixup::source_of(source.src_name@)->0).1,
        ),
    ensures
        nat_fixup::request_fixed(is_request, is_invite, source, msg).contact == msg.contact,
        nat_fixup::response_fixed(status_code, source, msg) == msg,
        (nat_fixup::source_of(source.src_name@) matches Some(src) && nat_fixup::body_text(
            msg.body,
        ) matches Some(sdp) && nat_fixup::private_media(text::lines(sdp), src.1, 0) is None
            && nat_fixup::sanitized(sdp) is None) ==> nat_fixup::request_fixed(
            is_request,
            is_invite,
            source,
            msg,
        ) == msg,
{
}

} // verus!
