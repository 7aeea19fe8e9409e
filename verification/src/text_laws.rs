//! What is written is read again.
//!
//! The laws relate the operations on text to each other, and to the characters that
//! they are given.

use crate::ids::{CallId, Snowflake};
use crate::net::{parse_ipv4, Ipv4Addr};
use crate::text;
use crate::text::{
    decimal_of, find, from_chars, has, join_of, lines_of, number_of, parse_u32, replace_of,
    signed_decimal_of, split_of, to_chars, to_lower, trim_of, white, words_of,
};
use crate::time::{Duration, Instant};
use vstd::prelude::*;

verus! {

broadcast use vstd::string::group_string_axioms;

// Numbers

/// The digit of a number below ten, by its character.
pub open spec fn digit_of(c: char) -> int {
    (c as u32) - ('0' as u32)
}

proof fn lemma_decimal(n: nat)
    ensures
        text::decimal(n).len() > 0,
        text::all_digits(text::decimal(n)),
        text::digits_value(text::decimal(n)) == n,
        n > 0 ==> text::decimal(n)[0] != '0',
        n < 10 ==> text::decimal(n).len() == 1,
        n < 1000 ==> text::decimal(n).len() <= 3,
        n >= 10 ==> text::decimal(n).len() == text::decimal(n / 10).len() + 1,
    decreases n,
{
    let d = text::decimal(n);
    assert(text::is_digit(text::digit_char(n)));
    assert(digit_of(text::digit_char(n)) == n % 10);
    if n < 10 {
        assert(d.drop_last() =~= Seq::<char>::empty());
        assert(text::digits_value(d.drop_last()) == 0);
        assert(d.last() == text::digit_char(n));
        assert(d[0] == text::digit_char(n));
    } else {
        lemma_decimal(n / 10);
        let rest = text::decimal(n / 10);
        assert(d.drop_last() =~= rest);
        assert(d.last() == text::digit_char(n));
        assert(d[0] == rest[0]);
        assert forall|k: int| 0 <= k < d.len() implies text::is_digit(#[trigger] d[k]) by {
            if k < rest.len() {
                assert(d[k] == rest[k]);
            }
        }
        if n < 100 {
            assert(n / 10 < 10);
        } else if n < 1000 {
            assert(n / 10 < 100);
            lemma_decimal(n / 10 / 10);
            assert(n / 10 / 10 < 10);
        }
    }
}

/// A number is written in decimal digits, without a leading zero, and is read again
/// as it was written.
pub proof fn law_number_is_read_as_written(
    n: u64,
    out: Vec<char>,
    max: u64,
    read: Option<u64>,
    number: Option<u32>,
)
    requires
        call_ensures(decimal_of, (n,), out),
        call_ensures(number_of, (&out, max), read),
        call_ensures(parse_u32, (&out,), number),
    ensures
        out@.len() > 0,
        forall|k: int| 0 <= k < out@.len() ==> '0' <= #[trigger] out@[k] <= '9',
        n > 0 ==> out@[0] != '0',
        n == 0 ==> out@ =~= seq!['0'],
        n <= max ==> read == Some(n),
        n > max ==> read is None,
        n <= u32::MAX ==> number == Some(n as u32),
        n > u32::MAX ==> number is None,
{
    lemma_decimal(n as nat);
    let d = out@;
    assert(text::is_digit(d[0]));
    assert(text::unsigned_digits(d) == d);
    assert forall|k: int| 0 <= k < d.len() implies '0' <= #[trigger] d[k] <= '9' by {
        assert(text::is_digit(d[k]));
    }
    if n == 0 {
        assert(d[0] == text::digit_char(0));
        assert(text::digit_char(0) == '0');
    }
}

/// Different numbers are written differently.
pub proof fn law_numbers_are_told_apart(a: nat, b: nat)
    ensures
        text::decimal(a) == text::decimal(b) <==> a == b,
{
    lemma_decimal(a);
    lemma_decimal(b);
}

/// A negative number is written with a minus sign before its magnitude; the ids of
/// calls and channels are written as their numbers.
pub proof fn law_ids_are_written_as_numbers(
    n: i32,
    out: Vec<char>,
    magnitude: u64,
    digits: Vec<char>,
    call: &CallId,
    call_text: String,
    channel: &Snowflake,
    channel_text: String,
    channel_digits: Vec<char>,
)
    requires
        call_ensures(signed_decimal_of, (n,), out),
        magnitude == (if n < 0 {
            -(n as int)
        } else {
            n as int
        }),
        call_ensures(decimal_of, (magnitude,), digits),
        call.raw == n,
        call_ensures(CallId::to_text, (call,), call_text),
        call_ensures(Snowflake::to_text, (channel,), channel_text),
        call_ensures(decimal_of, (channel.raw,), channel_digits),
    ensures
        n >= 0 ==> out@ == digits@,
        n < 0 ==> out@ == seq!['-'] + digits@,
        call_text@ == out@,
        channel_text@ == channel_digits@,
{
}

/// A number that is read is one of digits alone, behind a plus sign that may be
/// there; each digit counts ten times the one behind it.
pub proof fn law_digits_count_by_tens(s: Seq<char>, c: char)
    requires
        text::is_digit(c),
    ensures
        text::digits_value(s.push(c)) == 10 * text::digits_value(s) + digit_of(c),
        text::digits_value(Seq::<char>::empty()) == 0,
        text::parse_unsigned(Seq::<char>::empty(), u32::MAX as nat) is None,
        text::parse_unsigned(seq!['-'].push(c), u32::MAX as nat) is None,
{
    assert(s.push(c).drop_last() =~= s);
    let minus = seq!['-'].push(c);
    assert(minus[0] == '-');
    assert(!text::is_digit(minus[0]));
}

// Lower case

/// Lower case changes the letters from A to Z, and nothing else, each to the letter
/// 32 places behind it; a text in lower case stays as it is.
pub proof fn law_lower_case(chars: &Vec<char>, out: Vec<char>, again: Vec<char>)
    requires
        call_ensures(to_lower, (chars,), out),
        call_ensures(to_lower, (&out,), again),
    ensures
        out@.len() == chars@.len(),
        forall|k: int|
            #![trigger out@[k]]
            0 <= k < chars@.len() ==> (if 'A' <= chars@[k] <= 'Z' {
                out@[k] as u32 == chars@[k] as u32 + 32
            } else {
                out@[k] == chars@[k]
            }),
        again@ == out@,
{
    assert forall|k: int| 0 <= k < out@.len() implies out@[k] == again@[k] by {
        assert(out@[k] == text::lower_char(chars@[k]));
        assert(again@[k] == text::lower_char(out@[k]));
    }
    assert(again@ =~= out@);
}

// Parts of a text

proof fn lemma_split(s: Seq<char>, c: char, i: int)
    requires
        0 <= i <= s.len(),
    ensures
        text::split_from(s, c, i).len() > 0,
        joined(text::split_from(s, c, i), c) == s.skip(i),
        forall|k: int|
            0 <= k < text::split_from(s, c, i).len() ==> !text::holds(
                #[trigger] text::split_from(s, c, i)[k],
                c,
            ),
    decreases s.len() - i,
{
    let parts = text::split_from(s, c, i);
    let end = text::next_char(s, c, i);
    text::lemma_next_char(s, c, i);
    let head = parts[0];
    assert(head =~= s.subrange(i, end));
    assert(!text::holds(head, c)) by {
        assert forall|j: int| 0 <= j < head.len() implies #[trigger] head[j] != c by {
            assert(head[j] == s[i + j]);
        }
    }
    if end < s.len() {
        let rest = text::split_from(s, c, end + 1);
        lemma_split(s, c, end + 1);
        assert(parts.skip(1) =~= rest);
        assert(s.skip(i) =~= s.subrange(i, end) + seq![c] + s.skip(end + 1));
        assert forall|k: int| 0 <= k < parts.len() implies !text::holds(#[trigger] parts[k], c) by {
            if k > 0 {
                assert(parts[k] == rest[k - 1]);
            }
        }
    } else {
        assert(s.skip(i) =~= s.subrange(i, end));
    }
}

/// Parts one after the other, with a character between them.
pub open spec fn joined(parts: Seq<Seq<char>>, c: char) -> Seq<char>
    decreases parts.len(),
{
    if parts.len() == 0 {
        Seq::empty()
    } else if parts.len() == 1 {
        parts[0]
    } else {
        parts[0] + seq![c] + joined(parts.skip(1), c)
    }
}

/// The parts of a text, put together again, are the text, and none of them holds
/// the character that they were split at.
pub proof fn law_split_loses_nothing(chars: &Vec<char>, c: char, parts: Vec<Vec<char>>)
    requires
        call_ensures(split_of, (chars, c), parts),
    ensures
        joined(text::texts(parts@), c) == chars@,
        forall|k: int| 0 <= k < parts@.len() ==> !text::holds((#[trigger] parts@[k])@, c),
{
    lemma_split(chars@, c, 0);
    assert(chars@.skip(0) =~= chars@);
    let all = text::texts(parts@);
    assert forall|k: int| 0 <= k < parts@.len() implies !text::holds(
        (#[trigger] parts@[k])@,
        c,
    ) by {
        assert(all[k] == parts@[k]@);
    }
}

/// Words that are joined by a space are found again as words; lines that are ended
/// are found again as lines.
pub proof fn law_joined_parts_are_found_again(
    list: &Vec<Vec<char>>,
    spaced: Vec<char>,
    words: Vec<Vec<char>>,
    ended: Vec<char>,
    all: Vec<char>,
    lines: Vec<Vec<char>>,
)
    requires
        list@.len() > 0,
        forall|k: int| 0 <= k < list@.len() ==> text::is_word((#[trigger] list@[k])@),
        call_ensures(join_of, (list, " "), spaced),
        call_ensures(words_of, (&spaced,), words),
        call_ensures(join_of, (list, "\r\n"), ended),
        all@ == ended@ + "\r\n"@,
        call_ensures(lines_of, (&all,), lines),
    ensures
        words@.len() == list@.len(),
        lines@.len() == list@.len(),
        forall|k: int| 0 <= k < list@.len() ==> (#[trigger] words@[k])@ == list@[k]@,
        forall|k: int| 0 <= k < list@.len() ==> (#[trigger] lines@[k])@ == list@[k]@,
{
    let texts = text::texts(list@);
    assert forall|k: int| 0 <= k < texts.len() implies text::is_word(#[trigger] texts[k])
        && !text::holds(texts[k], '\n') by {
        assert(texts[k] == list@[k]@);
        assert forall|j: int| 0 <= j < texts[k].len() implies #[trigger] texts[k][j] != '\n' by {
            assert(!text::is_white(texts[k][j]));
        }
    }
    text::lemma_words_of_joined(texts);
    text::lemma_lines_of_joined(texts);
    let found = text::texts(words@);
    let told = text::texts(lines@);
    assert(found.len() == words@.len());
    assert(told.len() == lines@.len());
    assert forall|k: int| 0 <= k < list@.len() implies (#[trigger] words@[k])@ == list@[k]@ by {
        assert(found[k] == words@[k]@);
        assert(texts[k] == list@[k]@);
    }
    assert forall|k: int| 0 <= k < list@.len() implies (#[trigger] lines@[k])@ == list@[k]@ by {
        assert(told[k] == lines@[k]@);
        assert(texts[k] == list@[k]@);
    }
}

/// A text goes to characters and back unchanged.
pub proof fn law_text_is_its_characters(s: &str, chars: Vec<char>, back: String)
    requires
        call_ensures(to_chars, (s,), chars),
        call_ensures(from_chars, (&chars,), back),
    ensures
        back@ == s@,
        chars@ == s@,
{
}

/// Behind the last occurrence nothing is replaced.
pub proof fn lemma_kept(s: Seq<char>, old_text: Seq<char>, new_text: Seq<char>, i: int)
    requires
        0 <= i <= s.len(),
        old_text.len() > 0,
        forall|q: int| i <= q ==> !#[trigger] text::occurs_at(s, old_text, q),
    ensures
        text::replaced_from(s, old_text, new_text, i) == s.skip(i),
    decreases s.len() - i,
{
    assert(!text::occurs_at(s, old_text, i));
    if i < s.len() {
        lemma_kept(s, old_text, new_text, i + 1);
        assert(s.skip(i) =~= seq![s[i]] + s.skip(i + 1));
    } else {
        assert(s.skip(i) =~= Seq::<char>::empty());
    }
}

/// A text that does not hold what is to be replaced stays as it is. What is replaced
/// by itself stays too.
pub proof fn law_replacing_keeps_the_rest(
    chars: &Vec<char>,
    old_text: &Vec<char>,
    new_text: &Vec<char>,
    out: Vec<char>,
    same: Vec<char>,
)
    requires
        old_text@.len() > 0,
        call_ensures(replace_of, (chars, old_text, new_text), out),
        call_ensures(replace_of, (chars, old_text, old_text), same),
    ensures
        (forall|q: int| !#[trigger] text::occurs_at(chars@, old_text@, q)) ==> out@ == chars@,
        same@ == chars@,
{
    if forall|q: int| !#[trigger] text::occurs_at(chars@, old_text@, q) {
        lemma_kept(chars@, old_text@, new_text@, 0);
        assert(chars@.skip(0) =~= chars@);
    }
    lemma_replaced_by_itself(chars@, old_text@, 0);
    assert(chars@.skip(0) =~= chars@);
}

proof fn lemma_replaced_by_itself(s: Seq<char>, part: Seq<char>, i: int)
    requires
        0 <= i <= s.len(),
        part.len() > 0,
    ensures
        text::replaced_from(s, part, part, i) == s.skip(i),
    decreases s.len() - i,
{
    if text::occurs_at(s, part, i) {
        let n = i + part.len();
        lemma_replaced_by_itself(s, part, n);
        assert(s.skip(i) =~= s.subrange(i, n) + s.skip(n));
    } else if i < s.len() {
        lemma_replaced_by_itself(s, part, i + 1);
        assert(s.skip(i) =~= seq![s[i]] + s.skip(i + 1));
    } else {
        assert(s.skip(i) =~= Seq::<char>::empty());
    }
}

// Addresses

proof fn lemma_split_one(before: Seq<char>, part: Seq<char>, rest: Seq<char>)
    requires
        !text::holds(part, '.'),
    ensures
        ({
            let s = before + part + seq!['.'] + rest;
            text::split_from(s, '.', before.len() as int) == seq![part] + text::split_from(
                s,
                '.',
                before.len() as int + part.len() + 1,
            )
        }),
{
    let s = before + part + seq!['.'] + rest;
    let i = before.len() as int;
    let j = i + part.len();
    assert(s[j] == '.');
    text::lemma_next_char(s, '.', i);
    let end = text::next_char(s, '.', i);
    assert forall|k: int| i <= k < j implies s[k] != '.' by {
        assert(s[k] == part[k - i]);
    }
    assert(end == j);
    assert(s.subrange(i, end) =~= part);
}

proof fn lemma_split_last(before: Seq<char>, part: Seq<char>)
    requires
        !text::holds(part, '.'),
    ensures
        text::split_from(before + part, '.', before.len() as int) == seq![part],
{
    let s = before + part;
    let i = before.len() as int;
    text::lemma_next_char(s, '.', i);
    let end = text::next_char(s, '.', i);
    assert forall|k: int| i <= k < s.len() implies s[k] != '.' by {
        assert(s[k] == part[k - i]);
    }
    assert(end == s.len());
    assert(s.subrange(i, s.len() as int) =~= part);
}

proof fn lemma_octet(n: u8)
    ensures
        crate::net::octet(text::decimal(n as nat)) == Some(n),
        !text::holds(text::decimal(n as nat), '.'),
{
    lemma_decimal(n as nat);
    let d = text::decimal(n as nat);
    if n == 0 {
        assert(d.len() == 1);
    }
    assert forall|k: int| 0 <= k < d.len() implies #[trigger] d[k] != '.' by {
        assert(text::is_digit(d[k]));
    }
}

/// An address in dotted notation is read as its four numbers.
pub proof fn law_address_is_read_as_written(
    a: u8,
    b: u8,
    c: u8,
    d: u8,
    chars: &Vec<char>,
    r: Option<Ipv4Addr>,
)
    requires
        chars@ == text::decimal(a as nat) + seq!['.'] + text::decimal(b as nat) + seq!['.']
            + text::decimal(c as nat) + seq!['.'] + text::decimal(d as nat),
        call_ensures(parse_ipv4, (chars,), r),
    ensures
        r == Some(Ipv4Addr { a, b, c, d }),
{
    let s = chars@;
    let none = Seq::<char>::empty();
    let p = text::decimal(a as nat);
    let q = text::decimal(b as nat);
    let t = text::decimal(c as nat);
    let u = text::decimal(d as nat);
    lemma_octet(a);
    lemma_octet(b);
    lemma_octet(c);
    lemma_octet(d);
    let first = p + seq!['.'];
    let second = first + q + seq!['.'];
    let third = second + t + seq!['.'];
    assert(s =~= none + p + seq!['.'] + (q + seq!['.'] + t + seq!['.'] + u));
    lemma_split_one(none, p, q + seq!['.'] + t + seq!['.'] + u);
    assert(s =~= first + q + seq!['.'] + (t + seq!['.'] + u));
    lemma_split_one(first, q, t + seq!['.'] + u);
    assert(s =~= second + t + seq!['.'] + u);
    lemma_split_one(second, t, u);
    assert(s =~= third + u);
    lemma_split_last(third, u);
    let parts = text::split(s, '.');
    assert(parts =~= seq![p, q, t, u]);
}

/// What is read as an address has four parts between dots, each of one to three
/// digits, without a leading zero, and at most 255.
pub proof fn law_only_four_small_numbers_are_an_address(
    chars: &Vec<char>,
    r: Option<Ipv4Addr>,
    parts: Vec<Vec<char>>,
    k: int,
)
    requires
        call_ensures(parse_ipv4, (chars,), r),
        call_ensures(split_of, (chars, '.'), parts),
    ensures
        r is Some ==> parts@.len() == 4,
        r is Some && 0 <= k < 4 ==> {
            let part = parts@[k]@;
            &&& 1 <= part.len() <= 3
            &&& text::all_digits(part)
            &&& part.len() > 1 ==> part[0] != '0'
            &&& text::digits_value(part) <= 255
            &&& text::digits_value(part) == (if k == 0 {
                r->0.a
            } else if k == 1 {
                r->0.b
            } else if k == 2 {
                r->0.c
            } else {
                r->0.d
            })
        },
{
    let all = text::texts(parts@);
    assert(all.len() == parts@.len());
    if r is Some && 0 <= k < 4 {
        assert(all[k] == parts@[k]@);
        assert(k == 0 || k == 1 || k == 2 || k == 3);
    }
}

// Time

/// Seconds and milliseconds are counted in nanoseconds; the time since a point is
/// nothing while that lies ahead.
pub proof fn law_time_is_counted_in_nanoseconds(
    secs: u64,
    long: Duration,
    millis: u64,
    short: Duration,
    then: &Instant,
    now: Instant,
    since: Duration,
    whole_secs: u64,
    whole_millis: u64,
)
    requires
        call_ensures(Duration::from_secs, (secs,), long),
        call_ensures(Duration::from_millis, (millis,), short),
        call_ensures(Instant::elapsed, (then, now), since),
        call_ensures(Instant::elapsed_secs, (then, now), whole_secs),
        call_ensures(Instant::elapsed_millis, (then, now), whole_millis),
    ensures
        long.nanos == secs * 1_000_000_000,
        short.nanos == millis * 1_000_000,
        now.nanos >= then.nanos ==> since.nanos == now.nanos - then.nanos,
        now.nanos < then.nanos ==> since.nanos == 0,
        whole_secs * 1_000_000_000 <= since.nanos < (whole_secs + 1) * 1_000_000_000,
        whole_millis * 1_000_000 <= since.nanos < (whole_millis + 1) * 1_000_000,
{
}

// Trimming

/// Trimming takes white space from both ends, all of it, and nothing else.
pub proof fn law_trimming_takes_white_space_alone(
    chars: &Vec<char>,
    out: Vec<char>,
    before: Seq<char>,
    middle: Seq<char>,
    after: Seq<char>,
)
    requires
        call_ensures(trim_of, (chars,), out),
        chars@ == before + middle + after,
        forall|k: int| 0 <= k < before.len() ==> text::is_white(#[trigger] before[k]),
        forall|k: int| 0 <= k < after.len() ==> text::is_white(#[trigger] after[k]),
        middle.len() > 0,
        !text::is_white(middle[0]),
        !text::is_white(middle.last()),
    ensures
        out@ == middle,
{
    let s = chars@;
    let n = before.len() as int;
    text::lemma_next_white(s, false, 0);
    assert(s[n] == middle[0]);
    let at = text::next_white(s, false, 0);
    if at < n {
        assert(s[at] == before[at]);
        assert(false);
    }
    assert(at == n);
    assert(s.subrange(n, s.len() as int) =~= middle + after);
    lemma_trim_end(middle, after);
}

proof fn lemma_trim_end(middle: Seq<char>, after: Seq<char>)
    requires
        middle.len() > 0,
        !text::is_white(middle.last()),
        forall|k: int| 0 <= k < after.len() ==> text::is_white(#[trigger] after[k]),
    ensures
        text::trim_end(middle + after) == middle,
    decreases after.len(),
{
    let s = middle + after;
    if after.len() > 0 {
        assert(s.last() == after.last());
        assert(text::is_white(after[after.len() - 1]));
        assert(s.drop_last() =~= middle + after.drop_last());
        lemma_trim_end(middle, after.drop_last());
    } else {
        assert(s =~= middle);
    }
}

// Lines

proof fn lemma_next_char_shifts(s: Seq<char>, c: char, i: int, j: int)
    requires
        0 <= i <= j <= s.len(),
    ensures
        text::next_char(s, c, j) == i + text::next_char(s.skip(i), c, j - i),
    decreases s.len() - j,
{
    if j < s.len() {
        assert(s[j] == s.skip(i)[j - i]);
        if s[j] != c {
            lemma_next_char_shifts(s, c, i, j + 1);
        }
    }
}

proof fn lemma_lines_shift(s: Seq<char>, i: int, j: int)
    requires
        0 <= i <= j <= s.len(),
    ensures
        text::lines_from(s, j) == text::lines_from(s.skip(i), j - i),
    decreases s.len() - j,
{
    let t = s.skip(i);
    if j < s.len() {
        lemma_next_char_shifts(s, '\n', i, j);
        text::lemma_next_char(s, '\n', j);
        let end = text::next_char(s, '\n', j);
        if end < s.len() {
            lemma_lines_shift(s, i, end + 1);
            assert(s.subrange(j, end) =~= t.subrange(j - i, end - i));
        } else {
            assert(s.subrange(j, s.len() as int) =~= t.subrange(j - i, t.len() as int));
        }
    }
}

/// A line goes up to its line feed, without the carriage return that may stand
/// before it; the other lines are those of what stands behind.
pub proof fn law_line_ends_with_its_feed(
    chars: &Vec<char>,
    lines: Vec<Vec<char>>,
    line: Seq<char>,
    cr: bool,
    rest: &Vec<char>,
    others: Vec<Vec<char>>,
    k: int,
)
    requires
        call_ensures(lines_of, (chars,), lines),
        call_ensures(lines_of, (rest,), others),
        forall|j: int| 0 <= j < line.len() ==> #[trigger] line[j] != '\n',
        !cr && line.len() > 0 ==> line.last() != '\r',
        chars@ == line + (if cr {
            seq!['\r']
        } else {
            Seq::empty()
        }) + seq!['\n'] + rest@,
    ensures
        lines@.len() == others@.len() + 1,
        lines@[0]@ == line,
        0 <= k < others@.len() ==> lines@[k + 1]@ == others@[k]@,
{
    let s = chars@;
    let head = line + (if cr {
        seq!['\r']
    } else {
        Seq::empty()
    });
    let n = head.len() as int;
    assert(s =~= head + seq!['\n'] + rest@);
    assert(s[n] == '\n');
    text::lemma_next_char(s, '\n', 0);
    assert forall|j: int| 0 <= j < n implies s[j] != '\n' by {
        assert(s[j] == head[j]);
        if j < line.len() {
            assert(head[j] == line[j]);
        }
    }
    assert(text::next_char(s, '\n', 0) == n);
    assert(s.subrange(0, n) =~= head);
    if cr {
        assert(head.drop_last() =~= line);
    } else {
        assert(head =~= line);
    }
    assert(text::strip_cr(head) == line);
    lemma_lines_shift(s, n + 1, n + 1);
    assert(s.skip(n + 1) =~= rest@);
    let all = text::texts(lines@);
    let tail = text::texts(others@);
    assert(all.len() == lines@.len());
    assert(tail.len() == others@.len());
    assert(all == seq![line] + tail);
    assert(all[0] == lines@[0]@);
    if 0 <= k < others@.len() {
        assert(all[k + 1] == lines@[k + 1]@);
        assert(tail[k] == others@[k]@);
    }
}

/// A text without a line feed is one line, and an empty one is none.
pub proof fn law_last_line_needs_no_feed(chars: &Vec<char>, lines: Vec<Vec<char>>)
    requires
        call_ensures(lines_of, (chars,), lines),
        forall|j: int| 0 <= j < chars@.len() ==> #[trigger] chars@[j] != '\n',
    ensures
        chars@.len() == 0 ==> lines@.len() == 0,
        chars@.len() > 0 ==> lines@.len() == 1 && lines@[0]@ == chars@,
{
    let s = chars@;
    let all = text::texts(lines@);
    assert(all.len() == lines@.len());
    if s.len() > 0 {
        text::lemma_next_char(s, '\n', 0);
        let end = text::next_char(s, '\n', 0);
        if end < s.len() {
            assert(s[end] == '\n');
            assert(false);
        }
        assert(s.subrange(0, s.len() as int) =~= s);
        assert(all[0] == lines@[0]@);
    }
}

// Replacing

proof fn lemma_replaced_shifts(
    s: Seq<char>,
    old_text: Seq<char>,
    new_text: Seq<char>,
    i: int,
    j: int,
)
    requires
        0 <= i <= j <= s.len(),
        old_text.len() > 0,
    ensures
        text::replaced_from(s, old_text, new_text, j) == text::replaced_from(
            s.skip(i),
            old_text,
            new_text,
            j - i,
        ),
    decreases s.len() - j,
{
    let t = s.skip(i);
    let n = old_text.len() as int;
    if j + n <= s.len() {
        assert(s.subrange(j, j + n) =~= t.subrange(j - i, j - i + n));
    }
    assert(text::occurs_at(s, old_text, j) == text::occurs_at(t, old_text, j - i));
    if text::occurs_at(s, old_text, j) {
        lemma_replaced_shifts(s, old_text, new_text, i, j + n);
    } else if j < s.len() {
        lemma_replaced_shifts(s, old_text, new_text, i, j + 1);
    }
}

proof fn lemma_first_replaced(
    s: Seq<char>,
    old_text: Seq<char>,
    new_text: Seq<char>,
    i: int,
    p: int,
)
    requires
        0 <= i <= p,
        old_text.len() > 0,
        text::occurs_at(s, old_text, p),
        forall|q: int| i <= q < p ==> !#[trigger] text::occurs_at(s, old_text, q),
    ensures
        text::replaced_from(s, old_text, new_text, i) == s.subrange(i, p) + new_text
            + text::replaced_from(s, old_text, new_text, p + old_text.len()),
    decreases p - i,
{
    let rest = text::replaced_from(s, old_text, new_text, p + old_text.len());
    if i == p {
        assert(s.subrange(i, p) + new_text =~= new_text);
    } else {
        assert(!text::occurs_at(s, old_text, i));
        lemma_first_replaced(s, old_text, new_text, i + 1, p);
        assert(seq![s[i]] + (s.subrange(i + 1, p) + new_text + rest) =~= s.subrange(i, p) + new_text
            + rest);
    }
}

/// Every occurrence is replaced: the first one, and then those in what stands behind
/// it.
pub proof fn lemma_replacing_goes_on(
    s: Seq<char>,
    old_text: Seq<char>,
    new_text: Seq<char>,
    p: int,
)
    requires
        old_text.len() > 0,
        text::occurs_at(s, old_text, p),
        forall|q: int| 0 <= q < p ==> !#[trigger] text::occurs_at(s, old_text, q),
    ensures
        text::replaced(s, old_text, new_text) == s.take(p) + new_text + text::replaced(
            s.skip(p + old_text.len()),
            old_text,
            new_text,
        ),
{
    lemma_first_replaced(s, old_text, new_text, 0, p);
    let n = p + old_text.len();
    lemma_replaced_shifts(s, old_text, new_text, n, n);
    assert(s.subrange(0, p) =~= s.take(p));
}

/// Every occurrence is replaced: the first one, and then those in what stands behind
/// it.
pub proof fn law_every_occurrence_is_replaced(
    chars: &Vec<char>,
    old_text: &Vec<char>,
    new_text: &Vec<char>,
    out: Vec<char>,
    p: int,
    rest: &Vec<char>,
    others: Vec<char>,
)
    requires
        old_text@.len() > 0,
        call_ensures(replace_of, (chars, old_text, new_text), out),
        text::occurs_at(chars@, old_text@, p),
        forall|q: int| 0 <= q < p ==> !#[trigger] text::occurs_at(chars@, old_text@, q),
        rest@ == chars@.skip(p + old_text@.len()),
        call_ensures(replace_of, (rest, old_text, new_text), others),
    ensures
        out@ == chars@.take(p) + new_text@ + others@,
{
    lemma_replacing_goes_on(chars@, old_text@, new_text@, p);
}

// White space and words

/// White space is what Unicode takes for it: in ASCII the space, the tabs, the feeds
/// and the carriage return.
pub proof fn law_white_space(c: char, r: bool)
    requires
        call_ensures(white, (c,), r),
    ensures
        c <= '\u{7f}' ==> (r <==> c == ' ' || c == '\t' || c == '\n' || c == '\u{b}' || c == '\u{c}'
            || c == '\r'),
        c > '\u{7f}' ==> (r <==> c == '\u{85}' || c == '\u{a0}' || c == '\u{1680}' || ('\u{2000}'
            <= c <= '\u{200a}') || c == '\u{2028}' || c == '\u{2029}' || c == '\u{202f}' || c
            == '\u{205f}' || c == '\u{3000}'),
{
}

proof fn lemma_next_white_shifts(s: Seq<char>, want: bool, i: int, j: int)
    requires
        0 <= i <= j <= s.len(),
    ensures
        text::next_white(s, want, j) == i + text::next_white(s.skip(i), want, j - i),
    decreases s.len() - j,
{
    if j < s.len() {
        assert(s[j] == s.skip(i)[j - i]);
        if text::is_white(s[j]) != want {
            lemma_next_white_shifts(s, want, i, j + 1);
        }
    }
}

proof fn lemma_words_shift(s: Seq<char>, i: int, j: int)
    requires
        0 <= i <= j <= s.len(),
    ensures
        text::words_from(s, j) == text::words_from(s.skip(i), j - i),
    decreases s.len() - j,
{
    let t = s.skip(i);
    if j < s.len() {
        text::lemma_next_white(s, false, j);
        let start = text::next_white(s, false, j);
        text::lemma_next_white(s, true, start);
        let end = text::next_white(s, true, start);
        lemma_next_white_shifts(s, false, i, j);
        lemma_next_white_shifts(s, true, i, start);
        if start < s.len() {
            assert(s.subrange(start, end) =~= t.subrange(start - i, end - i));
            lemma_words_shift(s, i, end);
        }
    }
}

/// A word goes from one white space to the next, however much there is of it; the
/// other words are those of what stands behind.
pub proof fn law_word_stands_between_white_space(
    chars: &Vec<char>,
    words: Vec<Vec<char>>,
    blank: Seq<char>,
    word: Seq<char>,
    rest: &Vec<char>,
    others: Vec<Vec<char>>,
    k: int,
)
    requires
        call_ensures(words_of, (chars,), words),
        call_ensures(words_of, (rest,), others),
        forall|j: int| 0 <= j < blank.len() ==> text::is_white(#[trigger] blank[j]),
        text::is_word(word),
        rest@.len() > 0 ==> text::is_white(rest@[0]),
        chars@ == blank + word + rest@,
    ensures
        words@.len() == others@.len() + 1,
        words@[0]@ == word,
        0 <= k < others@.len() ==> words@[k + 1]@ == others@[k]@,
{
    let s = chars@;
    let a = blank.len() as int;
    let b = a + word.len();
    text::lemma_next_white(s, false, 0);
    assert(s[a] == word[0]);
    assert(!text::is_white(word[0]));
    let start = text::next_white(s, false, 0);
    if start < a {
        assert(s[start] == blank[start]);
        assert(false);
    }
    assert(start == a);
    text::lemma_next_white(s, true, a);
    let end = text::next_white(s, true, a);
    if end < b {
        assert(s[end] == word[end - a]);
        assert(false);
    }
    if rest@.len() > 0 {
        assert(s[b] == rest@[0]);
    }
    assert(end == b);
    assert(s.subrange(a, b) =~= word);
    lemma_words_shift(s, b, b);
    assert(s.skip(b) =~= rest@);
    let all = text::texts(words@);
    let tail = text::texts(others@);
    assert(all.len() == words@.len());
    assert(tail.len() == others@.len());
    assert(all == seq![word] + tail);
    assert(all[0] == words@[0]@);
    if 0 <= k < others@.len() {
        assert(all[k + 1] == words@[k + 1]@);
        assert(tail[k] == others@[k]@);
    }
}

/// A text of white space alone has no words.
pub proof fn law_white_space_holds_no_words(chars: &Vec<char>, words: Vec<Vec<char>>)
    requires
        call_ensures(words_of, (chars,), words),
        forall|j: int| 0 <= j < chars@.len() ==> text::is_white(#[trigger] chars@[j]),
    ensures
        words@.len() == 0,
{
    let s = chars@;
    text::lemma_next_white(s, false, 0);
    let start = text::next_white(s, false, 0);
    if start < s.len() {
        assert(text::is_white(s[start]));
        assert(false);
    }
    assert(text::texts(words@).len() == words@.len());
}

// Finding

/// What is found is the first place where the text stands; nothing is found where it
/// stands nowhere behind the start.
pub proof fn law_first_place_is_found(
    chars: &Vec<char>,
    part: &Vec<char>,
    from: usize,
    r: Option<usize>,
    held: bool,
    q: int,
)
    requires
        from <= chars@.len(),
        call_ensures(find, (chars, part, from), r),
        call_ensures(has, (chars, part), held),
    ensures
        r matches Some(i) ==> from <= i && i + part@.len() <= chars@.len() && chars@.subrange(
            i as int,
            i as int + part@.len(),
        ) == part@,
        r is Some && from <= q < r->0 ==> !text::occurs_at(chars@, part@, q),
        r is None && from <= q ==> !text::occurs_at(chars@, part@, q),
        held <==> exists|i: int|
            0 <= i && i + part@.len() <= chars@.len() && #[trigger] chars@.subrange(
                i,
                i + part@.len(),
            ) == part@,
{
    text::lemma_find_from(chars@, part@, from as int);
    if held {
        let i = choose|i: int| text::occurs_at(chars@, part@, i);
        assert(chars@.subrange(i, i + part@.len()) == part@);
    }
    if exists|i: int|
        0 <= i && i + part@.len() <= chars@.len() && #[trigger] chars@.subrange(i, i + part@.len())
            == part@ {
        let i = choose|i: int|
            0 <= i && i + part@.len() <= chars@.len() && #[trigger] chars@.subrange(
                i,
                i + part@.len(),
            ) == part@;
        assert(text::occurs_at(chars@, part@, i));
    }
}

} // verus!
