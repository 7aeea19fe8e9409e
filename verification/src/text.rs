//! Text as sequences of characters.
//!
//! The SIP and SDP rules of the bridge are stated over `Seq<char>`. The
//! executable functions here work on vectors of characters and are proved to
//! compute the specification functions of the same subject.

use vstd::prelude::*;

verus! {

broadcast use vstd::string::group_string_axioms;

/// `String::push`: appends one character to the end of the string.
pub assume_specification[ String::push ](string: &mut String, c: char)
    ensures
        final(string)@ == old(string)@.push(c),
;

/// `std::str::from_utf8`: the text that the bytes encode, where they are valid
/// UTF-8, and nothing where they are not.
#[verifier::external_body]
pub(crate) fn utf8_text(bytes: &Vec<u8>) -> (text: Option<String>)
    ensures
        text is Some <==> vstd::utf8::valid_utf8(bytes@),
        text matches Some(t) ==> t@ == vstd::utf8::decode_utf8(bytes@),
{
    std::str::from_utf8(bytes).ok().map(str::to_owned)
}

// Specifications

/// The contents of a list of texts.
pub open spec fn texts(list: Seq<Vec<char>>) -> Seq<Seq<char>> {
    list.map_values(|t: Vec<char>| t@)
}

/// The contents of a list of strings.
pub open spec fn strings(list: Seq<String>) -> Seq<Seq<char>> {
    list.map_values(|t: String| t@)
}

/// The contents of an optional string.
pub open spec fn opt_text(text: Option<String>) -> Option<Seq<char>> {
    match text {
        Some(t) => Some(t@),
        None => None,
    }
}

/// The characters with the Unicode `White_Space` property.
pub open spec fn is_white(c: char) -> bool {
    ||| '\u{9}' <= c <= '\u{d}'
    ||| c == ' '
    ||| c == '\u{85}'
    ||| c == '\u{a0}'
    ||| c == '\u{1680}'
    ||| '\u{2000}' <= c <= '\u{200a}'
    ||| c == '\u{2028}'
    ||| c == '\u{2029}'
    ||| c == '\u{202f}'
    ||| c == '\u{205f}'
    ||| c == '\u{3000}'
}

pub open spec fn is_digit(c: char) -> bool {
    '0' <= c <= '9'
}

/// ASCII lower case of one character.
pub open spec fn lower_char(c: char) -> char {
    if 'A' <= c <= 'Z' {
        ((c as u8) + 32) as u8 as char
    } else {
        c
    }
}

/// ASCII lower case of a text.
pub open spec fn lower(s: Seq<char>) -> Seq<char> {
    s.map_values(|c: char| lower_char(c))
}

/// Whether `pat` stands in `s` at position `i`.
pub open spec fn occurs_at(s: Seq<char>, pat: Seq<char>, i: int) -> bool {
    &&& 0 <= i
    &&& i + pat.len() <= s.len()
    &&& s.subrange(i, i + pat.len()) == pat
}

pub open spec fn starts_with(s: Seq<char>, pat: Seq<char>) -> bool {
    occurs_at(s, pat, 0)
}

/// Whether `pat` stands anywhere in `s`.
pub open spec fn contains(s: Seq<char>, pat: Seq<char>) -> bool {
    exists|i: int| occurs_at(s, pat, i)
}

/// The first position at or after `i` where `pat` stands in `s`, if any.
pub open spec fn find_from(s: Seq<char>, pat: Seq<char>, i: int) -> Option<int>
    decreases s.len() - i + 1,
{
    if i < 0 || i > s.len() {
        None
    } else if occurs_at(s, pat, i) {
        Some(i)
    } else {
        find_from(s, pat, i + 1)
    }
}

/// The first position at or after `i` that holds `c`, or the length.
pub open spec fn next_char(s: Seq<char>, c: char, i: int) -> int
    decreases s.len() - i,
{
    if i >= s.len() {
        s.len() as int
    } else if s[i] == c {
        i
    } else {
        next_char(s, c, i + 1)
    }
}

/// The first position at or after `i` whose character is white space exactly
/// when `white` says so, or the length.
pub open spec fn next_white(s: Seq<char>, white: bool, i: int) -> int
    decreases s.len() - i,
{
    if i >= s.len() {
        s.len() as int
    } else if is_white(s[i]) == white {
        i
    } else {
        next_white(s, white, i + 1)
    }
}

/// One line without the carriage return that may stand before its line feed.
pub open spec fn strip_cr(line: Seq<char>) -> Seq<char> {
    if line.len() > 0 && line.last() == '\r' {
        line.drop_last()
    } else {
        line
    }
}

/// The lines of `s` from position `i` on. A line ends with a line feed, which
/// may follow a carriage return; the last line needs no end.
pub open spec fn lines_from(s: Seq<char>, i: int) -> Seq<Seq<char>>
    decreases s.len() - i,
{
    if i < 0 || i >= s.len() {
        Seq::empty()
    } else {
        let end = next_char(s, '\n', i);
        proof {
            lemma_next_char(s, '\n', i);
        }
        if end >= s.len() {
            seq![s.subrange(i, s.len() as int)]
        } else {
            seq![strip_cr(s.subrange(i, end))] + lines_from(s, end + 1)
        }
    }
}

pub open spec fn lines(s: Seq<char>) -> Seq<Seq<char>> {
    lines_from(s, 0)
}

/// The maximal runs of characters other than white space, from `i` on.
pub open spec fn words_from(s: Seq<char>, i: int) -> Seq<Seq<char>>
    decreases s.len() - i,
{
    if i < 0 || i >= s.len() {
        Seq::empty()
    } else {
        let start = next_white(s, false, i);
        let end = next_white(s, true, start);
        proof {
            lemma_next_white(s, false, i);
            lemma_next_white(s, true, start);
        }
        if start >= s.len() {
            Seq::empty()
        } else {
            seq![s.subrange(start, end)] + words_from(s, end)
        }
    }
}

pub open spec fn words(s: Seq<char>) -> Seq<Seq<char>> {
    words_from(s, 0)
}

/// The pieces of `s` between occurrences of `c`, from position `i` on.
pub open spec fn split_from(s: Seq<char>, c: char, i: int) -> Seq<Seq<char>>
    decreases s.len() - i,
{
    if i < 0 || i > s.len() {
        Seq::empty()
    } else {
        let end = next_char(s, c, i);
        proof {
            lemma_next_char(s, c, i);
        }
        if end >= s.len() {
            seq![s.subrange(i, s.len() as int)]
        } else {
            seq![s.subrange(i, end)] + split_from(s, c, end + 1)
        }
    }
}

pub open spec fn split(s: Seq<char>, c: char) -> Seq<Seq<char>> {
    split_from(s, c, 0)
}

/// The parts one after the other with `sep` between them.
pub open spec fn join(parts: Seq<Seq<char>>, sep: Seq<char>) -> Seq<char>
    decreases parts.len(),
{
    if parts.len() == 0 {
        Seq::empty()
    } else if parts.len() == 1 {
        parts[0]
    } else {
        join(parts.drop_last(), sep) + sep + parts.last()
    }
}

/// `s` without white space at its start.
pub open spec fn trim_start(s: Seq<char>) -> Seq<char> {
    s.subrange(next_white(s, false, 0), s.len() as int)
}

/// `s` without white space at its end.
pub open spec fn trim_end(s: Seq<char>) -> Seq<char>
    decreases s.len(),
{
    if s.len() > 0 && is_white(s.last()) {
        trim_end(s.drop_last())
    } else {
        s
    }
}

pub open spec fn trim(s: Seq<char>) -> Seq<char> {
    trim_end(trim_start(s))
}

/// The text from position `i` on with every occurrence of `old_text` replaced,
/// taken from left to right without overlap.
pub open spec fn replaced_from(
    s: Seq<char>,
    old_text: Seq<char>,
    new_text: Seq<char>,
    i: int,
) -> Seq<char>
    decreases s.len() - i,
{
    if i < 0 || i > s.len() {
        Seq::empty()
    } else if old_text.len() == 0 {
        if i == s.len() {
            new_text
        } else {
            new_text + seq![s[i]] + replaced_from(s, old_text, new_text, i + 1)
        }
    } else if occurs_at(s, old_text, i) {
        new_text + replaced_from(s, old_text, new_text, i + old_text.len())
    } else if i == s.len() {
        Seq::empty()
    } else {
        seq![s[i]] + replaced_from(s, old_text, new_text, i + 1)
    }
}

pub open spec fn replaced(s: Seq<char>, old_text: Seq<char>, new_text: Seq<char>) -> Seq<char> {
    replaced_from(s, old_text, new_text, 0)
}

/// The number that a run of decimal digits denotes.
pub open spec fn digits_value(s: Seq<char>) -> nat
    decreases s.len(),
{
    if s.len() == 0 {
        0
    } else {
        digits_value(s.drop_last()) * 10 + ((s.last() as u32) - ('0' as u32)) as nat
    }
}

pub open spec fn all_digits(s: Seq<char>) -> bool {
    forall|i: int| 0 <= i < s.len() ==> is_digit(#[trigger] s[i])
}

/// The digits of a number text, behind the plus sign that it may begin with.
pub open spec fn unsigned_digits(s: Seq<char>) -> Seq<char> {
    if s.len() > 0 && s[0] == '+' {
        s.skip(1)
    } else {
        s
    }
}

/// The value of an unsigned decimal number of at most `max`, with or without
/// a plus sign.
pub open spec fn parse_unsigned(s: Seq<char>, max: nat) -> Option<nat> {
    let digits = unsigned_digits(s);
    if digits.len() > 0 && all_digits(digits) && digits_value(digits) <= max {
        Some(digits_value(digits))
    } else {
        None
    }
}

pub open spec fn digit_char(n: nat) -> char {
    ((n % 10) as u8 + ('0' as u8)) as u8 as char
}

/// The decimal notation of a number.
pub open spec fn decimal(n: nat) -> Seq<char>
    decreases n,
{
    if n < 10 {
        seq![digit_char(n)]
    } else {
        decimal(n / 10).push(digit_char(n))
    }
}

/// The decimal notation of a signed number.
pub open spec fn signed_decimal(n: int) -> Seq<char> {
    if n < 0 {
        seq!['-'] + decimal((-n) as nat)
    } else {
        decimal(n as nat)
    }
}

// Facts about the specifications

pub proof fn lemma_next_char(s: Seq<char>, c: char, i: int)
    requires
        0 <= i <= s.len(),
    ensures
        i <= next_char(s, c, i) <= s.len(),
        next_char(s, c, i) < s.len() ==> s[next_char(s, c, i)] == c,
        forall|j: int| i <= j < next_char(s, c, i) ==> s[j] != c,
    decreases s.len() - i,
{
    if i < s.len() && s[i] != c {
        lemma_next_char(s, c, i + 1);
    }
}

pub proof fn lemma_next_white(s: Seq<char>, white: bool, i: int)
    requires
        0 <= i <= s.len(),
    ensures
        i <= next_white(s, white, i) <= s.len(),
        next_white(s, white, i) < s.len() ==> is_white(s[next_white(s, white, i)]) == white,
        forall|j: int| i <= j < next_white(s, white, i) ==> is_white(s[j]) != white,
    decreases s.len() - i,
{
    if i < s.len() && is_white(s[i]) != white {
        lemma_next_white(s, white, i + 1);
    }
}

// Computation

/// The characters of a string slice, in order.
pub fn to_chars(text: &str) -> (out: Vec<char>)
    ensures
        out@ == text@,
{
    let mut out: Vec<char> = Vec::new();
    for c in iter: text.chars()
        invariant
            iter.seq() == text@,
            out@ == text@.take(iter.index() as int),
    {
        out.push(c);
    }
    assert(text@.take(text@.len() as int) =~= text@);
    out
}

/// The string made of the given characters.
pub fn from_chars(chars: &Vec<char>) -> (out: String)
    ensures
        out@ == chars@,
{
    let mut out = String::new();
    for i in 0..chars.len()
        invariant
            out@ == chars@.take(i as int),
    {
        out.push(chars[i]);
        assert(chars@.take(i as int).push(chars@[i as int]) =~= chars@.take(i + 1));
    }
    assert(chars@.take(chars@.len() as int) =~= chars@);
    out
}

/// A copy of the characters from `from` up to `to`.
pub fn slice_of(chars: &Vec<char>, from: usize, to: usize) -> (out: Vec<char>)
    requires
        from <= to <= chars@.len(),
    ensures
        out@ == chars@.subrange(from as int, to as int),
{
    let mut out: Vec<char> = Vec::new();
    for i in from..to
        invariant
            from <= to <= chars@.len(),
            out@ == chars@.subrange(from as int, i as int),
    {
        out.push(chars[i]);
        assert(chars@.subrange(from as int, i as int).push(chars@[i as int]) =~= chars@.subrange(
            from as int,
            i + 1,
        ));
    }
    out
}

/// A copy of a text.
pub fn copy_of(chars: &Vec<char>) -> (out: Vec<char>)
    ensures
        out@ == chars@,
{
    let out = slice_of(chars, 0, chars.len());
    assert(chars@.subrange(0, chars@.len() as int) =~= chars@);
    out
}

/// Appends the characters of `more`.
pub fn push_chars(out: &mut Vec<char>, more: &Vec<char>)
    ensures
        final(out)@ == old(out)@ + more@,
{
    let ghost start = out@;
    for i in 0..more.len()
        invariant
            out@ == start + more@.take(i as int),
    {
        out.push(more[i]);
        assert(start + more@.take(i + 1) =~= (start + more@.take(i as int)).push(more@[i as int]));
    }
    assert(more@.take(more@.len() as int) =~= more@);
}

/// Appends the characters of a string slice.
pub fn push_str(out: &mut Vec<char>, more: &str)
    ensures
        final(out)@ == old(out)@ + more@,
{
    push_chars(out, &to_chars(more));
}

/// Whether two texts are equal.
pub fn same(a: &Vec<char>, b: &Vec<char>) -> (r: bool)
    ensures
        r == (a@ == b@),
{
    if a.len() != b.len() {
        return false;
    }
    for i in 0..a.len()
        invariant
            a@.len() == b@.len(),
            forall|j: int| 0 <= j < i ==> a@[j] == b@[j],
    {
        if a[i] != b[i] {
            return false;
        }
    }
    assert(a@ =~= b@);
    true
}

/// Whether two string slices are equal.
pub fn same_str(a: &str, b: &str) -> (r: bool)
    ensures
        r == (a@ == b@),
{
    same(&to_chars(a), &to_chars(b))
}

/// Whether a text holds a NUL character.
pub fn has_nul(chars: &Vec<char>) -> (r: bool)
    ensures
        r == chars@.contains('\0'),
{
    for i in 0..chars.len()
        invariant
            forall|j: int| 0 <= j < i ==> chars@[j] != '\0',
    {
        if chars[i] == '\0' {
            return true;
        }
    }
    false
}

/// A copy of an optional string.
pub fn copy_opt(s: &Option<String>) -> (out: Option<String>)
    ensures
        opt_text(out) == opt_text(*s),
{
    match s {
        Some(t) => Some(t.clone()),
        None => None,
    }
}

/// Whether two optional strings are equal.
pub fn same_opt(a: &Option<String>, b: &Option<String>) -> (r: bool)
    ensures
        r == (opt_text(*a) == opt_text(*b)),
{
    match (a, b) {
        (Some(x), Some(y)) => same_str(x.as_str(), y.as_str()),
        (None, None) => true,
        _ => false,
    }
}

pub fn white(c: char) -> (r: bool)
    ensures
        r == is_white(c),
{
    ('\u{9}' <= c && c <= '\u{d}') || c == ' ' || c == '\u{85}' || c == '\u{a0}' || c == '\u{1680}'
        || ('\u{2000}' <= c && c <= '\u{200a}') || c == '\u{2028}' || c == '\u{2029}' || c
        == '\u{202f}' || c == '\u{205f}' || c == '\u{3000}'
}

/// The text in ASCII lower case.
pub fn to_lower(chars: &Vec<char>) -> (out: Vec<char>)
    ensures
        out@ == lower(chars@),
{
    let mut out: Vec<char> = Vec::new();
    for i in 0..chars.len()
        invariant
            out@ == lower(chars@).take(i as int),
    {
        let c = chars[i];
        let l = if 'A' <= c && c <= 'Z' {
            ((c as u8) + 32) as char
        } else {
            c
        };
        out.push(l);
        assert(lower(chars@).take(i + 1) =~= lower(chars@).take(i as int).push(
            lower_char(chars@[i as int]),
        ));
    }
    assert(lower(chars@).take(chars@.len() as int) =~= lower(chars@));
    out
}

/// Whether `pat` stands in `chars` at position `pos`.
pub fn at(chars: &Vec<char>, pat: &Vec<char>, pos: usize) -> (r: bool)
    ensures
        r == occurs_at(chars@, pat@, pos as int),
{
    if pos > chars.len() || chars.len() - pos < pat.len() {
        return false;
    }
    for i in 0..pat.len()
        invariant
            pos + pat@.len() <= chars@.len() <= usize::MAX,
            forall|j: int| 0 <= j < i ==> chars@[pos + j] == pat@[j],
    {
        if chars[pos + i] != pat[i] {
            assert(chars@.subrange(pos as int, pos + pat@.len())[i as int] == chars@[pos + i]);
            return false;
        }
    }
    assert(chars@.subrange(pos as int, pos + pat@.len()) =~= pat@);
    true
}

/// Whether the text begins with `pat`.
pub fn begins(chars: &Vec<char>, pat: &str) -> (r: bool)
    ensures
        r == starts_with(chars@, pat@),
{
    at(chars, &to_chars(pat), 0)
}

/// The text behind the prefix `pat`, where it begins with it.
pub fn after_prefix(chars: &Vec<char>, pat: &str) -> (r: Option<Vec<char>>)
    ensures
        r is Some <==> starts_with(chars@, pat@),
        r matches Some(rest) ==> rest@ == chars@.skip(pat@.len() as int),
{
    let p = to_chars(pat);
    if at(chars, &p, 0) {
        let rest = slice_of(chars, p.len(), chars.len());
        assert(chars@.subrange(pat@.len() as int, chars@.len() as int) =~= chars@.skip(
            pat@.len() as int,
        ));
        Some(rest)
    } else {
        None
    }
}

/// The first position at or after `from` where `pat` stands.
pub fn find(chars: &Vec<char>, pat: &Vec<char>, from: usize) -> (r: Option<usize>)
    ensures
        match r {
            Some(i) => find_from(chars@, pat@, from as int) == Some(i as int),
            None => find_from(chars@, pat@, from as int) is None,
        },
{
    if from > chars.len() {
        return None;
    }
    let mut i: usize = from;
    while i < chars.len()
        invariant
            from <= i <= chars@.len(),
            find_from(chars@, pat@, from as int) == find_from(chars@, pat@, i as int),
        decreases chars@.len() - i,
    {
        if at(chars, pat, i) {
            return Some(i);
        }
        i = i + 1;
    }
    if at(chars, pat, i) {
        return Some(i);
    }
    assert(find_from(chars@, pat@, i + 1) is None);
    None
}

pub proof fn lemma_find_from(s: Seq<char>, pat: Seq<char>, i: int)
    requires
        0 <= i,
    ensures
        find_from(s, pat, i) matches Some(p) ==> i <= p && occurs_at(s, pat, p),
        find_from(s, pat, i) matches Some(p) ==> forall|j: int|
            i <= j < p ==> !occurs_at(s, pat, j),
        find_from(s, pat, i) is None ==> forall|j: int| i <= j ==> !occurs_at(s, pat, j),
    decreases s.len() - i + 1,
{
    if i <= s.len() && !occurs_at(s, pat, i) {
        lemma_find_from(s, pat, i + 1);
    }
}

/// Whether `pat` stands anywhere in the text.
pub fn has(chars: &Vec<char>, pat: &Vec<char>) -> (r: bool)
    ensures
        r == contains(chars@, pat@),
{
    let found = find(chars, pat, 0);
    proof {
        lemma_find_from(chars@, pat@, 0);
    }
    found.is_some()
}

/// Whether `pat` stands anywhere in the text.
pub fn has_str(chars: &Vec<char>, pat: &str) -> (r: bool)
    ensures
        r == contains(chars@, pat@),
{
    has(chars, &to_chars(pat))
}

/// The first position at or after `from` that holds `c`, or the length.
pub fn find_char(chars: &Vec<char>, c: char, from: usize) -> (r: usize)
    requires
        from <= chars@.len(),
    ensures
        r == next_char(chars@, c, from as int),
        from <= r <= chars@.len(),
{
    let mut i: usize = from;
    while i < chars.len()
        invariant
            from <= i <= chars@.len(),
            next_char(chars@, c, from as int) == next_char(chars@, c, i as int),
        decreases chars@.len() - i,
    {
        if chars[i] == c {
            return i;
        }
        i = i + 1;
    }
    i
}

/// The first position at or after `from` that is white space exactly when
/// `want` says so, or the length.
pub fn find_white(chars: &Vec<char>, want: bool, from: usize) -> (r: usize)
    requires
        from <= chars@.len(),
    ensures
        r == next_white(chars@, want, from as int),
        from <= r <= chars@.len(),
{
    let mut i: usize = from;
    while i < chars.len()
        invariant
            from <= i <= chars@.len(),
            next_white(chars@, want, from as int) == next_white(chars@, want, i as int),
        decreases chars@.len() - i,
    {
        if white(chars[i]) == want {
            return i;
        }
        i = i + 1;
    }
    i
}

/// The lines of a text.
pub fn lines_of(chars: &Vec<char>) -> (out: Vec<Vec<char>>)
    ensures
        texts(out@) == lines(chars@),
{
    let mut out: Vec<Vec<char>> = Vec::new();
    let mut i: usize = 0;
    assert(texts(out@) + lines_from(chars@, 0) =~= lines(chars@));
    while i < chars.len()
        invariant
            0 <= i <= chars@.len(),
            texts(out@) + lines_from(chars@, i as int) == lines(chars@),
        decreases chars@.len() - i,
    {
        let end = find_char(chars, '\n', i);
        let ghost before = texts(out@);
        if end >= chars.len() {
            let line = slice_of(chars, i, chars.len());
            out.push(line);
            assert(texts(out@) =~= before.push(line@));
            assert(lines_from(chars@, chars@.len() as int) =~= Seq::<Seq<char>>::empty());
            assert(texts(out@) + lines_from(chars@, chars@.len() as int) =~= before + lines_from(
                chars@,
                i as int,
            ));
            i = chars.len();
        } else {
            let stop = if end > i && chars[end - 1] == '\r' {
                end - 1
            } else {
                end
            };
            let line = slice_of(chars, i, stop);
            proof {
                let raw = chars@.subrange(i as int, end as int);
                if stop < end {
                    assert(raw.last() == '\r');
                    assert(raw.drop_last() =~= line@);
                } else {
                    assert(raw =~= line@);
                }
                assert(line@ == strip_cr(raw));
            }
            out.push(line);
            assert(texts(out@) =~= before.push(line@));
            assert(texts(out@) + lines_from(chars@, end + 1) =~= before + lines_from(
                chars@,
                i as int,
            ));
            i = end + 1;
        }
    }
    assert(lines_from(chars@, i as int) =~= Seq::<Seq<char>>::empty());
    assert(texts(out@) =~= lines(chars@));
    out
}

/// The words of a text.
pub fn words_of(chars: &Vec<char>) -> (out: Vec<Vec<char>>)
    ensures
        texts(out@) == words(chars@),
{
    let mut out: Vec<Vec<char>> = Vec::new();
    let mut i: usize = 0;
    assert(texts(out@) + words_from(chars@, 0) =~= words(chars@));
    while i < chars.len()
        invariant
            0 <= i <= chars@.len(),
            texts(out@) + words_from(chars@, i as int) == words(chars@),
        decreases chars@.len() - i,
    {
        let start = find_white(chars, false, i);
        let end = find_white(chars, true, start);
        proof {
            lemma_next_white(chars@, false, i as int);
            lemma_next_white(chars@, true, start as int);
        }
        let ghost before = texts(out@);
        if start < chars.len() {
            assert(end > start);
            let word = slice_of(chars, start, end);
            out.push(word);
            assert(texts(out@) =~= before.push(word@));
            assert(texts(out@) + words_from(chars@, end as int) =~= before + words_from(
                chars@,
                i as int,
            ));
            i = end;
        } else {
            assert(words_from(chars@, i as int) =~= words_from(chars@, chars@.len() as int));
            i = chars.len();
        }
    }
    assert(words_from(chars@, i as int) =~= Seq::<Seq<char>>::empty());
    assert(texts(out@) =~= words(chars@));
    out
}

/// The pieces of a text between occurrences of `c`.
pub fn split_of(chars: &Vec<char>, c: char) -> (out: Vec<Vec<char>>)
    ensures
        texts(out@) == split(chars@, c),
{
    let mut out: Vec<Vec<char>> = Vec::new();
    let mut i: usize = 0;
    let mut end: usize = find_char(chars, c, 0);
    assert(texts(out@) + split_from(chars@, c, 0) =~= split(chars@, c));
    while end < chars.len()
        invariant
            0 <= i <= end <= chars@.len(),
            end == next_char(chars@, c, i as int),
            texts(out@) + split_from(chars@, c, i as int) == split(chars@, c),
        decreases chars@.len() - i,
    {
        let ghost before = texts(out@);
        let piece = slice_of(chars, i, end);
        out.push(piece);
        assert(texts(out@) =~= before.push(piece@));
        assert(texts(out@) + split_from(chars@, c, end + 1) =~= before + split_from(
            chars@,
            c,
            i as int,
        ));
        i = end + 1;
        end = find_char(chars, c, i);
    }
    let ghost before = texts(out@);
    let piece = slice_of(chars, i, chars.len());
    out.push(piece);
    assert(texts(out@) =~= before.push(piece@));
    assert(texts(out@) =~= before + split_from(chars@, c, i as int));
    out
}

/// The parts one after the other with `sep` between them.
pub fn join_of(parts: &Vec<Vec<char>>, sep: &str) -> (out: Vec<char>)
    ensures
        out@ == join(texts(parts@), sep@),
{
    let s = to_chars(sep);
    let mut out: Vec<char> = Vec::new();
    let ghost all = texts(parts@);
    assert(all.take(0) =~= Seq::<Seq<char>>::empty());
    for i in 0..parts.len()
        invariant
            s@ == sep@,
            all == texts(parts@),
            out@ == join(all.take(i as int), sep@),
    {
        assert(all.take(i + 1).drop_last() =~= all.take(i as int));
        assert(all.take(i + 1).last() == parts@[i as int]@);
        if i > 0 {
            push_chars(&mut out, &s);
            push_chars(&mut out, &parts[i]);
        } else {
            assert(all.take(0) =~= Seq::<Seq<char>>::empty());
            push_chars(&mut out, &parts[i]);
            assert(out@ =~= parts@[0]@);
        }
    }
    assert(all.take(parts@.len() as int) =~= all);
    out
}

/// The text without white space at either end.
pub fn trim_of(chars: &Vec<char>) -> (out: Vec<char>)
    ensures
        out@ == trim(chars@),
{
    let start = find_white(chars, false, 0);
    proof {
        lemma_next_white(chars@, false, 0);
    }
    let mut end: usize = chars.len();
    let ghost head = trim_start(chars@);
    assert(head =~= chars@.subrange(start as int, end as int));
    while end > start && white(chars[end - 1])
        invariant
            start <= end <= chars@.len(),
            trim_end(head) == trim_end(chars@.subrange(start as int, end as int)),
        decreases end,
    {
        assert(chars@.subrange(start as int, end as int).drop_last() =~= chars@.subrange(
            start as int,
            end - 1,
        ));
        assert(chars@.subrange(start as int, end as int).last() == chars@[end - 1]);
        end = end - 1;
    }
    let out = slice_of(chars, start, end);
    assert(out@.len() > 0 ==> out@.last() == chars@[end - 1]);
    out
}

/// The text without white space at its start.
pub fn trim_start_of(chars: &Vec<char>) -> (out: Vec<char>)
    ensures
        out@ == trim_start(chars@),
{
    let start = find_white(chars, false, 0);
    slice_of(chars, start, chars.len())
}

/// The text with every occurrence of `old_text` replaced by `new_text`.
pub fn replace_of(chars: &Vec<char>, old_text: &Vec<char>, new_text: &Vec<char>) -> (out: Vec<char>)
    ensures
        out@ == replaced(chars@, old_text@, new_text@),
{
    let mut out: Vec<char> = Vec::new();
    let mut i: usize = 0;
    let ghost s = chars@;
    let ghost o = old_text@;
    let ghost n = new_text@;
    assert(out@ + replaced_from(s, o, n, 0) =~= replaced(s, o, n));
    while i < chars.len()
        invariant
            s == chars@,
            o == old_text@,
            n == new_text@,
            0 <= i <= s.len(),
            out@ + replaced_from(s, o, n, i as int) == replaced(s, o, n),
        decreases s.len() - i,
    {
        let ghost before = out@;
        if old_text.len() == 0 {
            push_chars(&mut out, new_text);
            out.push(chars[i]);
            assert(out@ + replaced_from(s, o, n, i + 1) =~= before + replaced_from(s, o, n, i as int));
            i = i + 1;
        } else if at(chars, old_text, i) {
            push_chars(&mut out, new_text);
            assert(out@ + replaced_from(s, o, n, i + o.len()) =~= before + replaced_from(
                s,
                o,
                n,
                i as int,
            ));
            i = i + old_text.len();
        } else {
            out.push(chars[i]);
            assert(out@ + replaced_from(s, o, n, i + 1) =~= before + replaced_from(s, o, n, i as int));
            i = i + 1;
        }
    }
    if old_text.len() == 0 {
        push_chars(&mut out, new_text);
    } else {
        assert(replaced_from(s, o, n, i as int) =~= Seq::<char>::empty());
    }
    assert(out@ =~= replaced(s, o, n));
    out
}

pub proof fn lemma_digits_value_bound(s: Seq<char>, n: int)
    requires
        all_digits(s),
        0 <= n <= s.len(),
    ensures
        digits_value(s.take(n)) <= digits_value(s),
    decreases s.len() - n,
{
    if n < s.len() {
        lemma_digits_value_bound(s, n + 1);
        assert(s.take(n + 1).drop_last() =~= s.take(n));
        assert(s.take(n + 1).last() == s[n]);
    } else {
        assert(s.take(n) =~= s);
    }
}

/// The number that a text denotes, if it is an unsigned decimal number that
/// fits in 64 bits and is at most `max`.
pub fn number_of(chars: &Vec<char>, max: u64) -> (r: Option<u64>)
    ensures
        match r {
            Some(n) => parse_unsigned(chars@, max as nat) == Some(n as nat),
            None => parse_unsigned(chars@, max as nat) is None,
        },
{
    let start: usize = if chars.len() > 0 && chars[0] == '+' {
        1
    } else {
        0
    };
    let ghost d = unsigned_digits(chars@);
    assert(d =~= chars@.skip(start as int));
    if start == chars.len() {
        return None;
    }
    let mut n: u64 = 0;
    for i in start..chars.len()
        invariant
            start < chars@.len(),
            d == unsigned_digits(chars@),
            d == chars@.skip(start as int),
            forall|j: int| start <= j < i ==> is_digit(#[trigger] chars@[j]),
            n == digits_value(d.take(i - start)),
            n <= max,
    {
        let c = chars[i];
        if !('0' <= c && c <= '9') {
            assert(d[i - start] == c);
            return None;
        }
        let v: u64 = (c as u32 - '0' as u32) as u64;
        assert(d.take(i + 1 - start).drop_last() =~= d.take(i - start));
        assert(d.take(i + 1 - start).last() == c);
        assert(digits_value(d.take(i + 1 - start)) == n * 10 + v);
        if v > max || n > max / 10 || n * 10 > max - v {
            proof {
                assert(n * 10 + v > max);
                if all_digits(d) {
                    lemma_digits_value_bound(d, i + 1 - start);
                }
            }
            return None;
        }
        n = n * 10 + v;
    }
    assert(d.take(chars@.len() - start) =~= d);
    assert forall|k: int| 0 <= k < d.len() implies is_digit(#[trigger] d[k]) by {
        assert(d[k] == chars@[k + start]);
    }
    Some(n)
}

/// The number that a text denotes, if it is an unsigned decimal number that
/// fits in 32 bits.
pub fn parse_u32(chars: &Vec<char>) -> (r: Option<u32>)
    ensures
        match r {
            Some(n) => parse_unsigned(chars@, u32::MAX as nat) == Some(n as nat),
            None => parse_unsigned(chars@, u32::MAX as nat) is None,
        },
{
    match number_of(chars, u32::MAX as u64) {
        Some(n) => Some(n as u32),
        None => None,
    }
}

/// The decimal notation of a number.
pub fn decimal_of(n: u64) -> (out: Vec<char>)
    ensures
        out@ == decimal(n as nat),
    decreases n,
{
    let digit = ((n % 10) as u8 + '0' as u8) as char;
    if n < 10 {
        let mut out: Vec<char> = Vec::new();
        out.push(digit);
        assert(out@ =~= decimal(n as nat));
        out
    } else {
        let mut out = decimal_of(n / 10);
        out.push(digit);
        out
    }
}

/// The decimal notation of a signed number.
pub fn signed_decimal_of(n: i32) -> (out: Vec<char>)
    ensures
        out@ == signed_decimal(n as int),
{
    if n < 0 {
        let mut out: Vec<char> = Vec::new();
        out.push('-');
        let magnitude: u64 = (-(n as i64)) as u64;
        let digits = decimal_of(magnitude);
        push_chars(&mut out, &digits);
        assert(out@ =~= signed_decimal(n as int));
        out
    } else {
        decimal_of(n as u64)
    }
}

// Lines and words that are put together and taken apart again

/// Whether a text holds a character.
pub open spec fn holds(s: Seq<char>, c: char) -> bool {
    exists|k: int| 0 <= k < s.len() && #[trigger] s[k] == c
}

/// Lines, each with its ending, from the first one on.
spec fn terminated(list: Seq<Seq<char>>) -> Seq<char>
    decreases list.len(),
{
    if list.len() == 0 {
        Seq::empty()
    } else {
        list[0] + seq!['\r', '\n'] + terminated(list.skip(1))
    }
}

proof fn lemma_terminated_push(list: Seq<Seq<char>>, last: Seq<char>)
    ensures
        terminated(list.push(last)) == terminated(list) + last + seq!['\r', '\n'],
    decreases list.len(),
{
    let all = list.push(last);
    if list.len() == 0 {
        assert(all.skip(1) =~= Seq::<Seq<char>>::empty());
        assert(terminated(all.skip(1)) =~= Seq::<char>::empty());
        assert(terminated(all) =~= terminated(list) + last + seq!['\r', '\n']);
    } else {
        assert(all.skip(1) =~= list.skip(1).push(last));
        lemma_terminated_push(list.skip(1), last);
        assert(terminated(all) =~= terminated(list) + last + seq!['\r', '\n']);
    }
}

proof fn lemma_joined_lines(list: Seq<Seq<char>>)
    requires
        list.len() > 0,
    ensures
        join(list, seq!['\r', '\n']) + seq!['\r', '\n'] == terminated(list),
    decreases list.len(),
{
    let sep = seq!['\r', '\n'];
    let rest = list.drop_last();
    assert(list =~= rest.push(list.last()));
    lemma_terminated_push(rest, list.last());
    if list.len() == 1 {
        assert(terminated(rest) =~= Seq::<char>::empty());
        assert(join(list, sep) + sep =~= terminated(list));
    } else {
        lemma_joined_lines(rest);
        assert(join(list, sep) + sep =~= terminated(list));
    }
}

proof fn lemma_next_char_is(s: Seq<char>, c: char, i: int, j: int)
    requires
        0 <= i <= j < s.len(),
        s[j] == c,
        forall|k: int| i <= k < j ==> #[trigger] s[k] != c,
    ensures
        next_char(s, c, i) == j,
    decreases j - i,
{
    if i < j {
        lemma_next_char_is(s, c, i + 1, j);
    }
}

proof fn lemma_lines_of_terminated(before: Seq<char>, list: Seq<Seq<char>>)
    requires
        forall|k: int| 0 <= k < list.len() ==> !holds(#[trigger] list[k], '\n'),
    ensures
        lines_from(before + terminated(list), before.len() as int) == list,
    decreases list.len(),
{
    let s = before + terminated(list);
    let i = before.len() as int;
    if list.len() == 0 {
        assert(s =~= before);
        assert(lines_from(s, i) =~= list);
    } else {
        let line = list[0];
        let end = i + line.len() + 1;
        assert(!holds(line, '\n'));
        assert forall|k: int| i <= k < end implies #[trigger] s[k] != '\n' by {
            if k < i + line.len() {
                assert(s[k] == line[k - i]);
            } else {
                assert(s[k] == '\r');
            }
        }
        assert(s[end] == '\n');
        lemma_next_char_is(s, '\n', i, end);
        assert(s.subrange(i, end) =~= line.push('\r'));
        assert(line.push('\r').drop_last() =~= line);
        let next = before + line + seq!['\r', '\n'];
        assert(s =~= next + terminated(list.skip(1)));
        assert forall|k: int| 0 <= k < list.skip(1).len() implies !holds(
            #[trigger] list.skip(1)[k],
            '\n',
        ) by {
            assert(list.skip(1)[k] == list[k + 1]);
        }
        lemma_lines_of_terminated(next, list.skip(1));
        assert(next.len() == end + 1);
        assert(lines_from(s, i) =~= list);
    }
}

/// Lines that are joined and ended are found again, if none holds a line feed.
pub proof fn lemma_lines_of_joined(list: Seq<Seq<char>>)
    requires
        list.len() > 0,
        forall|k: int| 0 <= k < list.len() ==> !holds(#[trigger] list[k], '\n'),
    ensures
        lines(join(list, "\r\n"@) + "\r\n"@) == list,
{
    reveal_strlit("\r\n");
    assert("\r\n"@ =~= seq!['\r', '\n']);
    lemma_joined_lines(list);
    lemma_lines_of_terminated(Seq::empty(), list);
    assert(Seq::<char>::empty() + terminated(list) =~= terminated(list));
}

/// No line holds a line feed.
pub proof fn lemma_lines_hold_no_feed(s: Seq<char>, i: int)
    requires
        0 <= i <= s.len(),
    ensures
        forall|k: int|
            0 <= k < lines_from(s, i).len() ==> !holds(#[trigger] lines_from(s, i)[k], '\n'),
    decreases s.len() - i,
{
    if i < s.len() {
        let end = next_char(s, '\n', i);
        lemma_next_char(s, '\n', i);
        let all = lines_from(s, i);
        if end < s.len() {
            lemma_lines_hold_no_feed(s, end + 1);
        }
        assert forall|k: int| 0 <= k < all.len() implies !holds(#[trigger] all[k], '\n') by {
            if k == 0 {
                let line = all[0];
                assert forall|j: int| 0 <= j < line.len() implies #[trigger] line[j] != '\n' by {
                    assert(line[j] == s[i + j]);
                }
            } else {
                assert(all[k] == lines_from(s, end + 1)[k - 1]);
            }
        }
    }
}

/// A word: not empty, and without white space.
pub open spec fn is_word(s: Seq<char>) -> bool {
    s.len() > 0 && forall|k: int| 0 <= k < s.len() ==> !is_white(#[trigger] s[k])
}

/// The words of a text are words.
pub proof fn lemma_words_are_words(s: Seq<char>, i: int)
    requires
        0 <= i <= s.len(),
    ensures
        forall|k: int| 0 <= k < words_from(s, i).len() ==> is_word(#[trigger] words_from(s, i)[k]),
    decreases s.len() - i,
{
    if i < s.len() {
        let start = next_white(s, false, i);
        let end = next_white(s, true, start);
        lemma_next_white(s, false, i);
        lemma_next_white(s, true, start);
        if start < s.len() {
            lemma_words_are_words(s, end);
            let all = words_from(s, i);
            assert forall|k: int| 0 <= k < all.len() implies is_word(#[trigger] all[k]) by {
                if k == 0 {
                    assert(all[0] == s.subrange(start, end));
                    assert forall|j: int| 0 <= j < all[0].len() implies !is_white(
                        #[trigger] all[0][j],
                    ) by {
                        assert(all[0][j] == s[start + j]);
                    }
                } else {
                    assert(all[k] == words_from(s, end)[k - 1]);
                }
            }
        }
    }
}

/// Words, each but the last with a space, from the first one on.
spec fn spaced(list: Seq<Seq<char>>) -> Seq<char>
    decreases list.len(),
{
    if list.len() == 0 {
        Seq::empty()
    } else if list.len() == 1 {
        list[0]
    } else {
        list[0] + seq![' '] + spaced(list.skip(1))
    }
}

proof fn lemma_spaced_push(list: Seq<Seq<char>>, last: Seq<char>)
    requires
        list.len() > 0,
    ensures
        spaced(list.push(last)) == spaced(list) + seq![' '] + last,
    decreases list.len(),
{
    let all = list.push(last);
    assert(all.skip(1) =~= list.skip(1).push(last));
    if list.len() == 1 {
        assert(all.skip(1) =~= seq![last]);
        assert(spaced(all.skip(1)) =~= last);
        assert(spaced(all) =~= spaced(list) + seq![' '] + last);
    } else {
        lemma_spaced_push(list.skip(1), last);
        assert(spaced(all) =~= spaced(list) + seq![' '] + last);
    }
}

proof fn lemma_joined_words(list: Seq<Seq<char>>)
    ensures
        join(list, seq![' ']) == spaced(list),
    decreases list.len(),
{
    if list.len() > 1 {
        let rest = list.drop_last();
        assert(list =~= rest.push(list.last()));
        lemma_spaced_push(rest, list.last());
        lemma_joined_words(rest);
    }
}

proof fn lemma_next_white_is(s: Seq<char>, white: bool, i: int, j: int)
    requires
        0 <= i <= j <= s.len(),
        j < s.len() ==> is_white(s[j]) == white,
        forall|k: int| i <= k < j ==> is_white(#[trigger] s[k]) != white,
    ensures
        next_white(s, white, i) == j,
    decreases j - i,
{
    if i < j {
        lemma_next_white_is(s, white, i + 1, j);
    }
}

proof fn lemma_words_of_spaced(before: Seq<char>, list: Seq<Seq<char>>)
    requires
        forall|k: int| 0 <= k < list.len() ==> is_word(#[trigger] list[k]),
    ensures
        words_from(before + spaced(list), before.len() as int) == list,
    decreases list.len(),
{
    let s = before + spaced(list);
    let i = before.len() as int;
    if list.len() == 0 {
        assert(s =~= before);
        assert(words_from(s, i) =~= list);
    } else {
        let word = list[0];
        assert(is_word(word));
        let end = i + word.len();
        assert forall|k: int| i <= k < end implies !is_white(#[trigger] s[k]) by {
            assert(s[k] == word[k - i]);
        }
        lemma_next_white_is(s, false, i, i);
        assert(s.subrange(i, end) =~= word);
        if list.len() == 1 {
            assert(s.len() == end);
            lemma_next_white_is(s, true, i, end);
            assert(words_from(s, end) =~= Seq::<Seq<char>>::empty());
            assert(words_from(s, i) =~= list);
        } else {
            assert(s[end] == ' ');
            lemma_next_white_is(s, true, i, end);
            let next = before + word + seq![' '];
            assert(s =~= next + spaced(list.skip(1)));
            assert forall|k: int| 0 <= k < list.skip(1).len() implies is_word(
                #[trigger] list.skip(1)[k],
            ) by {
                assert(list.skip(1)[k] == list[k + 1]);
            }
            lemma_words_of_spaced(next, list.skip(1));
            assert(next.len() == end + 1);
            assert(is_word(list[1]));
            let rest = list.skip(1);
            assert(rest[0] == list[1]);
            assert(spaced(rest).len() >= rest[0].len());
            assert(end + 1 < s.len());
            assert(words_from(s, end) =~= words_from(s, end + 1));
            assert(words_from(s, i) =~= list);
        }
    }
}

/// Words that are joined by spaces are found again.
pub proof fn lemma_words_of_joined(list: Seq<Seq<char>>)
    requires
        forall|k: int| 0 <= k < list.len() ==> is_word(#[trigger] list[k]),
    ensures
        words(join(list, " "@)) == list,
{
    reveal_strlit(" ");
    assert(" "@ =~= seq![' ']);
    lemma_joined_words(list);
    lemma_words_of_spaced(Seq::empty(), list);
    assert(Seq::<char>::empty() + spaced(list) =~= spaced(list));
}

/// A word in front of joined words.
pub proof fn lemma_join_front(word: Seq<char>, list: Seq<Seq<char>>)
    requires
        list.len() > 0,
    ensures
        join(seq![word] + list, " "@) == word + " "@ + join(list, " "@),
{
    reveal_strlit(" ");
    assert(" "@ =~= seq![' ']);
    lemma_joined_words(list);
    lemma_joined_words(seq![word] + list);
    assert((seq![word] + list).skip(1) =~= list);
}

} // verus!
