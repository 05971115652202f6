//! Small verified helpers on strings, characters and bytes.

use vstd::prelude::*;
use vstd::utf8::encode_utf8_decode_utf8;
use vstd::string::StringSliceAdditionalSpecFns;

verus! {

/// Whether two byte slices hold the same bytes.
pub fn bytes_eq(a: &[u8], b: &[u8]) -> (same: bool)
    ensures
        same == (a@ == b@),
{
    if a.len() != b.len() {
        return false;
    }
    let mut i: usize = 0;
    while i < a.len()
        invariant
            a.len() == b.len(),
            i <= a.len(),
            a@.subrange(0, i as int) == b@.subrange(0, i as int),
        decreases a.len() - i,
    {
        if a[i] != b[i] {
            assert(a@[i as int] != b@[i as int]);
            return false;
        }
        assert(a@.subrange(0, i + 1) =~= a@.subrange(0, i as int).push(a@[i as int]));
        assert(b@.subrange(0, i + 1) =~= b@.subrange(0, i as int).push(b@[i as int]));
        i += 1;
    }
    assert(a@ =~= a@.subrange(0, i as int));
    assert(b@ =~= b@.subrange(0, i as int));
    true
}

/// Whether two strings hold the same characters.
pub fn str_eq(a: &str, b: &str) -> (same: bool)
    ensures
        same == (a@ == b@),
{
    proof {
        encode_utf8_decode_utf8(a@);
        encode_utf8_decode_utf8(b@);
    }
    bytes_eq(a.as_bytes(), b.as_bytes())
}

/// The characters of a string, in order.
pub fn chars_of(s: &str) -> (chars: Vec<char>)
    ensures
        chars@ == s@,
{
    let mut out: Vec<char> = Vec::new();
    for c in it: s.chars()
        invariant
            out@ == it.seq().take(it.index()),
    {
        out.push(c);
    }
    out
}

/// The characters of an optional string.
pub open spec fn option_text(text: Option<String>) -> Option<Seq<char>> {
    match text {
        Some(s) => Some(s@),
        None => None,
    }
}

/// The characters of each string of a list.
pub open spec fn texts_view(texts: Seq<String>) -> Seq<Seq<char>> {
    texts.map_values(|text: String| text@)
}

/// Whether `needle` occurs in `hay` as a run of consecutive items.
pub open spec fn spec_contains(hay: Seq<u8>, needle: Seq<u8>) -> bool {
    exists|at: int| spec_occurs_at(hay, needle, at)
}

/// Whether `needle` stands in `hay` at position `at`.
pub open spec fn spec_occurs_at(hay: Seq<u8>, needle: Seq<u8>, at: int) -> bool {
    0 <= at && at + needle.len() <= hay.len() && hay.subrange(at, at + needle.len()) == needle
}

/// Whether `needle` stands in `hay` at position `at`.
pub fn occurs_at(hay: &[u8], needle: &[u8], at: usize) -> (found: bool)
    ensures
        found == spec_occurs_at(hay@, needle@, at as int),
{
    if at > hay.len() || needle.len() > hay.len() - at {
        return false;
    }
    let mut i: usize = 0;
    while i < needle.len()
        invariant
            at + needle.len() <= hay.len(),
            i <= needle.len(),
            hay@.subrange(at as int, at + i) == needle@.subrange(0, i as int),
        decreases needle.len() - i,
    {
        if hay[at + i] != needle[i] {
            assert(hay@.subrange(at as int, at + needle.len())[i as int] != needle@[i as int]);
            return false;
        }
        assert(hay@.subrange(at as int, at + i + 1) =~= hay@.subrange(at as int, at + i).push(
            hay@[at + i],
        ));
        assert(needle@.subrange(0, i + 1) =~= needle@.subrange(0, i as int).push(needle@[i as int]));
        i += 1;
    }
    assert(needle@ =~= needle@.subrange(0, i as int));
    true
}

/// Whether `needle` occurs somewhere in `hay`.
pub fn contains(hay: &[u8], needle: &[u8]) -> (found: bool)
    ensures
        found == spec_contains(hay@, needle@),
{
    if needle.len() > hay.len() {
        return false;
    }
    let last: usize = hay.len() - needle.len();
    let mut at: usize = 0;
    while at < last
        invariant
            last == hay.len() - needle.len(),
            at <= last,
            forall|j: int| 0 <= j < at ==> !spec_occurs_at(hay@, needle@, j),
        decreases last - at,
    {
        if occurs_at(hay, needle, at) {
            return true;
        }
        at += 1;
    }
    occurs_at(hay, needle, last)
}

/// A string made of the given characters, in order.
///
/// Trusted: calls `String::from_iter` of the standard library, which collects
/// the characters it is handed, in order, into a new string.
#[verifier::external_body]
pub(crate) fn string_of(chars: &[char]) -> (text: String)
    ensures
        text@ == chars@,
{
    String::from_iter(chars.iter())
}

/// The decimal digit that stands for `d`, for `d` below ten.
pub open spec fn spec_digit(d: nat) -> char {
    if d == 0 {
        '0'
    } else if d == 1 {
        '1'
    } else if d == 2 {
        '2'
    } else if d == 3 {
        '3'
    } else if d == 4 {
        '4'
    } else if d == 5 {
        '5'
    } else if d == 6 {
        '6'
    } else if d == 7 {
        '7'
    } else if d == 8 {
        '8'
    } else {
        '9'
    }
}

/// The decimal digits of a natural number, most significant first, without
/// leading zeros (`0` itself is a single digit).
pub open spec fn spec_digits(n: nat) -> Seq<char>
    decreases n,
{
    if n < 10 {
        seq![spec_digit(n)]
    } else {
        spec_digits(n / 10).push(spec_digit(n % 10))
    }
}

/// The decimal text of an integer: a minus sign for a negative number, then
/// the digits of its magnitude.
pub open spec fn spec_decimal(n: int) -> Seq<char> {
    if n < 0 {
        seq!['-'] + spec_digits((-n) as nat)
    } else {
        spec_digits(n as nat)
    }
}

/// The decimal digit that stands for `d`.
fn digit(d: u64) -> (c: char)
    requires
        d < 10,
    ensures
        c == spec_digit(d as nat),
{
    if d == 0 {
        '0'
    } else if d == 1 {
        '1'
    } else if d == 2 {
        '2'
    } else if d == 3 {
        '3'
    } else if d == 4 {
        '4'
    } else if d == 5 {
        '5'
    } else if d == 6 {
        '6'
    } else if d == 7 {
        '7'
    } else if d == 8 {
        '8'
    } else {
        '9'
    }
}

/// Pushes the decimal digits of `n` onto `out`.
fn push_digits(out: &mut Vec<char>, n: u64)
    ensures
        final(out)@ == old(out)@ + spec_digits(n as nat),
    decreases n,
{
    if n >= 10 {
        push_digits(out, n / 10);
    }
    out.push(digit(n % 10));
    assert(final(out)@ =~= old(out)@ + spec_digits(n as nat));
}

/// Pushes the decimal text of `n` onto `out`.
pub fn push_decimal(out: &mut Vec<char>, n: i64)
    ensures
        final(out)@ == old(out)@ + spec_decimal(n as int),
{
    if n < 0 {
        out.push('-');
        let magnitude: u64 = if n == i64::MIN {
            9223372036854775808u64
        } else {
            (-n) as u64
        };
        push_digits(out, magnitude);
        assert(final(out)@ =~= old(out)@ + spec_decimal(n as int));
    } else {
        push_digits(out, n as u64);
    }
}

/// The decimal text of `n`.
pub fn decimal(n: i64) -> (text: String)
    ensures
        text@ == spec_decimal(n as int),
{
    let mut chars: Vec<char> = Vec::new();
    push_decimal(&mut chars, n);
    assert(chars@ =~= spec_decimal(n as int));
    string_of(chars.as_slice())
}

/// Whether a character is white space: a character with the Unicode
/// property `White_Space`.
pub open spec fn spec_is_white_space(c: char) -> bool {
    let code = c as u32;
    ||| 0x09 <= code <= 0x0d
    ||| code == 0x20
    ||| code == 0x85
    ||| code == 0xa0
    ||| code == 0x1680
    ||| 0x2000 <= code <= 0x200a
    ||| code == 0x2028
    ||| code == 0x2029
    ||| code == 0x202f
    ||| code == 0x205f
    ||| code == 0x3000
}

/// Whether a character is white space.
pub fn is_white_space(c: char) -> (white: bool)
    ensures
        white == spec_is_white_space(c),
{
    let code = c as u32;
    (0x09 <= code && code <= 0x0d) || code == 0x20 || code == 0x85 || code == 0xa0 || code
        == 0x1680 || (0x2000 <= code && code <= 0x200a) || code == 0x2028 || code == 0x2029
        || code == 0x202f || code == 0x205f || code == 0x3000
}

/// The number of white-space characters at the head of a text.
pub open spec fn spec_leading_space(s: Seq<char>) -> nat
    decreases s.len(),
{
    if s.len() > 0 && spec_is_white_space(s[0]) {
        1 + spec_leading_space(s.drop_first())
    } else {
        0
    }
}

/// The number of white-space characters at the tail of a text.
pub open spec fn spec_trailing_space(s: Seq<char>) -> nat
    decreases s.len(),
{
    if s.len() > 0 && spec_is_white_space(s.last()) {
        1 + spec_trailing_space(s.drop_last())
    } else {
        0
    }
}

/// A text without the white space at its head and at its tail.
pub open spec fn spec_trim(s: Seq<char>) -> Seq<char> {
    let start = spec_leading_space(s);
    let rest = s.skip(start as int);
    rest.take(rest.len() - spec_trailing_space(rest))
}

/// The white space at the head of a text is no longer than the text.
pub proof fn lemma_leading_space_bound(s: Seq<char>)
    ensures
        spec_leading_space(s) <= s.len(),
    decreases s.len(),
{
    if s.len() > 0 && spec_is_white_space(s[0]) {
        lemma_leading_space_bound(s.drop_first());
    }
}

/// The white space at the tail of a text is no longer than the text.
pub proof fn lemma_trailing_space_bound(s: Seq<char>)
    ensures
        spec_trailing_space(s) <= s.len(),
    decreases s.len(),
{
    if s.len() > 0 && spec_is_white_space(s.last()) {
        lemma_trailing_space_bound(s.drop_last());
    }
}

/// A trimmed text neither starts nor ends with white space.
pub proof fn lemma_trim_is_trimmed(s: Seq<char>)
    ensures
        spec_trim(s).len() > 0 ==> !spec_is_white_space(spec_trim(s)[0]) && !spec_is_white_space(
            spec_trim(s).last(),
        ),
        spec_trim(spec_trim(s)) == spec_trim(s),
{
    lemma_leading_space_bound(s);
    let start = spec_leading_space(s);
    let rest = s.skip(start as int);
    lemma_leading_space_exact(s);
    lemma_trailing_space_bound(rest);
    lemma_trailing_space_exact(rest);
    let t = spec_trim(s);
    if t.len() > 0 {
        assert(t[0] == rest[0]);
        assert(t.last() == rest[rest.len() - spec_trailing_space(rest) - 1]);
        assert(spec_leading_space(t) == 0);
        assert(spec_trailing_space(t) == 0);
        assert(t.skip(0) =~= t);
        assert(t.take(t.len() as int) =~= t);
    } else {
        assert(spec_leading_space(t) == 0);
        assert(t.skip(0) =~= t);
        assert(spec_trailing_space(t) == 0);
        assert(t.take(0) =~= t);
    }
}

/// The character after the white space at the head, if there is one, is no
/// white space, and every character before it is.
pub proof fn lemma_leading_space_exact(s: Seq<char>)
    ensures
        spec_leading_space(s) <= s.len(),
        spec_leading_space(s) < s.len() ==> !spec_is_white_space(s[spec_leading_space(s) as int]),
        forall|i: int| 0 <= i < spec_leading_space(s) ==> spec_is_white_space(#[trigger] s[i]),
    decreases s.len(),
{
    if s.len() > 0 && spec_is_white_space(s[0]) {
        let rest = s.drop_first();
        lemma_leading_space_exact(rest);
        assert forall|i: int| 0 <= i < spec_leading_space(s) implies spec_is_white_space(
            #[trigger] s[i],
        ) by {
            if i > 0 {
                assert(s[i] == rest[i - 1]);
            }
        }
        if spec_leading_space(s) < s.len() {
            assert(s[spec_leading_space(s) as int] == rest[spec_leading_space(rest) as int]);
        }
    }
}

/// The character before the white space at the tail, if there is one, is no
/// white space, and every character after it is.
pub proof fn lemma_trailing_space_exact(s: Seq<char>)
    ensures
        spec_trailing_space(s) <= s.len(),
        spec_trailing_space(s) < s.len() ==> !spec_is_white_space(
            s[s.len() - spec_trailing_space(s) - 1],
        ),
        forall|i: int|
            s.len() - spec_trailing_space(s) <= i < s.len() ==> spec_is_white_space(
                #[trigger] s[i],
            ),
    decreases s.len(),
{
    if s.len() > 0 && spec_is_white_space(s.last()) {
        let rest = s.drop_last();
        lemma_trailing_space_exact(rest);
        assert forall|i: int|
            s.len() - spec_trailing_space(s) <= i < s.len() implies spec_is_white_space(
            #[trigger] s[i],
        ) by {
            if i < s.len() - 1 {
                assert(s[i] == rest[i]);
            }
        }
        if spec_trailing_space(s) < s.len() {
            assert(s[s.len() - spec_trailing_space(s) - 1] == rest[rest.len()
                - spec_trailing_space(rest) - 1]);
        }
    }
}

/// The white space at the head ends at `at` if everything before `at` is
/// white space and the character at `at`, if there is one, is not.
pub proof fn lemma_leading_space_is(s: Seq<char>, at: nat)
    requires
        at <= s.len(),
        forall|i: int| 0 <= i < at ==> spec_is_white_space(#[trigger] s[i]),
        at < s.len() ==> !spec_is_white_space(s[at as int]),
    ensures
        spec_leading_space(s) == at,
    decreases s.len(),
{
    if at > 0 {
        let rest = s.drop_first();
        assert forall|i: int| 0 <= i < at - 1 implies spec_is_white_space(#[trigger] rest[i]) by {
            assert(rest[i] == s[i + 1]);
        }
        lemma_leading_space_is(rest, (at - 1) as nat);
    }
}

/// The white space at the tail starts at `at` if everything from `at` on is
/// white space and the character before `at`, if there is one, is not.
pub proof fn lemma_trailing_space_is(s: Seq<char>, at: nat)
    requires
        at <= s.len(),
        forall|i: int| at <= i < s.len() ==> spec_is_white_space(#[trigger] s[i]),
        at > 0 ==> !spec_is_white_space(s[at - 1]),
    ensures
        spec_trailing_space(s) == s.len() - at,
    decreases s.len(),
{
    if at < s.len() {
        let rest = s.drop_last();
        assert forall|i: int| at <= i < rest.len() implies spec_is_white_space(
            #[trigger] rest[i],
        ) by {
            assert(rest[i] == s[i]);
        }
        lemma_trailing_space_is(rest, at);
    }
}

/// Where the trimmed part of `text[from..to]` starts and ends.
pub fn trim_range(text: &[char], from: usize, to: usize) -> (range: (usize, usize))
    requires
        from <= to <= text@.len(),
    ensures
        from <= range.0 <= range.1 <= to,
        text@.subrange(range.0 as int, range.1 as int) == spec_trim(
            text@.subrange(from as int, to as int),
        ),
{
    let ghost part = text@.subrange(from as int, to as int);
    let mut start: usize = from;
    while start < to && is_white_space(text[start])
        invariant
            from <= start <= to <= text@.len(),
            part == text@.subrange(from as int, to as int),
            forall|i: int| 0 <= i < start - from ==> spec_is_white_space(#[trigger] part[i]),
        decreases to - start,
    {
        start += 1;
    }
    proof {
        lemma_leading_space_is(part, (start - from) as nat);
    }
    let ghost rest = part.skip(start - from);
    let mut end: usize = to;
    while end > start && is_white_space(text[end - 1])
        invariant
            start <= end <= to <= text@.len(),
            from <= start,
            part == text@.subrange(from as int, to as int),
            rest == part.skip(start - from),
            forall|i: int| end - start <= i < rest.len() ==> spec_is_white_space(#[trigger] rest[i]),
        decreases end - start,
    {
        end -= 1;
    }
    proof {
        if end > start {
            assert(rest[end - start - 1] == text@[end - 1]);
        }
        lemma_trailing_space_is(rest, (end - start) as nat);
        assert(text@.subrange(start as int, end as int) =~= rest.take(
            rest.len() - spec_trailing_space(rest),
        ));
    }
    (start, end)
}

/// A copy of a string without the white space at its head and at its tail.
pub fn trim(text: &str) -> (trimmed: String)
    ensures
        trimmed@ == spec_trim(text@),
{
    let chars = chars_of(text);
    let (start, end) = trim_range(chars.as_slice(), 0, chars.len());
    assert(chars@.subrange(0, chars@.len() as int) =~= chars@);
    string_of(vstd::slice::slice_subrange(chars.as_slice(), start, end))
}

} // verus!
