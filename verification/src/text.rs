//! Text: trimming, numbers in messages, and searching without regard to case.

use vstd::prelude::*;
use vstd::string::*;
use vstd::utf8::*;

verus! {

/// The characters with the Unicode property `White_Space`.
pub open spec fn white_space(c: char) -> bool {
    ||| '\u{9}' <= c <= '\u{d}'
    ||| c == '\u{20}'
    ||| c == '\u{85}'
    ||| c == '\u{a0}'
    ||| c == '\u{1680}'
    ||| '\u{2000}' <= c <= '\u{200a}'
    ||| c == '\u{2028}'
    ||| c == '\u{2029}'
    ||| c == '\u{202f}'
    ||| c == '\u{205f}'
    ||| c == '\u{3000}'
}

/// `char::is_whitespace` tells whether a character has the property `White_Space`; the claim is
/// that the property holds of the listed code points and of no others.
pub assume_specification[ char::is_whitespace ](c: char) -> (b: bool)
    ensures
        b == white_space(c),
;

/// `String::push` appends one character.
pub assume_specification[ String::push ](s: &mut String, c: char)
    ensures
        final(s)@ == old(s)@.push(c),
;

/// A text without its leading white space.
pub open spec fn trimmed_start(s: Seq<char>) -> Seq<char>
    decreases s.len(),
{
    if s.len() > 0 && white_space(s[0]) {
        trimmed_start(s.drop_first())
    } else {
        s
    }
}

/// A text without its trailing white space.
pub open spec fn trimmed_end(s: Seq<char>) -> Seq<char>
    decreases s.len(),
{
    if s.len() > 0 && white_space(s.last()) {
        trimmed_end(s.drop_last())
    } else {
        s
    }
}

/// A text without the white space around it.
pub open spec fn trimmed(s: Seq<char>) -> Seq<char> {
    trimmed_end(trimmed_start(s))
}

/// Takes the white space around a text off.
pub fn trim(s: &str) -> (t: &str)
    ensures
        t@ == trimmed(s@),
{
    let len: usize = s.unicode_len();
    let mut from: usize = 0;
    assert(s@.skip(0) =~= s@);
    while from < len && s.get_char(from).is_whitespace()
        invariant
            from <= len,
            len == s@.len(),
            trimmed_start(s@) == trimmed_start(s@.skip(from as int)),
        ensures
            from <= len,
            trimmed_start(s@) == s@.skip(from as int),
        decreases len - from,
    {
        assert(s@.skip(from as int).drop_first() =~= s@.skip(from + 1));
        from += 1;
    }
    let mut to: usize = len;
    let ghost rest = s@.skip(from as int);
    assert(s@.subrange(from as int, to as int) =~= rest);
    while to > from && s.get_char(to - 1).is_whitespace()
        invariant
            from <= to <= len,
            len == s@.len(),
            trimmed_end(rest) == trimmed_end(s@.subrange(from as int, to as int)),
        ensures
            from <= to <= len,
            trimmed_end(rest) == s@.subrange(from as int, to as int),
        decreases to,
    {
        assert(s@.subrange(from as int, to as int).drop_last() =~= s@.subrange(
            from as int,
            to - 1,
        ));
        to -= 1;
    }
    s.substring_char(from, to)
}

/// The character of a decimal or hexadecimal digit.
pub open spec fn digit(d: int) -> char {
    if d < 10 {
        (d + 48) as char
    } else {
        (d + 87) as char
    }
}

fn digit_char(d: u8) -> (c: char)
    requires
        d < 16,
    ensures
        c == digit(d as int),
{
    if d < 10 {
        (d + 48) as char
    } else {
        (d + 87) as char
    }
}

/// A number in decimal notation.
pub open spec fn decimal(n: nat) -> Seq<char>
    decreases n,
{
    if n < 10 {
        seq![digit(n as int)]
    } else {
        decimal(n / 10).push(digit((n % 10) as int))
    }
}

/// Appends a number in decimal notation.
pub fn push_decimal(out: &mut String, n: u64)
    ensures
        final(out)@ == old(out)@ + decimal(n as nat),
    decreases n,
{
    if n >= 10 {
        push_decimal(out, n / 10);
    }
    out.push(digit_char((n % 10) as u8));
    assert(out@ =~= old(out)@ + decimal(n as nat));
}

/// The low `width` hexadecimal digits of a number.
pub open spec fn hexadecimal(n: nat, width: nat) -> Seq<char>
    decreases width,
{
    if width == 0 {
        Seq::empty()
    } else {
        hexadecimal(n / 16, (width - 1) as nat).push(digit((n % 16) as int))
    }
}

/// Appends the low `width` hexadecimal digits of a number.
pub fn push_hexadecimal(out: &mut String, n: u32, width: u8)
    ensures
        final(out)@ == old(out)@ + hexadecimal(n as nat, width as nat),
    decreases width,
{
    if width > 0 {
        push_hexadecimal(out, n / 16, width - 1);
        out.push(digit_char((n % 16) as u8));
    }
    assert(out@ =~= old(out)@ + hexadecimal(n as nat, width as nat));
}

/// A byte with an ASCII capital made small.
pub open spec fn ascii_lower(b: u8) -> u8 {
    if 0x41 <= b <= 0x5a {
        (b + 32) as u8
    } else {
        b
    }
}

fn to_ascii_lower(b: u8) -> (l: u8)
    ensures
        l == ascii_lower(b),
{
    if 0x41 <= b && b <= 0x5a {
        b + 32
    } else {
        b
    }
}

/// Whether `needle` stands at place `at` of `haystack`, up to the case of ASCII letters.
pub open spec fn occurs_at(haystack: Seq<u8>, needle: Seq<u8>, at: int) -> bool {
    &&& 0 <= at
    &&& at + needle.len() <= haystack.len()
    &&& forall|j: int|
        0 <= j < needle.len() ==> ascii_lower(#[trigger] haystack[at + j]) == ascii_lower(
            needle[j],
        )
}

/// Whether `needle` occurs in `haystack`, up to the case of ASCII letters.
pub open spec fn occurs(haystack: Seq<u8>, needle: Seq<u8>) -> bool {
    exists|at: int| occurs_at(haystack, needle, at)
}

fn matches_at(haystack: &[u8], needle: &[u8], at: usize) -> (m: bool)
    requires
        at + needle.len() <= haystack.len(),
    ensures
        m == occurs_at(haystack@, needle@, at as int),
{
    let mut j: usize = 0;
    while j < needle.len()
        invariant
            j <= needle.len(),
            at + needle.len() <= haystack.len(),
            forall|k: int|
                0 <= k < j ==> ascii_lower(#[trigger] haystack@[at + k]) == ascii_lower(needle@[k]),
        decreases needle.len() - j,
    {
        if to_ascii_lower(haystack[at + j]) != to_ascii_lower(needle[j]) {
            assert(ascii_lower(haystack@[at + j as int]) != ascii_lower(needle@[j as int]));
            return false;
        }
        j += 1;
    }
    true
}

/// Tells whether a text occurs in a byte string, up to the case of ASCII letters.
pub fn contains_ignore_case(haystack: &[u8], needle: &str) -> (found: bool)
    requires
        needle@.len() > 0,
    ensures
        found == occurs(haystack@, encode_utf8(needle@)),
{
    let word: &[u8] = needle.as_bytes();
    if word.len() > haystack.len() {
        return false;
    }
    let last: usize = haystack.len() - word.len();
    let mut at: usize = 0;
    loop
        invariant
            word@ == encode_utf8(needle@),
            at <= last,
            last + word.len() == haystack.len(),
            forall|k: int| 0 <= k < at ==> !occurs_at(haystack@, word@, k),
        decreases last - at,
    {
        if matches_at(haystack, word, at) {
            return true;
        }
        if at == last {
            return false;
        }
        at += 1;
    }
}

/// Bytes that come in later do not take an occurrence away.
pub proof fn lemma_occurs_extends(haystack: Seq<u8>, more: Seq<u8>, needle: Seq<u8>)
    requires
        occurs(haystack, needle),
    ensures
        occurs(haystack + more, needle),
{
    let at = choose|at: int| occurs_at(haystack, needle, at);
    assert forall|j: int| 0 <= j < needle.len() implies ascii_lower(
        #[trigger] (haystack + more)[at + j],
    ) == ascii_lower(needle[j]) by {
        assert((haystack + more)[at + j] == haystack[at + j]);
    }
    assert(occurs_at(haystack + more, needle, at));
}

/// Trimming takes white space off both ends, all of it, and nothing else: what is left is the part
/// from `i` up to `j`, around it there is only white space, and it neither begins nor ends with any.
pub proof fn law_trimming_takes_off_white_space_alone(s: Seq<char>) -> (cut: (int, int))
    ensures
        0 <= cut.0 <= cut.1 <= s.len(),
        trimmed(s) == s.subrange(cut.0, cut.1),
        forall|k: int| 0 <= k < cut.0 ==> white_space(#[trigger] s[k]),
        forall|k: int| cut.1 <= k < s.len() ==> white_space(#[trigger] s[k]),
        cut.0 < cut.1 ==> !white_space(s[cut.0]) && !white_space(s[cut.1 - 1]),
{
    let i = lemma_trimmed_start(s);
    let rest = s.skip(i);
    let n = lemma_trimmed_end(rest);
    let j = i + n;
    assert(rest.take(n) =~= s.subrange(i, j));
    assert forall|k: int| j <= k < s.len() implies white_space(#[trigger] s[k]) by {
        assert(rest[k - i] == s[k]);
    }
    if i < j {
        assert(rest[0] == s[i]);
        assert(rest[n - 1] == s[j - 1]);
    }
    (i, j)
}

proof fn lemma_trimmed_start(s: Seq<char>) -> (i: int)
    ensures
        0 <= i <= s.len(),
        trimmed_start(s) == s.skip(i),
        forall|k: int| 0 <= k < i ==> white_space(#[trigger] s[k]),
        i < s.len() ==> !white_space(s[i]),
    decreases s.len(),
{
    if s.len() > 0 && white_space(s[0]) {
        let rest = s.drop_first();
        let i = lemma_trimmed_start(rest);
        assert(rest.skip(i) =~= s.skip(i + 1));
        assert forall|k: int| 0 <= k < i + 1 implies white_space(#[trigger] s[k]) by {
            if k > 0 {
                assert(rest[k - 1] == s[k]);
            }
        }
        if i < rest.len() {
            assert(rest[i] == s[i + 1]);
        }
        i + 1
    } else {
        assert(s.skip(0) =~= s);
        0
    }
}

proof fn lemma_trimmed_end(s: Seq<char>) -> (n: int)
    ensures
        0 <= n <= s.len(),
        trimmed_end(s) == s.take(n),
        forall|k: int| n <= k < s.len() ==> white_space(#[trigger] s[k]),
        n > 0 ==> !white_space(s[n - 1]),
    decreases s.len(),
{
    if s.len() > 0 && white_space(s.last()) {
        let rest = s.drop_last();
        let n = lemma_trimmed_end(rest);
        assert(rest.take(n) =~= s.take(n));
        assert forall|k: int| n <= k < s.len() implies white_space(#[trigger] s[k]) by {
            if k < rest.len() {
                assert(rest[k] == s[k]);
            }
        }
        n
    } else {
        assert(s.take(s.len() as int) =~= s);
        s.len() as int
    }
}

/// Decimal notation: a digit stands for itself, and behind a number that is not nothing a further
/// digit counts it ten times and adds itself.
pub proof fn law_decimal_notation(n: nat, d: nat)
    requires
        d < 10,
    ensures
        decimal(d) == seq![(48 + d) as char],
        n > 0 ==> decimal(10 * n + d) == decimal(n).push((48 + d) as char),
{
    assert((10 * n + d) / 10 == n);
    assert((10 * n + d) % 10 == d);
}

/// Hexadecimal notation of a width: no digits for none, and a further digit counts what stands
/// before it sixteen times and adds itself; ten to fifteen are `a` to `f`.
pub proof fn law_hexadecimal_notation(n: nat, d: nat, width: nat)
    requires
        d < 16,
    ensures
        hexadecimal(n, 0).len() == 0,
        d < 10 ==> hexadecimal(16 * n + d, width + 1) == hexadecimal(n, width).push(
            (48 + d) as char,
        ),
        d >= 10 ==> hexadecimal(16 * n + d, width + 1) == hexadecimal(n, width).push(
            (87 + d) as char,
        ),
{
    assert((16 * n + d) / 16 == n);
    assert((16 * n + d) % 16 == d);
}

/// A text is found wherever it stands byte for byte, a letter counting as its capital.
pub proof fn law_found_where_it_stands(haystack: Seq<u8>, needle: Seq<u8>, at: int)
    requires
        0 <= at,
        at + needle.len() <= haystack.len(),
        forall|j: int|
            0 <= j < needle.len() ==> {
                let x = #[trigger] haystack[at + j];
                let y = needle[j];
                x == y || 65 <= x <= 90 && y == x + 32 || 65 <= y <= 90 && x == y + 32
            },
    ensures
        occurs(haystack, needle),
{
    assert forall|j: int| 0 <= j < needle.len() implies ascii_lower(#[trigger] haystack[at + j])
        == ascii_lower(needle[j]) by {}
    assert(occurs_at(haystack, needle, at));
}

/// A text that is found stands somewhere byte for byte, a letter counting as its capital.
pub proof fn law_found_only_where_it_stands(haystack: Seq<u8>, needle: Seq<u8>) -> (at: int)
    requires
        occurs(haystack, needle),
    ensures
        0 <= at,
        at + needle.len() <= haystack.len(),
        forall|j: int|
            0 <= j < needle.len() ==> {
                let x = #[trigger] haystack[at + j];
                let y = needle[j];
                x == y || 65 <= x <= 90 && y == x + 32 || 65 <= y <= 90 && x == y + 32
            },
{
    let at = choose|at: int| occurs_at(haystack, needle, at);
    assert forall|j: int| 0 <= j < needle.len() implies ({
        let x = #[trigger] haystack[at + j];
        let y = needle[j];
        x == y || 65 <= x <= 90 && y == x + 32 || 65 <= y <= 90 && x == y + 32
    }) by {
        assert(ascii_lower(haystack[at + j]) == ascii_lower(needle[j]));
    }
    at
}

} // verus!
