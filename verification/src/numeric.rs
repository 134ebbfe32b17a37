//! The grammar of numeric literals.
//!
//! A field counts as a number when Rust's parser for double-precision
//! values would accept it. That parser documents its input as
//!
//! ```text
//! Float  ::= Sign? ( 'inf' | 'infinity' | 'nan' | Number )
//! Number ::= ( Digit+ | Digit+ '.' Digit* | Digit* '.' Digit+ ) Exp?
//! Exp    ::= 'e' Sign? Digit+
//! Sign   ::= [+-]
//! Digit  ::= [0-9]
//! ```
//!
//! with letters in either case. The spec functions below state this grammar
//! production by production; [`is_numeric`] decides it in one pass.

use vstd::prelude::*;
use crate::text::chars_of;

verus! {

/// `Digit ::= [0-9]`
pub open spec fn is_digit(c: char) -> bool {
    '0' <= c && c <= '9'
}

/// `Sign ::= [+-]`
pub open spec fn is_sign(c: char) -> bool {
    c == '+' || c == '-'
}

/// `Digit*`
pub open spec fn all_digits(s: Seq<char>) -> bool {
    forall|i: int| 0 <= i < s.len() ==> is_digit(#[trigger] s[i])
}

/// `s` without its sign, if it starts with one.
pub open spec fn unsigned(s: Seq<char>) -> Seq<char> {
    if s.len() > 0 && is_sign(s[0]) {
        s.drop_first()
    } else {
        s
    }
}

/// `s` is digits, a point at index `k`, and digits.
pub open spec fn point_at(s: Seq<char>, k: int) -> bool {
    &&& 0 <= k < s.len()
    &&& s[k] == '.'
    &&& all_digits(s.take(k))
    &&& all_digits(s.skip(k + 1))
}

/// `Digit+ | Digit+ '.' Digit* | Digit* '.' Digit+`: digits around at most
/// one point, with at least one digit in all.
pub open spec fn is_decimal(s: Seq<char>) -> bool {
    ||| s.len() >= 1 && all_digits(s)
    ||| s.len() >= 2 && exists|k: int| point_at(s, k)
}

/// `Exp ::= 'e' Sign? Digit+`, the `e` in either case.
pub open spec fn is_exponent(s: Seq<char>) -> bool {
    &&& s.len() >= 1
    &&& (s[0] == 'e' || s[0] == 'E')
    &&& unsigned(s.drop_first()).len() >= 1
    &&& all_digits(unsigned(s.drop_first()))
}

/// The first `k` characters of `s` are a decimal and the rest, if any, is
/// an exponent.
pub open spec fn number_splits_at(s: Seq<char>, k: int) -> bool {
    &&& 0 <= k <= s.len()
    &&& is_decimal(s.take(k))
    &&& (k == s.len() || is_exponent(s.skip(k)))
}

/// `Number ::= Decimal Exp?`
pub open spec fn is_number(s: Seq<char>) -> bool {
    exists|k: int| number_splits_at(s, k)
}

/// `c` is the ASCII letter `letter`, which is given in lower case, in
/// either case.
pub open spec fn is_letter(c: char, letter: char) -> bool {
    c == letter || c as int + 32 == letter as int
}

/// `s` spells the lower-case word `word`, each letter in either case.
pub open spec fn spells(s: Seq<char>, word: Seq<char>) -> bool {
    &&& s.len() == word.len()
    &&& forall|i: int| 0 <= i < s.len() ==> is_letter(#[trigger] s[i], word[i])
}

/// `'inf' | 'infinity' | 'nan'`
pub open spec fn is_special(s: Seq<char>) -> bool {
    spells(s, "inf"@) || spells(s, "infinity"@) || spells(s, "nan"@)
}

/// `Float ::= Sign? ( 'inf' | 'infinity' | 'nan' | Number )`
pub open spec fn numeric(s: Seq<char>) -> bool {
    is_special(unsigned(s)) || is_number(unsigned(s))
}

/// A numeric literal is never empty.
pub proof fn numeric_texts_are_not_empty(s: Seq<char>)
    requires
        numeric(s),
    ensures
        s.len() > 0,
{
    reveal_strlit("inf");
    reveal_strlit("infinity");
    reveal_strlit("nan");
    if is_number(unsigned(s)) {
        let k = choose|k: int| number_splits_at(unsigned(s), k);
        assert(unsigned(s).take(k).len() >= 1);
    }
}

/// `end` is where the run of digits that starts at `from` stops.
spec fn run_ends(s: Seq<char>, from: int, end: int) -> bool {
    &&& 0 <= from <= end <= s.len()
    &&& all_digits(s.subrange(from, end))
    &&& (end == s.len() || !is_digit(s[end]))
}

/// `whole` is where the leading digits of `s` stop, and `end` is where the
/// decimal part stops: after the digits that follow a point at `whole`, or
/// at `whole` itself if there is no point there.
spec fn decimal_ends(s: Seq<char>, whole: int, end: int) -> bool {
    &&& run_ends(s, 0, whole)
    &&& if whole < s.len() && s[whole] == '.' {
        run_ends(s, whole + 1, end)
    } else {
        end == whole
    }
}

/// The digits that a scan to `end` has passed, the point not counted.
spec fn digits_passed(whole: int, end: int) -> int {
    if end == whole {
        whole
    } else {
        end - 1
    }
}

/// A scan that has passed a digit has passed a decimal.
proof fn lemma_scan_finds_decimal(s: Seq<char>, whole: int, end: int)
    requires
        decimal_ends(s, whole, end),
        digits_passed(whole, end) >= 1,
    ensures
        is_decimal(s.take(end)),
{
    let d = s.take(end);
    if end != whole {
        assert(d.skip(whole + 1) == s.subrange(whole + 1, end));
        assert(point_at(d, whole));
    }
}

/// A decimal that is followed by neither a digit nor a point stops where
/// the scan stops, and the scan has then passed a digit.
proof fn lemma_decimal_is_found(s: Seq<char>, whole: int, end: int, k: int)
    requires
        decimal_ends(s, whole, end),
        0 <= k <= s.len(),
        is_decimal(s.take(k)),
        k == s.len() || !(is_digit(s[k]) || s[k] == '.'),
    ensures
        k == end,
        digits_passed(whole, end) >= 1,
{
    let d = s.take(k);
    if d.len() >= 1 && all_digits(d) {
        // No point: the leading digits of `s` are `d`.
        if whole < k {
            assert(is_digit(d[whole]));
        }
        if k < whole {
            assert(is_digit(s.subrange(0, whole)[k]));
        }
    } else {
        // A point at `j`: the leading digits stop there, and the digits
        // after it stop at `k`.
        let j = choose|j: int| point_at(d, j);
        if whole < j {
            assert(is_digit(d.take(j)[whole]));
        }
        assert(whole == j);
        if end < k {
            assert(is_digit(d.skip(j + 1)[end - (j + 1)]));
        }
        if k < end {
            assert(is_digit(s.subrange(whole + 1, end)[k - (whole + 1)]));
        }
    }
}

/// A number can split into decimal and exponent only where the scan of its
/// decimal part stops, and only if that scan has passed a digit.
proof fn lemma_number_splits_where_the_scan_stops(s: Seq<char>, whole: int, end: int)
    requires
        decimal_ends(s, whole, end),
    ensures
        forall|k: int| #[trigger]
            number_splits_at(s, k) ==> k == end && digits_passed(whole, end) >= 1,
{
    assert forall|k: int| #[trigger] number_splits_at(s, k) implies k == end && digits_passed(
        whole,
        end,
    ) >= 1 by {
        lemma_decimal_is_found(s, whole, end, k);
    }
}

/// Whether `c` is a decimal digit.
fn digit(c: char) -> (b: bool)
    ensures
        b == is_digit(c),
{
    '0' <= c && c <= '9'
}

/// Whether `c` is a sign.
fn sign(c: char) -> (b: bool)
    ensures
        b == is_sign(c),
{
    c == '+' || c == '-'
}

/// Whether `c` is the lower-case ASCII letter `letter` in either case.
fn letter_matches(c: char, letter: char) -> (b: bool)
    ensures
        b == is_letter(c, letter),
{
    c == letter || (c as u32) + 32 == (letter as u32)
}

/// The index at which the run of digits that starts at `from` stops.
fn skip_digits(chars: &Vec<char>, from: usize) -> (end: usize)
    requires
        from <= chars.len(),
    ensures
        run_ends(chars@, from as int, end as int),
{
    let mut end: usize = from;
    while end < chars.len() && digit(chars[end])
        invariant
            from <= end <= chars.len(),
            all_digits(chars@.subrange(from as int, end as int)),
        decreases chars.len() - end,
    {
        end += 1;
    }
    end
}

/// Whether the characters from `from` on spell `word`, letters in either
/// case.
fn spells_word(chars: &Vec<char>, from: usize, word: &str) -> (b: bool)
    requires
        from <= chars.len(),
    ensures
        b == spells(chars@.skip(from as int), word@),
{
    let letters = chars_of(word);
    let m: usize = letters.len();
    if chars.len() - from != m {
        return false;
    }
    let ghost s = chars@.skip(from as int);
    let mut i: usize = 0;
    while i < m
        invariant
            i <= m,
            m == letters.len(),
            letters@ == word@,
            from + m == chars.len(),
            s == chars@.skip(from as int),
            forall|j: int| 0 <= j < i ==> is_letter(#[trigger] s[j], word@[j]),
        decreases m - i,
    {
        if !letter_matches(chars[from + i], letters[i]) {
            assert(!is_letter(s[i as int], word@[i as int]));
            return false;
        }
        i += 1;
    }
    true
}

/// Whether the characters from `from` on are a number: a decimal with an
/// optional exponent.
fn number_from(chars: &Vec<char>, from: usize) -> (b: bool)
    requires
        from <= chars.len(),
    ensures
        b == is_number(chars@.skip(from as int)),
{
    let n: usize = chars.len();
    let ghost s = chars@.skip(from as int);
    let whole: usize = skip_digits(chars, from);
    let mut end: usize = whole;
    if whole < n && chars[whole] == '.' {
        end = skip_digits(chars, whole + 1);
    }
    proof {
        if end != whole {
            assert(s.subrange(whole - from + 1, end - from) == chars@.subrange(
                whole as int + 1,
                end as int,
            ));
        }
        lemma_number_splits_where_the_scan_stops(s, whole - from, end - from);
    }
    let passed: usize = if end == whole {
        whole - from
    } else {
        end - from - 1
    };
    if passed == 0 {
        return false;
    }
    proof {
        lemma_scan_finds_decimal(s, whole - from, end - from);
    }
    if end == n {
        assert(number_splits_at(s, end - from));
        return true;
    }
    if chars[end] != 'e' && chars[end] != 'E' {
        return false;
    }
    let mut first: usize = end + 1;
    if first < n && sign(chars[first]) {
        first += 1;
    }
    let last: usize = skip_digits(chars, first);
    let ghost tail = s.skip(end - from);
    proof {
        assert(unsigned(tail.drop_first()) == chars@.skip(first as int));
    }
    if last > first && last == n {
        assert(number_splits_at(s, end - from));
        true
    } else {
        assert(!is_exponent(tail)) by {
            if last < n {
                assert(chars@.skip(first as int)[last - first] == chars@[last as int]);
            }
        }
        false
    }
}

/// Decides whether a text is a numeric literal.
pub fn is_numeric(text: &str) -> (b: bool)
    ensures
        b == numeric(text@),
{
    let chars = chars_of(text);
    let from: usize = if chars.len() > 0 && sign(chars[0]) {
        1
    } else {
        0
    };
    assert(unsigned(text@) == chars@.skip(from as int));
    spells_word(&chars, from, "inf") || spells_word(&chars, from, "infinity") || spells_word(
        &chars,
        from,
        "nan",
    ) || number_from(&chars, from)
}

} // verus!
