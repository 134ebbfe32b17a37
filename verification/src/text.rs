//! Characters of a text, and trimming of surrounding whitespace.

use vstd::prelude::*;

verus! {

/// Whether a character is whitespace in the sense of Unicode's
/// `White_Space`.
///
/// That is a fixed table of code points which the standard library
/// carries; it is named here, not spelled out.
pub uninterp spec fn white_space(c: char) -> bool;

/// Calls `char::is_whitespace`.
///
/// Trusted: the answer depends on the character alone, and is what
/// [`white_space`] names.
#[verifier::external_body]
pub(crate) fn is_whitespace(c: char) -> (b: bool)
    ensures
        b == white_space(c),
{
    c.is_whitespace()
}

/// `s` without its leading whitespace.
pub open spec fn trim_start(s: Seq<char>) -> Seq<char>
    decreases s.len(),
{
    if s.len() > 0 && white_space(s[0]) {
        trim_start(s.drop_first())
    } else {
        s
    }
}

/// `s` without its trailing whitespace.
pub open spec fn trim_end(s: Seq<char>) -> Seq<char>
    decreases s.len(),
{
    if s.len() > 0 && white_space(s.last()) {
        trim_end(s.drop_last())
    } else {
        s
    }
}

/// `s` without its leading and trailing whitespace.
pub open spec fn trimmed(s: Seq<char>) -> Seq<char> {
    trim_end(trim_start(s))
}

/// Whether every character of `s` is whitespace.
pub open spec fn blank(s: Seq<char>) -> bool {
    forall|i: int| 0 <= i < s.len() ==> white_space(#[trigger] s[i])
}

/// Trimming at the start removes a blank prefix, and what is left does not
/// start with whitespace. Returns the length of that prefix.
pub proof fn trim_start_removes_a_blank_prefix(s: Seq<char>) -> (a: int)
    ensures
        0 <= a <= s.len(),
        blank(s.take(a)),
        trim_start(s) == s.skip(a),
        a < s.len() ==> !white_space(s[a]),
    decreases s.len(),
{
    if s.len() > 0 && white_space(s[0]) {
        let rest = s.drop_first();
        let a = trim_start_removes_a_blank_prefix(rest);
        assert forall|i: int| 0 <= i < a + 1 implies white_space(#[trigger] s.take(a + 1)[i]) by {
            if i > 0 {
                assert(s.take(a + 1)[i] == rest.take(a)[i - 1]);
            }
        }
        a + 1
    } else {
        0
    }
}

/// Trimming at the end removes a blank suffix, and what is left does not
/// end with whitespace. Returns the length of what is left.
pub proof fn trim_end_removes_a_blank_suffix(s: Seq<char>) -> (b: int)
    ensures
        0 <= b <= s.len(),
        blank(s.skip(b)),
        trim_end(s) == s.take(b),
        b > 0 ==> !white_space(s[b - 1]),
    decreases s.len(),
{
    if s.len() > 0 && white_space(s.last()) {
        let rest = s.drop_last();
        let b = trim_end_removes_a_blank_suffix(rest);
        assert forall|i: int| 0 <= i < s.len() - b implies white_space(#[trigger] s.skip(b)[i]) by {
            if i < rest.len() - b {
                assert(s.skip(b)[i] == rest.skip(b)[i]);
            }
        }
        b
    } else {
        s.len() as int
    }
}

/// A trimmed text is the part of the text between a blank prefix and a
/// blank suffix, and neither starts nor ends with whitespace. Returns the
/// bounds of that part.
pub proof fn trimmed_is_the_core(s: Seq<char>) -> (bounds: (int, int))
    ensures
        0 <= bounds.0 <= bounds.1 <= s.len(),
        trimmed(s) == s.subrange(bounds.0, bounds.1),
        blank(s.take(bounds.0)),
        blank(s.skip(bounds.1)),
        trimmed(s).len() > 0 ==> !white_space(trimmed(s).first()) && !white_space(
            trimmed(s).last(),
        ),
{
    let a = trim_start_removes_a_blank_prefix(s);
    let rest = s.skip(a);
    let b = trim_end_removes_a_blank_suffix(rest);
    assert forall|i: int| 0 <= i < s.len() - (a + b) implies white_space(
        #[trigger] s.skip(a + b)[i],
    ) by {
        assert(s.skip(a + b)[i] == rest.skip(b)[i]);
    }
    (a, a + b)
}

/// The part of a text between a blank prefix and a blank suffix, which
/// neither starts nor ends with whitespace, is the trimmed text.
pub proof fn core_is_the_trimmed(s: Seq<char>, a: int, b: int)
    requires
        0 <= a <= b <= s.len(),
        blank(s.take(a)),
        blank(s.skip(b)),
        a < b ==> !white_space(s[a]) && !white_space(s[b - 1]),
    ensures
        trimmed(s) == s.subrange(a, b),
{
    let found = trimmed_is_the_core(s);
    let (c, d) = found;
    if a < b {
        if c < a {
            assert(s.take(a)[c] == s[c]);
            if c == d {
                assert(s.skip(d)[a - d] == s[a]);
            }
        }
        if a < c {
            assert(s.take(c)[a] == s[a]);
        }
        if d < b {
            assert(s.skip(d)[b - 1 - d] == s[b - 1]);
        }
        if b < d {
            assert(s.skip(b)[d - 1 - b] == s[d - 1]);
        }
    } else {
        if c < d {
            if c < a {
                assert(s.take(a)[c] == s[c]);
            } else {
                assert(s.skip(b)[c - b] == s[c]);
            }
        }
    }
}

/// Collects the characters of a text into a vector.
pub fn chars_of(text: &str) -> (out: Vec<char>)
    ensures
        out@ == text@,
{
    let mut out: Vec<char> = Vec::new();
    for c in it: text.chars()
        invariant
            out@ == it.seq().take(it.index()),
            it.seq() == text@,
    {
        out.push(c);
    }
    out
}

/// Removes leading and trailing whitespace from a text.
pub fn trim<'a>(text: &'a str) -> (out: &'a str)
    ensures
        out@ == trimmed(text@),
{
    let chars = chars_of(text);
    let n: usize = chars.len();
    let mut start: usize = 0;
    assert(text@.skip(0) == text@);
    while start < n && is_whitespace(chars[start])
        invariant
            start <= n,
            n == text@.len(),
            chars@ == text@,
            trim_start(text@) == trim_start(text@.skip(start as int)),
        decreases n - start,
    {
        assert(text@.skip(start as int).drop_first() == text@.skip(start as int + 1));
        start += 1;
    }
    let mut end: usize = n;
    while end > start && is_whitespace(chars[end - 1])
        invariant
            start <= end <= n,
            n == text@.len(),
            chars@ == text@,
            trim_end(text@.skip(start as int)) == trim_end(text@.subrange(start as int, end as int)),
        decreases end,
    {
        assert(text@.subrange(start as int, end as int).drop_last() == text@.subrange(
            start as int,
            end as int - 1,
        ));
        end -= 1;
    }
    text.substring_char(start, end)
}

} // verus!
