//! Plain text helpers: substring search and whitespace trimming.
//!
//! The cleanup pipeline needs these when it interprets what the host
//! automation layer prints: a diagnostic is classified by searching it
//! for a known signature, the localized folder path arrives with a
//! trailing line break that must go, and a diagnostic that spans several
//! lines is folded to one before it is reported.

use vstd::prelude::*;

verus! {

/// `pat` occurs in `s` starting at position `at`.
pub open spec fn match_at(s: Seq<char>, pat: Seq<char>, at: int) -> bool {
    0 <= at && at + pat.len() <= s.len() && s.subrange(at, at + pat.len()) == pat
}

/// `pat` occurs somewhere in `s`.
pub open spec fn contains_seq(s: Seq<char>, pat: Seq<char>) -> bool {
    exists|at: int| match_at(s, pat, at)
}

/// Whether `pat` occurs in `s` as a contiguous substring.
pub fn contains_substring(s: &str, pat: &str) -> (found: bool)
    ensures
        found == contains_seq(s@, pat@),
{
    let n: usize = s.unicode_len();
    let m: usize = pat.unicode_len();
    if m == 0 {
        proof {
            assert(s@.subrange(0, 0) =~= pat@);
            assert(match_at(s@, pat@, 0));
        }
        return true;
    }
    if m > n {
        return false;
    }
    let mut i: usize = 0;
    while i <= n - m
        invariant
            n == s@.len(),
            m == pat@.len(),
            0 < m <= n,
            i <= n - m + 1,
            forall|p: int| 0 <= p < i ==> !match_at(s@, pat@, p),
        decreases n - m + 1 - i,
    {
        let mut j: usize = 0;
        let mut matched: bool = true;
        while matched && j < m
            invariant
                n == s@.len(),
                m == pat@.len(),
                0 < m <= n,
                i <= n - m,
                j <= m,
                matched ==> forall|k: int| 0 <= k < j ==> s@[i + k] == pat@[k],
                !matched ==> !match_at(s@, pat@, i as int),
            decreases m - j + (if matched { 1int } else { 0int }),
        {
            if s.get_char(i + j) != pat.get_char(j) {
                proof {
                    assert(s@.subrange(i as int, i + m)[j as int] == s@[i + j]);
                }
                matched = false;
            } else {
                j += 1;
            }
        }
        if matched {
            proof {
                assert(s@.subrange(i as int, i + m) =~= pat@);
                assert(match_at(s@, pat@, i as int));
            }
            return true;
        }
        i += 1;
    }
    proof {
        assert forall|at: int| !match_at(s@, pat@, at) by {
            if 0 <= at && at + pat@.len() <= s@.len() {
                assert(at < i);
            }
        }
    }
    false
}

/// A character the trim step removes at either end of a line: exactly
/// the Unicode White_Space set, which is what `str::trim` strips.
pub open spec fn is_trim_space(c: char) -> bool {
    c == '\u{0009}' || c == '\u{000A}' || c == '\u{000B}' || c == '\u{000C}' || c == '\u{000D}'
        || c == '\u{0020}' || c == '\u{0085}' || c == '\u{00A0}' || c == '\u{1680}'
        || c == '\u{2000}' || c == '\u{2001}' || c == '\u{2002}' || c == '\u{2003}'
        || c == '\u{2004}' || c == '\u{2005}' || c == '\u{2006}' || c == '\u{2007}'
        || c == '\u{2008}' || c == '\u{2009}' || c == '\u{200A}' || c == '\u{2028}'
        || c == '\u{2029}' || c == '\u{202F}' || c == '\u{205F}' || c == '\u{3000}'
}

/// How many characters at the front of `s` are trim whitespace.
pub open spec fn leading_spaces(s: Seq<char>) -> int
    decreases s.len(),
{
    if s.len() == 0 || !is_trim_space(s[0]) {
        0
    } else {
        1 + leading_spaces(s.skip(1))
    }
}

/// How many characters at the back of `s` are trim whitespace.
pub open spec fn trailing_spaces(s: Seq<char>) -> int
    decreases s.len(),
{
    if s.len() == 0 || !is_trim_space(s[s.len() - 1]) {
        0
    } else {
        1 + trailing_spaces(s.drop_last())
    }
}

/// `s` with leading and trailing trim whitespace removed.
pub open spec fn trimmed(s: Seq<char>) -> Seq<char> {
    if leading_spaces(s) == s.len() {
        Seq::empty()
    } else {
        s.subrange(leading_spaces(s), s.len() - trailing_spaces(s))
    }
}

/// The whitespace prefix ends exactly where the first non-space stands.
proof fn lemma_leading_spaces_at(s: Seq<char>, b: int)
    requires
        0 <= b <= s.len(),
        forall|k: int| 0 <= k < b ==> is_trim_space(s[k]),
        b < s.len() ==> !is_trim_space(s[b]),
    ensures
        leading_spaces(s) == b,
    decreases s.len(),
{
    if s.len() > 0 && b > 0 {
        lemma_leading_spaces_at(s.skip(1), b - 1);
    }
}

/// The whitespace suffix starts exactly after the last non-space.
proof fn lemma_trailing_spaces_at(s: Seq<char>, e: int)
    requires
        0 <= e <= s.len(),
        forall|k: int| e <= k < s.len() ==> is_trim_space(s[k]),
        e > 0 ==> !is_trim_space(s[e - 1]),
    ensures
        trailing_spaces(s) == s.len() - e,
    decreases s.len(),
{
    if s.len() > 0 && e < s.len() {
        lemma_trailing_spaces_at(s.drop_last(), e);
    }
}

/// `s` with spaces, tabs and line breaks removed from both ends.
pub fn trim_spaces(s: &str) -> (r: String)
    ensures
        r@ == trimmed(s@),
{
    let n: usize = s.unicode_len();
    let mut b: usize = 0;
    while b < n && is_trim_space_char(s.get_char(b))
        invariant
            n == s@.len(),
            b <= n,
            forall|k: int| 0 <= k < b ==> is_trim_space(s@[k]),
        decreases n - b,
    {
        b += 1;
    }
    proof {
        lemma_leading_spaces_at(s@, b as int);
    }
    if b == n {
        return String::new();
    }
    let mut e: usize = n;
    while e > b && is_trim_space_char(s.get_char(e - 1))
        invariant
            n == s@.len(),
            b < e <= n,
            b < n,
            !is_trim_space(s@[b as int]),
            forall|k: int| e <= k < n ==> is_trim_space(s@[k]),
        decreases e,
    {
        e -= 1;
    }
    proof {
        lemma_trailing_spaces_at(s@, e as int);
    }
    String::from_str(s.substring_char(b, e))
}

/// Whether the trim step removes `c`.
fn is_trim_space_char(c: char) -> (r: bool)
    ensures
        r == is_trim_space(c),
{
    c == '\u{0009}' || c == '\u{000A}' || c == '\u{000B}' || c == '\u{000C}' || c == '\u{000D}'
        || c == '\u{0020}' || c == '\u{0085}' || c == '\u{00A0}' || c == '\u{1680}'
        || c == '\u{2000}' || c == '\u{2001}' || c == '\u{2002}' || c == '\u{2003}'
        || c == '\u{2004}' || c == '\u{2005}' || c == '\u{2006}' || c == '\u{2007}'
        || c == '\u{2008}' || c == '\u{2009}' || c == '\u{200A}' || c == '\u{2028}'
        || c == '\u{2029}' || c == '\u{202F}' || c == '\u{205F}' || c == '\u{3000}'
}

/// A character that ends a printed line.
pub open spec fn is_line_break(c: char) -> bool {
    c == '\n' || c == '\r'
}

/// `s` with every line break replaced by a single space.
pub open spec fn line_breaks_folded(s: Seq<char>) -> Seq<char> {
    Seq::new(s.len(), |i: int| if is_line_break(s[i]) { ' ' } else { s[i] })
}

/// Replaces every line break in `s` by a single space, so the result
/// prints as one line.
pub fn fold_line_breaks(s: &str) -> (r: String)
    ensures
        r@ == line_breaks_folded(s@),
{
    let n: usize = s.unicode_len();
    let mut acc: String = String::new();
    let mut i: usize = 0;
    while i < n
        invariant
            n == s@.len(),
            i <= n,
            acc@ == line_breaks_folded(s@).take(i as int),
        decreases n - i,
    {
        let c = s.get_char(i);
        if c == '\n' || c == '\r' {
            acc = acc.concat(" ");
            proof {
                reveal_strlit(" ");
                assert(acc@ =~= line_breaks_folded(s@).take(i + 1));
            }
        } else {
            acc = acc.concat(s.substring_char(i, i + 1));
            proof {
                assert(acc@ =~= line_breaks_folded(s@).take(i + 1));
            }
        }
        i += 1;
    }
    proof {
        assert(line_breaks_folded(s@).take(n as int) =~= line_breaks_folded(s@));
    }
    acc
}

} // verus!
