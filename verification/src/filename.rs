//! Splitting a file's base name into {full name, stem, extension}.
//!
//! The stem is the text before the final `'.'`; the extension is the
//! text after it, stored lowercased so that later extension checks are
//! case-insensitive by construction. A name without a `'.'` is all stem.

use vstd::prelude::*;

verus! {

/// The lowercase form of a character sequence, as `str::to_lowercase`
/// computes it. The result depends on the characters alone.
pub uninterp spec fn lower_of(s: Seq<char>) -> Seq<char>;

/// Relies on `str::to_lowercase`: the result is the lowercase equivalent
/// of `s`, depends on the characters of `s` alone, and is empty when `s`
/// is empty.
#[verifier::external_body]
fn lowercase(s: &str) -> (r: String)
    ensures
        r@ == lower_of(s@),
        s@.len() == 0 ==> r@.len() == 0,
{
    s.to_lowercase()
}

/// Index of the last `'.'` in `s`, or -1 when `s` holds none.
pub open spec fn last_dot_index(s: Seq<char>) -> int
    decreases s.len(),
{
    if s.len() == 0 {
        -1
    } else if s[s.len() - 1] == '.' {
        s.len() - 1
    } else {
        last_dot_index(s.drop_last())
    }
}

/// The stem of a base name: everything before the final `'.'`, or the
/// whole name when there is no `'.'`.
pub open spec fn stem_of(s: Seq<char>) -> Seq<char> {
    if last_dot_index(s) < 0 {
        s
    } else {
        s.take(last_dot_index(s))
    }
}

/// The raw (not yet lowercased) extension of a base name: everything
/// after the final `'.'`, or empty when there is no `'.'`.
pub open spec fn raw_ext_of(s: Seq<char>) -> Seq<char> {
    if last_dot_index(s) < 0 {
        Seq::empty()
    } else {
        s.skip(last_dot_index(s) + 1)
    }
}

/// The extension as a record stores it: the raw extension, lowercased;
/// empty when the name has no `'.'`.
pub open spec fn ext_of(s: Seq<char>) -> Seq<char> {
    if last_dot_index(s) < 0 {
        Seq::empty()
    } else {
        lower_of(raw_ext_of(s))
    }
}

/// A position holding a `'.'` with no later `'.'` is the last dot.
pub proof fn lemma_last_dot_at(s: Seq<char>, d: int)
    requires
        0 <= d < s.len(),
        s[d] == '.',
        forall|k: int| d < k < s.len() ==> s[k] != '.',
    ensures
        last_dot_index(s) == d,
    decreases s.len(),
{
    if d < s.len() - 1 {
        lemma_last_dot_at(s.drop_last(), d);
    }
}

/// A name without any `'.'` has no last dot.
pub proof fn lemma_no_dot(s: Seq<char>)
    requires
        forall|k: int| 0 <= k < s.len() ==> s[k] != '.',
    ensures
        last_dot_index(s) == -1,
    decreases s.len(),
{
    if s.len() > 0 {
        lemma_no_dot(s.drop_last());
    }
}

/// One directory entry, reduced to the three pieces of its base name
/// that the cleanup pipeline reads.
pub struct Filename {
    /// The entry's base name, verbatim.
    pub filename: String,
    /// The base name without its final extension segment.
    pub name: String,
    /// The text after the final `'.'`, lowercased; empty when there is none.
    pub extension: String,
}

impl Clone for Filename {
    /// Cloning keeps all three fields unchanged.
    fn clone(&self) -> (r: Self)
        ensures
            r == *self,
    {
        Filename {
            filename: self.filename.clone(),
            name: self.name.clone(),
            extension: self.extension.clone(),
        }
    }
}

impl Filename {
    /// Builds the record for one base name: the name itself, its stem,
    /// and its lowercased extension.
    pub fn from_full_name(full_name: String) -> (r: Filename)
        ensures
            r.filename@ == full_name@,
            r.name@ == stem_of(full_name@),
            r.extension@ == ext_of(full_name@),
    {
        let s: &str = full_name.as_str();
        let n: usize = s.unicode_len();
        let mut i: usize = n;
        let mut dot: Option<usize> = None;
        while i > 0 && dot.is_none()
            invariant
                i <= n,
                n == s@.len(),
                s@ == full_name@,
                dot is None ==> forall|k: int| i <= k < n ==> s@[k] != '.',
                dot matches Some(d) ==> i == d && d < n && s@[d as int] == '.'
                    && (forall|k: int| d < k < n ==> s@[k] != '.'),
            decreases i,
        {
            i -= 1;
            let c = s.get_char(i);
            if c == '.' {
                dot = Some(i);
            }
        }
        match dot {
            None => {
                proof {
                    lemma_no_dot(full_name@);
                }
                let name = full_name.clone();
                Filename { filename: full_name, name, extension: String::new() }
            },
            Some(d) => {
                proof {
                    lemma_last_dot_at(full_name@, d as int);
                }
                let name = String::from_str(s.substring_char(0, d));
                let extension = lowercase(s.substring_char(d + 1, n));
                Filename { filename: full_name, name, extension }
            },
        }
    }
}

} // verus!
