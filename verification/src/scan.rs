//! Filtering a directory listing by allowed extension.
//!
//! The caller lists a folder and parses each entry into a `Filename`;
//! this module selects the records whose (already lowercased) extension
//! stands in an allowed list, keeping their original order.

use crate::filename::Filename;
use crate::seq_facts::{
    lemma_filter_elements_from_source, lemma_filter_push, lemma_filter_subsequence,
    subsequence_of,
};
use vstd::prelude::*;

verus! {

broadcast use vstd::seq_lib::group_filter_ensures;

/// `e` equals the view of some entry of `allowed`.
pub open spec fn ext_in_list(allowed: Seq<String>, e: Seq<char>) -> bool {
    exists|i: int| 0 <= i < allowed.len() && allowed[i]@ == e
}

/// The records of `files` whose extension stands in `allowed`.
pub open spec fn filtered_by_extension(files: Seq<Filename>, allowed: Seq<String>) -> Seq<
    Filename,
> {
    files.filter(|f: Filename| ext_in_list(allowed, f.extension@))
}

/// Whether `ext` stands in `allowed`.
fn extension_allowed(allowed: &Vec<String>, ext: &String) -> (r: bool)
    ensures
        r == ext_in_list(allowed@, ext@),
{
    let mut i: usize = 0;
    while i < allowed.len()
        invariant
            i <= allowed@.len(),
            forall|j: int| 0 <= j < i ==> allowed@[j]@ != ext@,
        decreases allowed@.len() - i,
    {
        if allowed[i] == *ext {
            return true;
        }
        i += 1;
    }
    false
}

/// Keeps the records whose extension stands in `allowed_extensions`,
/// in their original order. Extensions are stored lowercased, so the
/// check is case-insensitive with a lowercase allowed list.
pub fn get_filenames_of_folder_with_valid_extension(
    files: Vec<Filename>,
    allowed_extensions: &Vec<String>,
) -> (r: Vec<Filename>)
    ensures
        r@ == filtered_by_extension(files@, allowed_extensions@),
{
    let mut r: Vec<Filename> = Vec::new();
    let mut i: usize = 0;
    while i < files.len()
        invariant
            i <= files@.len(),
            r@ == filtered_by_extension(files@.take(i as int), allowed_extensions@),
        decreases files@.len() - i,
    {
        if extension_allowed(allowed_extensions, &files[i].extension) {
            r.push(files[i].clone());
        }
        proof {
            lemma_filter_push(
                files@.take(i as int),
                files@[i as int],
                |f: Filename| ext_in_list(allowed_extensions@, f.extension@),
            );
            assert(files@.take(i + 1) =~= files@.take(i as int).push(files@[i as int]));
        }
        i += 1;
    }
    proof {
        assert(files@.take(files@.len() as int) =~= files@);
    }
    r
}

/// The filtered scan is exactly the subset of the full scan with an
/// allowed extension: every kept record carries one and stands in the
/// input, every input record carrying one is kept, the kept records
/// stay in their input order, and an empty input gives an empty result.
pub proof fn lemma_filtered_scan_exact(files: Seq<Filename>, allowed: Seq<String>)
    ensures
        forall|i: int|
            0 <= i < filtered_by_extension(files, allowed).len() ==> ext_in_list(
                allowed,
                #[trigger] filtered_by_extension(files, allowed)[i].extension@,
            ),
        forall|i: int|
            0 <= i < filtered_by_extension(files, allowed).len() ==> files.contains(
                #[trigger] filtered_by_extension(files, allowed)[i],
            ),
        forall|i: int|
            0 <= i < files.len() && ext_in_list(allowed, files[i].extension@)
                ==> filtered_by_extension(files, allowed).contains(#[trigger] files[i]),
        subsequence_of(filtered_by_extension(files, allowed), files),
        files.len() == 0 ==> filtered_by_extension(files, allowed).len() == 0,
{
    let pred = |f: Filename| ext_in_list(allowed, f.extension@);
    lemma_filter_elements_from_source(files, pred);
    lemma_filter_subsequence(files, pred);
    assert forall|i: int|
        0 <= i < filtered_by_extension(files, allowed).len() implies ext_in_list(
        allowed,
        #[trigger] filtered_by_extension(files, allowed)[i].extension@,
    ) by {
        assert(pred(files.filter(pred)[i]));
    }
}

/// The one extension a reference (RAW) record may carry.
pub fn raw_allowed_extensions() -> (r: Vec<String>)
    ensures
        r@.len() == 1,
        r@[0]@ == "arw"@,
{
    let mut v: Vec<String> = Vec::new();
    v.push(String::from_str("arw"));
    v
}

/// The extensions a candidate (rendered JPEG) record may carry.
pub fn jpg_allowed_extensions() -> (r: Vec<String>)
    ensures
        r@.len() == 2,
        r@[0]@ == "jpg"@,
        r@[1]@ == "jpeg"@,
{
    let mut v: Vec<String> = Vec::new();
    v.push(String::from_str("jpg"));
    v.push(String::from_str("jpeg"));
    v
}

} // verus!
