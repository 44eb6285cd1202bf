//! The pure core of one cleanup run: from the two directory listings to
//! the list of files to delete.

use crate::dedup::{find_duplicate_file, unmatched};
use crate::filename::Filename;
use crate::scan::{
    ext_in_list, get_filenames_of_folder_with_valid_extension, jpg_allowed_extensions,
    raw_allowed_extensions,
};
use crate::seq_facts::lemma_filter_congruence;
use vstd::prelude::*;

verus! {

/// The extensions a reference (RAW) record may carry.
pub open spec fn raw_extension_list() -> Seq<Seq<char>> {
    seq!["arw"@]
}

/// The extensions a candidate (rendered JPEG) record may carry.
pub open spec fn jpg_extension_list() -> Seq<Seq<char>> {
    seq!["jpg"@, "jpeg"@]
}

/// `e` stands in the list of extension texts `exts`.
pub open spec fn ext_in_views(exts: Seq<Seq<char>>, e: Seq<char>) -> bool {
    exists|i: int| 0 <= i < exts.len() && exts[i] == e
}

/// The records of the JPG folder that one run deletes: candidates with a
/// JPEG extension whose stem no RAW-extension reference record shares.
pub open spec fn selection(raws: Seq<Filename>, jpgs: Seq<Filename>) -> Seq<Filename> {
    unmatched(
        raws.filter(|f: Filename| ext_in_views(raw_extension_list(), f.extension@)),
        jpgs.filter(|f: Filename| ext_in_views(jpg_extension_list(), f.extension@)),
    )
}

/// From the two raw directory listings, the files to delete: keeps the
/// RAW-extension records of the working folder and the JPEG-extension
/// records of the JPG folder, and returns the JPEG records whose stem
/// has no RAW counterpart, in their listed order.
pub fn select_files_for_deletion(raw_files: Vec<Filename>, jpg_files: Vec<Filename>) -> (r: Vec<
    Filename,
>)
    ensures
        r@ == selection(raw_files@, jpg_files@),
{
    let ghost raws0 = raw_files@;
    let ghost jpgs0 = jpg_files@;
    let raw_allowed = raw_allowed_extensions();
    let jpg_allowed = jpg_allowed_extensions();
    let raws = get_filenames_of_folder_with_valid_extension(raw_files, &raw_allowed);
    let jpgs = get_filenames_of_folder_with_valid_extension(jpg_files, &jpg_allowed);
    proof {
        assert forall|f: Filename|
            #[trigger] ext_in_list(raw_allowed@, f.extension@) == ext_in_views(
                raw_extension_list(),
                f.extension@,
            ) by {
            if ext_in_list(raw_allowed@, f.extension@) {
                assert(raw_allowed@[0]@ == f.extension@);
                assert(raw_extension_list()[0] == f.extension@);
            }
            if ext_in_views(raw_extension_list(), f.extension@) {
                assert(raw_extension_list()[0] == f.extension@);
                assert(raw_allowed@[0]@ == f.extension@);
            }
        }
        lemma_filter_congruence(
            raws0,
            |f: Filename| ext_in_list(raw_allowed@, f.extension@),
            |f: Filename| ext_in_views(raw_extension_list(), f.extension@),
        );
        assert forall|f: Filename|
            #[trigger] ext_in_list(jpg_allowed@, f.extension@) == ext_in_views(
                jpg_extension_list(),
                f.extension@,
            ) by {
            if ext_in_list(jpg_allowed@, f.extension@) {
                let i = choose|i: int|
                    0 <= i < jpg_allowed@.len() && jpg_allowed@[i]@ == f.extension@;
                assert(jpg_extension_list()[i] == f.extension@);
            }
            if ext_in_views(jpg_extension_list(), f.extension@) {
                let i = choose|i: int|
                    0 <= i < jpg_extension_list().len() && jpg_extension_list()[i]
                        == f.extension@;
                assert(jpg_allowed@[i]@ == f.extension@);
            }
        }
        lemma_filter_congruence(
            jpgs0,
            |f: Filename| ext_in_list(jpg_allowed@, f.extension@),
            |f: Filename| ext_in_views(jpg_extension_list(), f.extension@),
        );
    }
    find_duplicate_file(raws, jpgs)
}

} // verus!
