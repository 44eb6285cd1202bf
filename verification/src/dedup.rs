//! Computing the unmatched candidates: the records of one listing whose
//! stem no record of a reference listing shares.

use crate::filename::Filename;
use crate::seq_facts::{
    lemma_filter_all_true, lemma_filter_elements_from_source, lemma_filter_push,
    lemma_filter_subsequence, subsequence_of,
};
use vstd::prelude::*;

verus! {

broadcast use vstd::seq_lib::group_filter_ensures;

/// Some record in `refs` has stem `stem`.
pub open spec fn stem_present(refs: Seq<Filename>, stem: Seq<char>) -> bool {
    exists|i: int| 0 <= i < refs.len() && refs[i].name@ == stem
}

/// The records of `cands` whose stem no record of `refs` shares, in
/// their original order, duplicates kept.
pub open spec fn unmatched(refs: Seq<Filename>, cands: Seq<Filename>) -> Seq<Filename> {
    cands.filter(|c: Filename| !stem_present(refs, c.name@))
}

/// Whether some record of `files` has stem `stem`.
fn stem_in_files(files: &Vec<Filename>, stem: &String) -> (r: bool)
    ensures
        r == stem_present(files@, stem@),
{
    let mut i: usize = 0;
    while i < files.len()
        invariant
            i <= files@.len(),
            forall|j: int| 0 <= j < i ==> files@[j].name@ != stem@,
        decreases files@.len() - i,
    {
        if files[i].name == *stem {
            return true;
        }
        i += 1;
    }
    false
}

/// Returns every record of `target_files` whose stem appears in no
/// record of `compare_files`, keeping the order of `target_files` and
/// emitting duplicates as often as they stand there. Stems are compared
/// by exact string equality.
pub fn find_duplicate_file(compare_files: Vec<Filename>, target_files: Vec<Filename>) -> (r: Vec<
    Filename,
>)
    ensures
        r@ == unmatched(compare_files@, target_files@),
{
    let mut r: Vec<Filename> = Vec::new();
    let mut i: usize = 0;
    while i < target_files.len()
        invariant
            i <= target_files@.len(),
            r@ == unmatched(compare_files@, target_files@.take(i as int)),
        decreases target_files@.len() - i,
    {
        if !stem_in_files(&compare_files, &target_files[i].name) {
            r.push(target_files[i].clone());
        }
        proof {
            lemma_filter_push(
                target_files@.take(i as int),
                target_files@[i as int],
                |c: Filename| !stem_present(compare_files@, c.name@),
            );
            assert(target_files@.take(i + 1) =~= target_files@.take(i as int).push(
                target_files@[i as int],
            ));
        }
        i += 1;
    }
    proof {
        assert(target_files@.take(target_files@.len() as int) =~= target_files@);
    }
    r
}

/// The unmatched set is exact: it is an order-preserving subsequence of
/// the candidates; every kept candidate shares its stem with no
/// reference; and every candidate sharing its stem with no reference is
/// kept.
pub proof fn lemma_unmatched_exact(refs: Seq<Filename>, cands: Seq<Filename>)
    ensures
        subsequence_of(unmatched(refs, cands), cands),
        forall|i: int|
            0 <= i < unmatched(refs, cands).len() ==> !stem_present(
                refs,
                #[trigger] unmatched(refs, cands)[i].name@,
            ),
        forall|i: int|
            0 <= i < unmatched(refs, cands).len() ==> cands.contains(
                #[trigger] unmatched(refs, cands)[i],
            ),
        forall|i: int|
            0 <= i < cands.len() && !stem_present(refs, cands[i].name@) ==> unmatched(
                refs,
                cands,
            ).contains(#[trigger] cands[i]),
{
    let pred = |c: Filename| !stem_present(refs, c.name@);
    lemma_filter_elements_from_source(cands, pred);
    lemma_filter_subsequence(cands, pred);
    assert forall|i: int|
        0 <= i < unmatched(refs, cands).len() implies !stem_present(
        refs,
        #[trigger] unmatched(refs, cands)[i].name@,
    ) by {
        assert(pred(cands.filter(pred)[i]));
    }
}

/// Computing the unmatched set is idempotent: feeding its result back in
/// as the candidates, with the same references, returns it unchanged.
/// Together with the exact contract of `find_duplicate_file` this also
/// says that two runs on identical inputs give identical output.
pub proof fn lemma_unmatched_idempotent(refs: Seq<Filename>, cands: Seq<Filename>)
    ensures
        unmatched(refs, unmatched(refs, cands)) == unmatched(refs, cands),
{
    let pred = |c: Filename| !stem_present(refs, c.name@);
    let once = unmatched(refs, cands);
    assert forall|i: int| 0 <= i < once.len() implies pred(#[trigger] once[i]) by {
        assert(pred(cands.filter(pred)[i]));
    }
    lemma_filter_all_true(once, pred);
}

} // verus!
