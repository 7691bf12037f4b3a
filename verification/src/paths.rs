use vstd::prelude::*;
use vstd::string::StrSliceExecFns;
use crate::fetch::ChangedFile;

verus! {

/// Whether `path` ends in the supported source extension `.rs`: only such
/// files are analysed.
pub open spec fn is_source_path(path: Seq<char>) -> bool {
    &&& path.len() >= 3
    &&& path[path.len() - 3] == '.'
    &&& path[path.len() - 2] == 'r'
    &&& path[path.len() - 1] == 's'
}

/// The subsequence of `paths` that end in the source extension, in their
/// given order.
pub open spec fn source_paths_of(paths: Seq<Seq<char>>) -> Seq<Seq<char>>
    decreases paths.len(),
{
    if paths.len() == 0 {
        Seq::<Seq<char>>::empty()
    } else {
        source_paths_of(paths.drop_last()) + (if is_source_path(paths.last()) {
            seq![paths.last()]
        } else {
            Seq::<Seq<char>>::empty()
        })
    }
}

/// Decide whether `path` names a file of the supported source language.
pub fn has_source_extension(path: &String) -> (r: bool)
    ensures
        r == is_source_path(path@),
{
    let s: &str = path.as_str();
    let n: usize = s.unicode_len();
    if n < 3 {
        return false;
    }
    let dot: char = s.get_char(n - 3);
    let r_ch: char = s.get_char(n - 2);
    let s_ch: char = s.get_char(n - 1);
    dot == '.' && r_ch == 'r' && s_ch == 's'
}

/// Keep the changed files whose paths end in the source extension, in
/// their given order; every other file is left out, whether or not it is
/// present locally.
pub fn filter_source_files(files: &Vec<ChangedFile>) -> (kept: Vec<ChangedFile>)
    ensures
        kept@.map_values(|f: ChangedFile| f@) == source_paths_of(
            files@.map_values(|f: ChangedFile| f@),
        ),
{
    let ghost model: Seq<Seq<char>> = files@.map_values(|f: ChangedFile| f@);
    let mut kept: Vec<ChangedFile> = Vec::new();
    for i in 0..files.len()
        invariant
            model == files@.map_values(|f: ChangedFile| f@),
            kept@.map_values(|f: ChangedFile| f@) == source_paths_of(model.take(i as int)),
    {
        let ghost before: Seq<ChangedFile> = kept@;
        if has_source_extension(&files[i].path) {
            kept.push(ChangedFile { path: files[i].path.clone() });
            proof {
                assert(kept@.map_values(|f: ChangedFile| f@) =~= before.map_values(
                    |f: ChangedFile| f@,
                ).push(model[i as int]));
            }
        }
        proof {
            assert(model.take(i + 1).drop_last() =~= model.take(i as int));
            assert(model.take(i + 1).last() == model[i as int]);
        }
    }
    proof {
        assert(model.take(model.len() as int) =~= model);
    }
    kept
}

/// A file whose path does not end in the source extension is excluded
/// from analysis entirely: every path the filter keeps ends in the
/// extension, and each one was among the given paths.
pub proof fn lemma_non_source_paths_excluded(paths: Seq<Seq<char>>)
    ensures
        forall|k: int|
            0 <= k < source_paths_of(paths).len() ==> is_source_path(
                #[trigger] source_paths_of(paths)[k],
            ),
        forall|k: int|
            0 <= k < source_paths_of(paths).len() ==> paths.contains(
                #[trigger] source_paths_of(paths)[k],
            ),
    decreases paths.len(),
{
    if paths.len() > 0 {
        lemma_non_source_paths_excluded(paths.drop_last());
        assert forall|k: int| 0 <= k < source_paths_of(paths.drop_last()).len() implies
            paths.contains(source_paths_of(paths.drop_last())[k]) by {
            let p = source_paths_of(paths.drop_last())[k];
            let j = choose|j: int|
                0 <= j < paths.drop_last().len() && paths.drop_last()[j] == p;
            assert(paths[j] == p);
        }
        if is_source_path(paths.last()) {
            assert(paths.contains(paths.last())) by {
                assert(paths[paths.len() - 1] == paths.last());
            }
        }
    }
}

} // verus!
