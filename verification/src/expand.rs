//! From the arguments of a command to the path set: each argument is
//! looked up on disk, and what was found is normalized.

use vstd::prelude::*;
use crate::error::{DotError, ErrorKind};
use crate::normalize::{located_from, normalize_located, spec_normalize, Located, NormalizeFailure};
use crate::normalize_laws::lemma_normalize_outcome;
use crate::paths::{resolve_against, spec_is_relative};
use crate::text::views;
use crate::vcs::{canonicalize, is_dir, walk_dir};

verus! {

/// Looks one path up on disk: a file by its canonical path, a directory by
/// everything beneath it. A directory that cannot be read through counts
/// as missing.
fn locate(full: &str) -> (found: Located) {
    match canonicalize(full) {
        None => located_from(None, false, None),
        Some(canonical) => {
            let dir = is_dir(canonical.as_str());
            let walked = if dir {
                walk_dir(canonical.as_str())
            } else {
                None
            };
            located_from(Some(canonical), dir, walked)
        },
    }
}

/// Whether `r` is what normalization makes of `located`, which holds what
/// was found on disk for each of `paths` in turn: the normalized path set,
/// or the failure of the first argument that has none, with that argument
/// as its message.
pub open spec fn spec_normalized_from(
    located: Seq<Located>,
    paths: Seq<Seq<char>>,
    home: Seq<char>,
    r: Result<Vec<String>, DotError>,
) -> bool {
    &&& located.len() == paths.len()
    &&& match r {
        Ok(v) => spec_normalize(located, home) == Ok::<Seq<Seq<char>>, NormalizeFailure>(
            views(v@),
        ),
        Err(e) => {
            &&& spec_normalize(located, home) is Err
            &&& e.kind == spec_normalize(located, home)->Err_0.kind
            &&& e.code is None
            &&& spec_normalize(located, home)->Err_0.argument < paths.len()
            &&& e.message@ == paths[spec_normalize(located, home)->Err_0.argument as int]
        },
    }
}

/// Expands the path arguments of a command into the path set to track:
/// a relative argument is resolved against `workdir`, a directory stands
/// for the regular files beneath it outside the version-control
/// directory, every path is rewritten relative to `homedir`, and
/// repetitions are removed. The first argument that does not exist or
/// reaches outside `homedir` ends the operation; the failure carries that
/// argument as its message.
pub fn expand_and_normalize_paths(paths: Vec<String>, homedir: &str, workdir: &str) -> (r: Result<
    Vec<String>,
    DotError,
>)
    ensures
        paths@.len() == 0 ==> r is Ok && r->Ok_0@.len() == 0,
        exists|located: Seq<Located>| #[trigger]
            spec_normalized_from(located, views(paths@), homedir@, r),
        match r {
            Ok(v) => views(v@).no_duplicates() && forall|i: int|
                0 <= i < v@.len() ==> spec_is_relative(#[trigger] views(v@)[i]),
            Err(e) => (e.kind == ErrorKind::InvalidPath || e.kind == ErrorKind::OutsideHome)
                && e.code is None && views(paths@).contains(e.message@),
        },
{
    let mut located: Vec<Located> = Vec::new();
    let mut i: usize = 0;
    while i < paths.len()
        invariant
            i <= paths.len(),
            located.len() == i,
        decreases paths.len() - i,
    {
        let full = resolve_against(workdir, paths[i].as_str());
        located.push(locate(full.as_str()));
        i += 1;
    }
    proof {
        lemma_normalize_outcome(located@, homedir@);
        if paths@.len() == 0 {
            assert(located@ =~= Seq::<Located>::empty());
            assert(views(Seq::<String>::empty()) =~= Seq::<Seq<char>>::empty());
        }
    }
    match normalize_located(&located, homedir) {
        Ok(v) => {
            proof {
                if paths@.len() == 0 {
                    assert(views(v@).len() == 0);
                }
                assert(spec_normalized_from(
                    located@,
                    views(paths@),
                    homedir@,
                    Ok::<Vec<String>, DotError>(v),
                ));
            }
            Ok(v)
        },
        Err(failure) => {
            let message = paths[failure.argument].clone();
            let error = DotError { kind: failure.kind, code: None, message };
            proof {
                assert(views(paths@)[failure.argument as int] == message@);
                assert(spec_normalized_from(
                    located@,
                    views(paths@),
                    homedir@,
                    Err::<Vec<String>, DotError>(error),
                ));
            }
            Err(error)
        },
    }
}

} // verus!
