//! The path normalizer: from what the filesystem showed for each argument
//! to the deduplicated list of paths relative to the home directory.

use vstd::prelude::*;
use crate::error::ErrorKind;
use crate::paths::{convert_to_relative_path, has_vcs_component, spec_has_vcs_component, spec_relative_to};
use crate::text::{contains_str, views, lemma_views_push, lemma_views_empty};

verus! {

/// One entry that a directory traversal came upon.
pub struct WalkedEntry {
    /// The entry's absolute path.
    pub path: String,
    /// Whether the entry is a regular file.
    pub is_file: bool,
}

/// What the filesystem showed for one path argument.
pub enum Located {
    /// The path does not exist or cannot be canonicalized.
    Missing,
    /// The path is a file; its canonical absolute path.
    File(String),
    /// The path is a directory; every entry found beneath it.
    Directory(Vec<WalkedEntry>),
}

/// What a lookup on disk amounts to: a path without a canonical form is
/// missing, and so is a directory whose traversal failed; a directory
/// stands for what the traversal found, anything else is a file.
pub open spec fn spec_located_from(
    canonical: Option<String>,
    dir: bool,
    walked: Option<Vec<WalkedEntry>>,
) -> Located {
    match canonical {
        None => Located::Missing,
        Some(path) => if !dir {
            Located::File(path)
        } else {
            match walked {
                Some(entries) => Located::Directory(entries),
                None => Located::Missing,
            }
        },
    }
}

/// Sums up the lookup of one argument: `canonical` is its canonical path
/// if it has one, `dir` says whether a directory is there, and `walked`
/// holds what the traversal of that directory found, if it succeeded.
pub fn located_from(canonical: Option<String>, dir: bool, walked: Option<Vec<WalkedEntry>>) -> (found:
    Located)
    ensures
        found == spec_located_from(canonical, dir, walked),
{
    match canonical {
        None => Located::Missing,
        Some(path) => {
            if !dir {
                Located::File(path)
            } else {
                match walked {
                    Some(entries) => Located::Directory(entries),
                    None => Located::Missing,
                }
            }
        },
    }
}

/// Why normalization stopped, and at which argument.
#[derive(Clone, Copy, Debug, PartialEq, Eq, Structural)]
pub struct NormalizeFailure {
    pub kind: ErrorKind,
    /// The position of the argument that could not be normalized.
    pub argument: usize,
}

/// Whether a traversal entry is a file to track: a regular file whose path
/// does not run through the version-control directory.
pub open spec fn spec_is_tracked_file(e: WalkedEntry) -> bool {
    e.is_file && !spec_has_vcs_component(e.path@)
}

/// The paths of the entries to track, in traversal order.
pub open spec fn spec_tracked_files(entries: Seq<WalkedEntry>) -> Seq<Seq<char>>
    decreases entries.len(),
{
    if entries.len() == 0 {
        Seq::empty()
    } else if spec_is_tracked_file(entries.last()) {
        spec_tracked_files(entries.drop_last()).push(entries.last().path@)
    } else {
        spec_tracked_files(entries.drop_last())
    }
}

/// The paths of the regular files among `entries` that lie outside the
/// version-control directory, in traversal order.
pub fn tracked_files(entries: &Vec<WalkedEntry>) -> (files: Vec<String>)
    ensures
        views(files@) == spec_tracked_files(entries@),
{
    let mut out: Vec<String> = Vec::new();
    let mut i: usize = 0;
    proof {
        lemma_views_empty();
        assert(entries@.take(0) =~= Seq::<WalkedEntry>::empty());
    }
    while i < entries.len()
        invariant
            i <= entries.len(),
            views(out@) == spec_tracked_files(entries@.take(i as int)),
        decreases entries.len() - i,
    {
        proof {
            assert(entries@.take(i + 1).drop_last() =~= entries@.take(i as int));
            assert(entries@.take(i + 1).last() == entries@[i as int]);
        }
        if entries[i].is_file && !has_vcs_component(entries[i].path.as_str()) {
            let path = entries[i].path.clone();
            proof {
                lemma_views_push(out@, path);
            }
            out.push(path);
        }
        i += 1;
    }
    proof {
        assert(entries@.take(entries@.len() as int) =~= entries@);
    }
    out
}

/// Every path of `paths` rewritten relative to `home`, if each lies
/// strictly beneath it.
pub open spec fn spec_relativize(paths: Seq<Seq<char>>, home: Seq<char>) -> Option<Seq<Seq<char>>>
    decreases paths.len(),
{
    if paths.len() == 0 {
        Some(Seq::empty())
    } else {
        match (spec_relativize(paths.drop_last(), home), spec_relative_to(paths.last(), home)) {
            (Some(front), Some(rel)) => Some(front.push(rel)),
            _ => None,
        }
    }
}

/// A list that cannot be rewritten does not become rewritable by growing.
pub proof fn lemma_relativize_prefix(paths: Seq<Seq<char>>, home: Seq<char>, k: int)
    requires
        0 <= k <= paths.len(),
        spec_relativize(paths.take(k), home) is None,
    ensures
        spec_relativize(paths, home) is None,
    decreases paths.len(),
{
    if k < paths.len() {
        assert(paths.drop_last().take(k) =~= paths.take(k));
        lemma_relativize_prefix(paths.drop_last(), home, k);
    } else {
        assert(paths.take(k) =~= paths);
    }
}

/// Rewrites every path relative to `home`; refuses the whole list if one
/// of them is not strictly beneath `home`.
pub fn relativize(paths: &Vec<String>, home: &str) -> (r: Result<Vec<String>, ErrorKind>)
    ensures
        match r {
            Ok(v) => spec_relativize(views(paths@), home@) == Some(views(v@)),
            Err(k) => k == ErrorKind::OutsideHome && spec_relativize(views(paths@), home@) is None,
        },
{
    let ghost all = views(paths@);
    let mut out: Vec<String> = Vec::new();
    let mut i: usize = 0;
    proof {
        lemma_views_empty();
        assert(all.take(0) =~= Seq::<Seq<char>>::empty());
    }
    while i < paths.len()
        invariant
            i <= paths.len(),
            all == views(paths@),
            spec_relativize(all.take(i as int), home@) == Some(views(out@)),
        decreases paths.len() - i,
    {
        proof {
            assert(all.take(i + 1).drop_last() =~= all.take(i as int));
            assert(all.take(i + 1).last() == paths@[i as int]@);
        }
        match convert_to_relative_path(paths[i].as_str(), home) {
            Ok(rel) => {
                proof {
                    lemma_views_push(out@, rel);
                }
                out.push(rel);
            },
            Err(kind) => {
                proof {
                    lemma_relativize_prefix(all, home@, i + 1);
                }
                return Err(kind);
            },
        }
        i += 1;
    }
    proof {
        assert(all.take(paths@.len() as int) =~= all);
    }
    Ok(out)
}

/// The absolute paths that one argument stands for.
pub open spec fn spec_candidates(l: Located) -> Seq<Seq<char>> {
    match l {
        Located::Missing => Seq::empty(),
        Located::File(path) => seq![path@],
        Located::Directory(entries) => spec_tracked_files(entries@),
    }
}

/// The home-relative paths that one argument stands for, or why it has none.
pub open spec fn spec_expand(l: Located, home: Seq<char>) -> Result<Seq<Seq<char>>, ErrorKind> {
    if l is Missing {
        Err(ErrorKind::InvalidPath)
    } else {
        match spec_relativize(spec_candidates(l), home) {
            Some(rels) => Ok(rels),
            None => Err(ErrorKind::OutsideHome),
        }
    }
}

/// Expands one argument: a file stands for itself, a directory for the
/// files to track beneath it; each is rewritten relative to `home`.
pub fn expand_located(l: &Located, home: &str) -> (r: Result<Vec<String>, ErrorKind>)
    ensures
        match r {
            Ok(v) => spec_expand(*l, home@) == Ok::<Seq<Seq<char>>, ErrorKind>(views(v@)),
            Err(k) => spec_expand(*l, home@) == Err::<Seq<Seq<char>>, ErrorKind>(k),
        },
{
    match l {
        Located::Missing => Err(ErrorKind::InvalidPath),
        Located::File(path) => {
            let mut one: Vec<String> = Vec::new();
            let copy = path.clone();
            proof {
                lemma_views_empty();
                lemma_views_push(one@, copy);
                assert(Seq::<Seq<char>>::empty().push(path@) =~= seq![path@]);
            }
            one.push(copy);
            relativize(&one, home)
        },
        Located::Directory(entries) => {
            let files = tracked_files(entries);
            relativize(&files, home)
        },
    }
}

/// The sequence without its repetitions: of equal elements the first
/// stays, and what stays keeps its order.
pub open spec fn spec_dedup(s: Seq<Seq<char>>) -> Seq<Seq<char>>
    decreases s.len(),
{
    if s.len() == 0 {
        Seq::empty()
    } else if spec_dedup(s.drop_last()).contains(s.last()) {
        spec_dedup(s.drop_last())
    } else {
        spec_dedup(s.drop_last()).push(s.last())
    }
}

/// Removes repetitions, keeping the first of equal paths and the order.
pub fn dedup(paths: &Vec<String>) -> (unique: Vec<String>)
    ensures
        views(unique@) == spec_dedup(views(paths@)),
{
    let ghost all = views(paths@);
    let mut out: Vec<String> = Vec::new();
    let mut i: usize = 0;
    proof {
        lemma_views_empty();
        assert(all.take(0) =~= Seq::<Seq<char>>::empty());
    }
    while i < paths.len()
        invariant
            i <= paths.len(),
            all == views(paths@),
            views(out@) == spec_dedup(all.take(i as int)),
        decreases paths.len() - i,
    {
        proof {
            assert(all.take(i + 1).drop_last() =~= all.take(i as int));
            assert(all.take(i + 1).last() == paths@[i as int]@);
        }
        if !contains_str(&out, paths[i].as_str()) {
            let path = paths[i].clone();
            proof {
                lemma_views_push(out@, path);
            }
            out.push(path);
        }
        i += 1;
    }
    proof {
        assert(all.take(paths@.len() as int) =~= all);
    }
    out
}

/// The home-relative paths of all arguments in order, or the first
/// argument that has none, with the reason.
pub open spec fn spec_expand_all(located: Seq<Located>, home: Seq<char>) -> Result<
    Seq<Seq<char>>,
    NormalizeFailure,
>
    decreases located.len(),
{
    if located.len() == 0 {
        Ok(Seq::empty())
    } else {
        match spec_expand_all(located.drop_last(), home) {
            Err(failure) => Err(failure),
            Ok(front) => match spec_expand(located.last(), home) {
                Ok(rels) => Ok(front + rels),
                Err(kind) => Err(
                    NormalizeFailure { kind, argument: (located.len() - 1) as usize },
                ),
            },
        }
    }
}

/// The normalized path set of the arguments: every argument expanded, the
/// results in argument order, repetitions removed.
pub open spec fn spec_normalize(located: Seq<Located>, home: Seq<char>) -> Result<
    Seq<Seq<char>>,
    NormalizeFailure,
> {
    match spec_expand_all(located, home) {
        Ok(all) => Ok(spec_dedup(all)),
        Err(failure) => Err(failure),
    }
}

/// A failure among the first arguments is the failure of the whole list.
pub proof fn lemma_expand_all_prefix(located: Seq<Located>, home: Seq<char>, k: int)
    requires
        0 <= k <= located.len(),
        spec_expand_all(located.take(k), home) is Err,
    ensures
        spec_expand_all(located, home) == spec_expand_all(located.take(k), home),
    decreases located.len(),
{
    if k < located.len() {
        assert(located.drop_last().take(k) =~= located.take(k));
        lemma_expand_all_prefix(located.drop_last(), home, k);
    } else {
        assert(located.take(k) =~= located);
    }
}

/// Normalizes the arguments of one invocation: expands each in order,
/// rewrites every path relative to `home`, and removes repetitions. Stops
/// at the first argument that is missing or reaches outside `home`.
pub fn normalize_located(located: &Vec<Located>, home: &str) -> (r: Result<
    Vec<String>,
    NormalizeFailure,
>)
    ensures
        match r {
            Ok(v) => spec_normalize(located@, home@) == Ok::<Seq<Seq<char>>, NormalizeFailure>(
                views(v@),
            ),
            Err(f) => spec_normalize(located@, home@) == Err::<Seq<Seq<char>>, NormalizeFailure>(f),
        },
{
    let mut all: Vec<String> = Vec::new();
    let mut i: usize = 0;
    proof {
        lemma_views_empty();
        assert(located@.take(0) =~= Seq::<Located>::empty());
    }
    while i < located.len()
        invariant
            i <= located.len(),
            spec_expand_all(located@.take(i as int), home@) == Ok::<
                Seq<Seq<char>>,
                NormalizeFailure,
            >(views(all@)),
        decreases located.len() - i,
    {
        proof {
            assert(located@.take(i + 1).drop_last() =~= located@.take(i as int));
            assert(located@.take(i + 1).last() == located@[i as int]);
        }
        match expand_located(&located[i], home) {
            Ok(mut rels) => {
                proof {
                    assert(views(all@ + rels@) =~= views(all@) + views(rels@));
                }
                all.append(&mut rels);
            },
            Err(kind) => {
                proof {
                    lemma_expand_all_prefix(located@, home@, i + 1);
                }
                return Err(NormalizeFailure { kind, argument: i });
            },
        }
        i += 1;
    }
    proof {
        assert(located@.take(located@.len() as int) =~= located@);
    }
    Ok(dedup(&all))
}

} // verus!
