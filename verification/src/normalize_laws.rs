//! What holds of every normalization: the path set has no repetitions and
//! loses nothing, nothing outside the home directory gets through, and a
//! directory stands for exactly the files to track beneath it.

use vstd::prelude::*;
use crate::error::ErrorKind;
use crate::normalize::{Located, WalkedEntry, spec_candidates, spec_dedup, spec_expand, spec_expand_all, spec_is_tracked_file, spec_normalize, spec_relativize, spec_tracked_files};
use crate::paths::{lemma_relative_to_reconstructs, spec_is_relative, spec_relative_to};

verus! {

/// A path is in the deduplicated list exactly if it is in the list.
pub proof fn lemma_dedup_keeps_members(s: Seq<Seq<char>>, x: Seq<char>)
    ensures
        spec_dedup(s).contains(x) <==> s.contains(x),
    decreases s.len(),
{
    if s.len() > 0 {
        let front = s.drop_last();
        lemma_dedup_keeps_members(front, x);
        if s.contains(x) {
            let i = choose|i: int| 0 <= i < s.len() && s[i] == x;
            if i < front.len() {
                assert(front[i] == x);
            }
        }
        if front.contains(x) {
            let i = choose|i: int| 0 <= i < front.len() && front[i] == x;
            assert(s[i] == x);
        }
        assert(s[s.len() - 1] == s.last());
        let kept = spec_dedup(front);
        if !kept.contains(s.last()) {
            assert(kept.push(s.last())[kept.len() as int] == s.last());
            if kept.contains(x) {
                let i = choose|i: int| 0 <= i < kept.len() && kept[i] == x;
                assert(kept.push(s.last())[i] == x);
            }
            if kept.push(s.last()).contains(x) {
                let i = choose|i: int| 0 <= i < kept.len() + 1 && kept.push(s.last())[i] == x;
                if i < kept.len() {
                    assert(kept[i] == x);
                }
            }
        }
    }
}

/// No path occurs twice in a deduplicated list.
pub proof fn lemma_dedup_no_duplicates(s: Seq<Seq<char>>)
    ensures
        spec_dedup(s).no_duplicates(),
    decreases s.len(),
{
    if s.len() > 0 {
        lemma_dedup_no_duplicates(s.drop_last());
    }
}

/// A list without repetitions is its own deduplication.
pub proof fn lemma_dedup_fixed(s: Seq<Seq<char>>)
    requires
        s.no_duplicates(),
    ensures
        spec_dedup(s) == s,
    decreases s.len(),
{
    if s.len() > 0 {
        let front = s.drop_last();
        lemma_dedup_fixed(front);
        if front.contains(s.last()) {
            let i = choose|i: int| 0 <= i < front.len() && front[i] == s.last();
            assert(s[i] == s[s.len() - 1]);
        }
        assert(front.push(s.last()) =~= s);
    } else {
        assert(s =~= Seq::<Seq<char>>::empty());
    }
}

/// Normalizing twice changes nothing: deduplication is idempotent.
pub proof fn lemma_dedup_idempotent(s: Seq<Seq<char>>)
    ensures
        spec_dedup(spec_dedup(s)) == spec_dedup(s),
{
    lemma_dedup_no_duplicates(s);
    lemma_dedup_fixed(spec_dedup(s));
}

/// Paths that are already in the list add nothing to its deduplication.
pub proof fn lemma_dedup_absorbs(s: Seq<Seq<char>>, t: Seq<Seq<char>>)
    requires
        forall|i: int| 0 <= i < t.len() ==> s.contains(#[trigger] t[i]),
    ensures
        spec_dedup(s + t) == spec_dedup(s),
    decreases t.len(),
{
    if t.len() == 0 {
        assert(s + t =~= s);
    } else {
        let front = t.drop_last();
        assert forall|i: int| 0 <= i < front.len() implies s.contains(#[trigger] front[i]) by {
            assert(front[i] == t[i]);
        }
        lemma_dedup_absorbs(s, front);
        assert((s + t).drop_last() =~= s + front);
        assert((s + t).last() == t[t.len() - 1]);
        lemma_dedup_keeps_members(s, t.last());
    }
}

/// Naming the same files twice gives the path set of naming them once.
pub proof fn lemma_dedup_repeated(s: Seq<Seq<char>>)
    ensures
        spec_dedup(s + s) == spec_dedup(s),
{
    assert forall|i: int| 0 <= i < s.len() implies s.contains(#[trigger] s[i]) by {}
    lemma_dedup_absorbs(s, s);
}

/// One path that is not beneath `home` makes the whole list unrewritable.
pub proof fn lemma_relativize_refuses(paths: Seq<Seq<char>>, home: Seq<char>, i: int)
    requires
        0 <= i < paths.len(),
        spec_relative_to(paths[i], home) is None,
    ensures
        spec_relativize(paths, home) is None,
    decreases paths.len(),
{
    if i < paths.len() - 1 {
        assert(paths.drop_last()[i] == paths[i]);
        lemma_relativize_refuses(paths.drop_last(), home, i);
    }
}

/// A rewritten list holds, place by place, each path relative to `home`.
pub proof fn lemma_relativize_pointwise(paths: Seq<Seq<char>>, home: Seq<char>)
    requires
        spec_relativize(paths, home) is Some,
    ensures
        spec_relativize(paths, home)->0.len() == paths.len(),
        forall|i: int|
            0 <= i < paths.len() ==> spec_relative_to(#[trigger] paths[i], home) == Some(
                spec_relativize(paths, home)->0[i],
            ),
    decreases paths.len(),
{
    if paths.len() > 0 {
        lemma_relativize_pointwise(paths.drop_last(), home);
        let front = spec_relativize(paths.drop_last(), home)->0;
        let whole = spec_relativize(paths, home)->0;
        assert forall|i: int| 0 <= i < paths.len() implies spec_relative_to(
            #[trigger] paths[i],
            home,
        ) == Some(whole[i]) by {
            if i < paths.len() - 1 {
                assert(paths.drop_last()[i] == paths[i]);
                assert(whole[i] == front[i]);
            }
        }
    }
}

/// Where no argument is missing, normalization can only fail because a
/// path reaches outside the home directory.
pub proof fn lemma_failure_kind(located: Seq<Located>, home: Seq<char>)
    requires
        forall|k: int| 0 <= k < located.len() ==> !(#[trigger] located[k] is Missing),
        spec_expand_all(located, home) is Err,
    ensures
        spec_expand_all(located, home)->Err_0.kind == ErrorKind::OutsideHome,
    decreases located.len(),
{
    if located.len() > 0 {
        let front = located.drop_last();
        assert(located.last() == located[located.len() - 1]);
        if spec_expand_all(front, home) is Err {
            assert forall|k: int| 0 <= k < front.len() implies !(#[trigger] front[k] is Missing) by {
                assert(front[k] == located[k]);
            }
            lemma_failure_kind(front, home);
        }
    }
}

/// An argument that cannot be expanded makes normalization fail.
pub proof fn lemma_failure_spreads(located: Seq<Located>, home: Seq<char>, j: int)
    requires
        0 <= j < located.len(),
        spec_expand(located[j], home) is Err,
    ensures
        spec_expand_all(located, home) is Err,
    decreases located.len(),
{
    if j < located.len() - 1 {
        assert(located.drop_last()[j] == located[j]);
        lemma_failure_spreads(located.drop_last(), home, j);
    }
}

/// Path containment: where every argument exists and one of them stands
/// for a path that is not strictly beneath the home directory,
/// normalization fails, and the failure says that the path is outside.
pub proof fn lemma_outside_home_rejected(located: Seq<Located>, home: Seq<char>, j: int, i: int)
    requires
        forall|k: int| 0 <= k < located.len() ==> !(#[trigger] located[k] is Missing),
        0 <= j < located.len(),
        0 <= i < spec_candidates(located[j]).len(),
        spec_relative_to(spec_candidates(located[j])[i], home) is None,
    ensures
        spec_normalize(located, home) is Err,
        spec_normalize(located, home)->Err_0.kind == ErrorKind::OutsideHome,
{
    lemma_relativize_refuses(spec_candidates(located[j]), home, i);
    lemma_failure_spreads(located, home, j);
    lemma_failure_kind(located, home);
}

/// What expanding the arguments gives: home-relative paths, or a failure
/// that names one of the arguments and says that it is missing or outside.
pub proof fn lemma_expand_all_outcome(located: Seq<Located>, home: Seq<char>)
    ensures
        match spec_expand_all(located, home) {
            Ok(all) => forall|i: int| 0 <= i < all.len() ==> spec_is_relative(#[trigger] all[i]),
            Err(failure) => failure.argument < located.len() && (failure.kind
                == ErrorKind::InvalidPath || failure.kind == ErrorKind::OutsideHome),
        },
    decreases located.len(),
{
    if located.len() > 0 {
        lemma_expand_all_outcome(located.drop_last(), home);
        if let Ok(front) = spec_expand_all(located.drop_last(), home) {
            if let Ok(rels) = spec_expand(located.last(), home) {
                let files = spec_candidates(located.last());
                lemma_relativize_pointwise(files, home);
                assert forall|i: int| 0 <= i < (front + rels).len() implies spec_is_relative(
                    #[trigger] (front + rels)[i],
                ) by {
                    if i >= front.len() {
                        let at = i - front.len();
                        assert(spec_relative_to(files[at], home) == Some(rels[at]));
                        lemma_relative_to_reconstructs(files[at], home);
                    }
                }
            }
        }
    }
}

/// What normalization gives: a list without repetitions of home-relative
/// paths, or a failure that names one of the arguments and says that it is
/// missing or outside.
pub proof fn lemma_normalize_outcome(located: Seq<Located>, home: Seq<char>)
    ensures
        match spec_normalize(located, home) {
            Ok(paths) => paths.no_duplicates() && forall|i: int|
                0 <= i < paths.len() ==> spec_is_relative(#[trigger] paths[i]),
            Err(failure) => failure.argument < located.len() && (failure.kind
                == ErrorKind::InvalidPath || failure.kind == ErrorKind::OutsideHome),
        },
{
    lemma_expand_all_outcome(located, home);
    if let Ok(all) = spec_expand_all(located, home) {
        let paths = spec_dedup(all);
        lemma_dedup_no_duplicates(all);
        assert forall|i: int| 0 <= i < paths.len() implies spec_is_relative(
            #[trigger] paths[i],
        ) by {
            assert(paths.contains(paths[i]));
            lemma_dedup_keeps_members(all, paths[i]);
            let at = choose|at: int| 0 <= at < all.len() && all[at] == paths[i];
            assert(spec_is_relative(all[at]));
        }
    }
}

/// The paths to track are the paths of the entries to track, no fewer and
/// no more.
pub proof fn lemma_tracked_files_members(entries: Seq<WalkedEntry>)
    ensures
        forall|i: int|
            0 <= i < entries.len() && spec_is_tracked_file(#[trigger] entries[i])
                ==> spec_tracked_files(entries).contains(entries[i].path@),
        forall|p: Seq<char>| #[trigger]
            spec_tracked_files(entries).contains(p) ==> exists|i: int|
                0 <= i < entries.len() && spec_is_tracked_file(#[trigger] entries[i])
                    && entries[i].path@ == p,
    decreases entries.len(),
{
    if entries.len() > 0 {
        let front = entries.drop_last();
        let last = entries.last();
        lemma_tracked_files_members(front);
        let whole = spec_tracked_files(entries);
        let kept = spec_tracked_files(front);
        assert forall|i: int|
            0 <= i < entries.len() && spec_is_tracked_file(
                #[trigger] entries[i],
            ) implies whole.contains(entries[i].path@) by {
            if i < front.len() {
                assert(front[i] == entries[i]);
                let at = choose|at: int| 0 <= at < kept.len() && kept[at] == entries[i].path@;
                assert(whole[at] == entries[i].path@);
            } else {
                assert(whole[kept.len() as int] == last.path@);
            }
        }
        assert forall|p: Seq<char>| #[trigger] whole.contains(p) implies exists|i: int|
            0 <= i < entries.len() && spec_is_tracked_file(#[trigger] entries[i])
                && entries[i].path@ == p by {
            let at = choose|at: int| 0 <= at < whole.len() && whole[at] == p;
            if at < kept.len() {
                assert(kept[at] == p);
                assert(kept.contains(p));
                let i = choose|i: int|
                    0 <= i < front.len() && spec_is_tracked_file(#[trigger] front[i])
                        && front[i].path@ == p;
                assert(entries[i] == front[i]);
            } else {
                assert(entries[entries.len() - 1] == last);
            }
        }
    }
}

/// Directory expansion is complete and exact: where a directory's
/// expansion succeeds, every regular file found beneath it outside the
/// version-control directory is in the result under its home-relative
/// path, and the result holds nothing else.
pub proof fn lemma_expansion_complete(l: Located, home: Seq<char>)
    requires
        l is Directory,
        spec_expand(l, home) is Ok,
    ensures
        forall|i: int|
            0 <= i < l->Directory_0@.len() && spec_is_tracked_file(#[trigger] l->Directory_0@[i])
                ==> spec_relative_to(l->Directory_0@[i].path@, home) is Some && spec_expand(
                l,
                home,
            )->Ok_0.contains(spec_relative_to(l->Directory_0@[i].path@, home)->0),
        forall|x: Seq<char>| #[trigger]
            spec_expand(l, home)->Ok_0.contains(x) ==> exists|i: int|
                0 <= i < l->Directory_0@.len() && spec_is_tracked_file(
                    #[trigger] l->Directory_0@[i],
                ) && spec_relative_to(l->Directory_0@[i].path@, home) == Some(x),
{
    let entries = l->Directory_0@;
    let files = spec_tracked_files(entries);
    let rels = spec_expand(l, home)->Ok_0;
    lemma_tracked_files_members(entries);
    lemma_relativize_pointwise(files, home);
    assert forall|i: int|
        0 <= i < entries.len() && spec_is_tracked_file(
            #[trigger] entries[i],
        ) implies spec_relative_to(entries[i].path@, home) is Some && rels.contains(
        spec_relative_to(entries[i].path@, home)->0,
    ) by {
        let at = choose|at: int| 0 <= at < files.len() && files[at] == entries[i].path@;
        assert(spec_relative_to(files[at], home) == Some(rels[at]));
    }
    assert forall|x: Seq<char>| #[trigger] rels.contains(x) implies exists|i: int|
        0 <= i < entries.len() && spec_is_tracked_file(#[trigger] entries[i]) && spec_relative_to(
            entries[i].path@,
            home,
        ) == Some(x) by {
        let at = choose|at: int| 0 <= at < rels.len() && rels[at] == x;
        assert(spec_relative_to(files[at], home) == Some(rels[at]));
        assert(files.contains(files[at]));
    }
}

} // verus!
