//! The ignore filter: a path is dropped as soon as one of its prefixes is
//! reported ignored, and longer prefixes are then never asked about.

use vstd::prelude::*;
use crate::error::{DotError, ErrorKind, from_git};
use crate::paths::{path_prefixes, spec_prefixes};
use crate::text::{views, lemma_views_push, lemma_views_empty};
use crate::vcs::repo_is_path_ignored;

verus! {

/// The next move in examining one path.
pub enum Step {
    /// Ask the oracle about this prefix.
    Ask(String),
    /// Drop the path: this prefix is ignored.
    Ignored(String),
    /// Keep the path: every prefix was asked about and none is ignored.
    Clear,
}

/// A `Step` with its prefix as a character sequence.
pub enum StepView {
    Ask(Seq<char>),
    Ignored(Seq<char>),
    Clear,
}

impl View for Step {
    type V = StepView;

    open spec fn view(&self) -> StepView {
        match self {
            Step::Ask(prefix) => StepView::Ask(prefix@),
            Step::Ignored(prefix) => StepView::Ignored(prefix@),
            Step::Clear => StepView::Clear,
        }
    }
}

/// Whether `answers[i]` is the first answer that says "ignored".
pub open spec fn spec_is_first_ignored(answers: Seq<bool>, i: int) -> bool {
    0 <= i < answers.len() && answers[i] && forall|j: int| 0 <= j < i ==> !answers[j]
}

/// The next move, given the prefixes of a path, shortest first, and the
/// oracle's answers for the first of them: drop the path at the first
/// prefix answered "ignored"; else ask about the next prefix; else, with
/// all of them answered, keep the path.
pub open spec fn spec_next_step(prefixes: Seq<Seq<char>>, answers: Seq<bool>) -> StepView {
    if exists|i: int| spec_is_first_ignored(answers, i) && i < prefixes.len() {
        StepView::Ignored(
            prefixes[choose|i: int| spec_is_first_ignored(answers, i) && i < prefixes.len()],
        )
    } else if answers.len() < prefixes.len() {
        StepView::Ask(prefixes[answers.len() as int])
    } else {
        StepView::Clear
    }
}

/// Decides the next move for one path from the answers received so far.
pub fn next_step(prefixes: &Vec<String>, answers: &Vec<bool>) -> (step: Step)
    ensures
        step@ == spec_next_step(views(prefixes@), answers@),
{
    let mut i: usize = 0;
    while i < answers.len() && i < prefixes.len()
        invariant
            i <= answers.len(),
            i <= prefixes.len(),
            forall|j: int| 0 <= j < i ==> !answers@[j],
        decreases answers.len() - i,
    {
        if answers[i] {
            proof {
                assert(spec_is_first_ignored(answers@, i as int));
                let k = choose|k: int|
                    spec_is_first_ignored(answers@, k) && k < views(prefixes@).len();
                assert(k == i) by {
                    if k < i {
                        assert(!answers@[k]);
                    } else if k > i {
                        assert(!answers@[i as int]);
                    }
                }
            }
            return Step::Ignored(prefixes[i].clone());
        }
        i += 1;
    }
    proof {
        assert forall|k: int| spec_is_first_ignored(answers@, k) implies !(k < views(
            prefixes@,
        ).len()) by {
            if k < i {
                assert(!answers@[k]);
            }
        }
    }
    if i < prefixes.len() {
        Step::Ask(prefixes[i].clone())
    } else {
        Step::Clear
    }
}

/// Examines one path against the repository's ignore rules, prefix by
/// prefix from the root. Gives the ignored prefix at which the path is
/// dropped, or nothing if the path is to be kept.
pub fn ignored_prefix(repo: &git2::Repository, path: &str) -> (verdict: Result<
    Option<String>,
    DotError,
>)
    ensures
        spec_prefixes(path@).len() == 0 ==> verdict matches Ok(None),
        match verdict {
            Ok(Some(prefix)) => spec_prefixes(path@).contains(prefix@),
            Ok(None) => true,
            Err(e) => e.kind == ErrorKind::RepositoryState && e.code is Some,
        },
{
    let prefixes = path_prefixes(path);
    let mut answers: Vec<bool> = Vec::new();
    loop
        invariant
            answers.len() <= prefixes.len(),
            views(prefixes@) == spec_prefixes(path@),
        decreases prefixes.len() - answers.len(),
    {
        match next_step(&prefixes, &answers) {
            Step::Ask(prefix) => {
                match repo_is_path_ignored(repo, prefix.as_str()) {
                    Ok(ignored) => {
                        answers.push(ignored);
                    },
                    Err(e) => {
                        return Err(from_git(ErrorKind::RepositoryState, &e));
                    },
                }
            },
            Step::Ignored(prefix) => {
                return Ok(Some(prefix));
            },
            Step::Clear => {
                return Ok(None);
            },
        }
    }
}

/// The paths that pass the filter, and a notice for each that does not.
pub struct Filtered {
    /// The paths that are not ignored, in their order.
    pub kept: Vec<String>,
    /// For each dropped path, in order, the prefix that is ignored.
    pub notices: Vec<String>,
}

/// The paths whose verdict names no ignored prefix, in order. A path
/// without a verdict is kept.
pub open spec fn spec_kept(paths: Seq<Seq<char>>, verdicts: Seq<Option<Seq<char>>>) -> Seq<
    Seq<char>,
>
    decreases paths.len(),
{
    if paths.len() == 0 {
        Seq::empty()
    } else if paths.len() <= verdicts.len() && verdicts[paths.len() - 1] is Some {
        spec_kept(paths.drop_last(), verdicts)
    } else {
        spec_kept(paths.drop_last(), verdicts).push(paths.last())
    }
}

/// The ignored prefixes that the first `n` verdicts name, in order.
pub open spec fn spec_notices(verdicts: Seq<Option<Seq<char>>>, n: int) -> Seq<Seq<char>>
    decreases n,
{
    if n <= 0 {
        Seq::empty()
    } else if n <= verdicts.len() && verdicts[n - 1] is Some {
        spec_notices(verdicts, n - 1).push(verdicts[n - 1]->0)
    } else {
        spec_notices(verdicts, n - 1)
    }
}

/// The verdicts as character sequences.
pub open spec fn verdict_views(verdicts: Seq<Option<String>>) -> Seq<Option<Seq<char>>> {
    verdicts.map_values(
        |v: Option<String>|
            match v {
                Some(prefix) => Some(prefix@),
                None => None,
            },
    )
}

/// Splits `paths` by their verdicts: a path whose verdict names an
/// ignored prefix is dropped and the prefix noted, the others are kept.
pub fn split_by_verdict(paths: &Vec<String>, verdicts: &Vec<Option<String>>) -> (out: Filtered)
    ensures
        views(out.kept@) == spec_kept(views(paths@), verdict_views(verdicts@)),
        views(out.notices@) == spec_notices(verdict_views(verdicts@), paths.len() as int),
{
    let ghost all = views(paths@);
    let ghost marks = verdict_views(verdicts@);
    let mut kept: Vec<String> = Vec::new();
    let mut notices: Vec<String> = Vec::new();
    let mut i: usize = 0;
    proof {
        lemma_views_empty();
        assert(all.take(0) =~= Seq::<Seq<char>>::empty());
    }
    while i < paths.len()
        invariant
            i <= paths.len(),
            all == views(paths@),
            marks == verdict_views(verdicts@),
            views(kept@) == spec_kept(all.take(i as int), marks),
            views(notices@) == spec_notices(marks, i as int),
        decreases paths.len() - i,
    {
        proof {
            assert(all.take(i + 1).drop_last() =~= all.take(i as int));
            assert(all.take(i + 1).last() == paths@[i as int]@);
        }
        let mut dropped = false;
        if i < verdicts.len() {
            if let Some(prefix) = &verdicts[i] {
                let note = prefix.clone();
                proof {
                    lemma_views_push(notices@, note);
                }
                notices.push(note);
                dropped = true;
            }
        }
        if !dropped {
            let path = paths[i].clone();
            proof {
                lemma_views_push(kept@, path);
            }
            kept.push(path);
        }
        i += 1;
    }
    proof {
        assert(all.take(paths@.len() as int) =~= all);
    }
    Filtered { kept, notices }
}

/// Whether each verdict belongs to its path: one verdict per path, and an
/// ignored prefix is a prefix of the path it drops.
pub open spec fn spec_verdicts_fit(paths: Seq<Seq<char>>, verdicts: Seq<Option<Seq<char>>>) -> bool {
    &&& verdicts.len() == paths.len()
    &&& forall|i: int|
        0 <= i < paths.len() && (#[trigger] verdicts[i]) is Some ==> spec_prefixes(
            paths[i],
        ).contains(verdicts[i]->0)
}

/// Drops from `paths` every path that the repository's ignore rules
/// exclude, itself or through a directory above it. The oracle is asked
/// about each path's prefixes from the root and no further than the
/// first ignored one.
pub fn filter_ignored(repo: &git2::Repository, paths: Vec<String>) -> (r: Result<Filtered, DotError>)
    ensures
        (forall|i: int| 0 <= i < paths@.len() ==> spec_prefixes(#[trigger] paths@[i]@).len() == 0)
            ==> r is Ok,
        match r {
            Ok(out) => exists|verdicts: Seq<Option<Seq<char>>>|
                {
                    &&& spec_verdicts_fit(views(paths@), verdicts)
                    &&& views(out.kept@) == spec_kept(views(paths@), verdicts)
                    &&& views(out.notices@) == #[trigger] spec_notices(
                        verdicts,
                        paths@.len() as int,
                    )
                },
            Err(e) => e.kind == ErrorKind::RepositoryState && e.code is Some,
        },
{
    let mut verdicts: Vec<Option<String>> = Vec::new();
    let mut i: usize = 0;
    while i < paths.len()
        invariant
            i <= paths.len(),
            verdicts.len() == i,
            forall|j: int|
                0 <= j < i && (#[trigger] verdict_views(verdicts@)[j]) is Some ==> spec_prefixes(
                    views(paths@)[j],
                ).contains(verdict_views(verdicts@)[j]->0),
        decreases paths.len() - i,
    {
        match ignored_prefix(repo, paths[i].as_str()) {
            Ok(verdict) => {
                proof {
                    let before = verdict_views(verdicts@);
                    let after = verdict_views(verdicts@.push(verdict));
                    assert forall|j: int| 0 <= j < i implies after[j] == before[j] by {}
                }
                verdicts.push(verdict);
            },
            Err(e) => {
                return Err(e);
            },
        }
        i += 1;
    }
    let out = split_by_verdict(&paths, &verdicts);
    proof {
        assert(spec_verdicts_fit(views(paths@), verdict_views(verdicts@)));
    }
    Ok(out)
}

/// Short-circuit: once a prefix has been answered "ignored", the path is
/// dropped at the first such prefix, whatever was answered after it. No
/// further prefix is asked about.
pub proof fn lemma_short_circuit(prefixes: Seq<Seq<char>>, answers: Seq<bool>, i: int)
    requires
        spec_is_first_ignored(answers, i),
        i < prefixes.len(),
    ensures
        spec_next_step(prefixes, answers) == StepView::Ignored(prefixes[i]),
{
    let k = choose|k: int| spec_is_first_ignored(answers, k) && k < prefixes.len();
    if k < i {
        assert(!answers[k]);
    } else if k > i {
        assert(!answers[i]);
    }
}

/// While nothing has been answered "ignored", the prefixes are asked
/// about one at a time from the root: the next question is about the
/// prefix that follows the answered ones.
pub proof fn lemma_asks_in_order(prefixes: Seq<Seq<char>>, answers: Seq<bool>)
    requires
        answers.len() < prefixes.len(),
        forall|j: int| 0 <= j < answers.len() ==> !answers[j],
    ensures
        spec_next_step(prefixes, answers) == StepView::Ask(prefixes[answers.len() as int]),
{
}

/// The filter loses no path and invents none: every path is either kept
/// or noted with its ignored prefix.
pub proof fn lemma_filter_partitions(paths: Seq<Seq<char>>, verdicts: Seq<Option<Seq<char>>>)
    requires
        verdicts.len() == paths.len(),
    ensures
        spec_kept(paths, verdicts).len() + spec_notices(verdicts, paths.len() as int).len()
            == paths.len(),
    decreases paths.len(),
{
    if paths.len() > 0 {
        let front = paths.drop_last();
        lemma_kept_ignores_later_verdicts(front, verdicts, verdicts.take(front.len() as int));
        lemma_notices_ignore_later_verdicts(
            verdicts,
            verdicts.take(front.len() as int),
            front.len() as int,
        );
        lemma_filter_partitions(front, verdicts.take(front.len() as int));
    }
}

/// What is kept of `paths` depends on the verdicts for `paths` alone.
pub proof fn lemma_kept_ignores_later_verdicts(
    paths: Seq<Seq<char>>,
    verdicts: Seq<Option<Seq<char>>>,
    fewer: Seq<Option<Seq<char>>>,
)
    requires
        paths.len() <= fewer.len() <= verdicts.len(),
        forall|i: int| 0 <= i < fewer.len() ==> fewer[i] == verdicts[i],
    ensures
        spec_kept(paths, verdicts) == spec_kept(paths, fewer),
    decreases paths.len(),
{
    if paths.len() > 0 {
        lemma_kept_ignores_later_verdicts(paths.drop_last(), verdicts, fewer);
    }
}

/// The first `n` notices depend on the first `n` verdicts alone.
pub proof fn lemma_notices_ignore_later_verdicts(
    verdicts: Seq<Option<Seq<char>>>,
    fewer: Seq<Option<Seq<char>>>,
    n: int,
)
    requires
        n <= fewer.len() <= verdicts.len(),
        forall|i: int| 0 <= i < fewer.len() ==> fewer[i] == verdicts[i],
    ensures
        spec_notices(verdicts, n) == spec_notices(fewer, n),
    decreases n,
{
    if n > 0 {
        lemma_notices_ignore_later_verdicts(verdicts, fewer, n - 1);
    }
}

} // verus!
