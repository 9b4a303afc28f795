//! The index reconciler: staging, removal, refreshing what is recorded, and
//! the one commit that follows each.

use vstd::prelude::*;
use vstd::string::*;
use vstd::utf8::{decode_utf8, valid_utf8};
use crate::error::{DotError, ErrorKind, from_git};
use crate::paths::{resolve_against, spec_resolve};
use crate::text::{views, lemma_views_push, lemma_views_empty};
use crate::vcs::{index_add_path, index_entry_paths, index_remove_path, index_write, index_write_tree, now_millis, oid_hex, path_exists, reference_target, repo_commit, repo_find_commit, repo_find_tree, repo_head, repo_index, repo_signature, utf8_text};

verus! {

/// What the library asked the repository to record, and the ids it got.
pub struct CommitReceipt {
    /// The id of the new commit, in hexadecimal.
    pub id: String,
    /// The id of the tree that the commit holds, in hexadecimal.
    pub tree: String,
    /// The id of the commit that was the head before, if there was one.
    pub parent: Option<String>,
    /// The clock's milliseconds since the epoch, as the message has them.
    pub timestamp_millis: i64,
    /// The commit message.
    pub message: String,
}

/// The decimal digit of `d`.
pub open spec fn spec_digit(d: int) -> char {
    if d == 0 {
        '0'
    } else if d == 1 {
        '1'
    } else if d == 2 {
        '2'
    } else if d == 3 {
        '3'
    } else if d == 4 {
        '4'
    } else if d == 5 {
        '5'
    } else if d == 6 {
        '6'
    } else if d == 7 {
        '7'
    } else if d == 8 {
        '8'
    } else {
        '9'
    }
}

/// The decimal numeral of `n`, without leading zeros.
pub open spec fn spec_decimal_nat(n: nat) -> Seq<char>
    decreases n,
{
    if n < 10 {
        seq![spec_digit(n as int)]
    } else {
        spec_decimal_nat(n / 10).push(spec_digit((n % 10) as int))
    }
}

/// The decimal numeral of `v`, with a minus sign if `v` is negative.
pub open spec fn spec_decimal(v: int) -> Seq<char> {
    if v < 0 {
        seq!['-'] + spec_decimal_nat((-v) as nat)
    } else {
        spec_decimal_nat(v as nat)
    }
}

/// The message of a commit: the timestamp in decimal, a space, and the
/// description of the operation.
pub open spec fn spec_commit_message(timestamp_millis: int, description: Seq<char>) -> Seq<char> {
    spec_decimal(timestamp_millis) + seq![' '] + description
}

fn digit_str(d: u64) -> (s: &'static str)
    requires
        d < 10,
    ensures
        s@ == seq![spec_digit(d as int)],
{
    proof {
        reveal_strlit("0");
        reveal_strlit("1");
        reveal_strlit("2");
        reveal_strlit("3");
        reveal_strlit("4");
        reveal_strlit("5");
        reveal_strlit("6");
        reveal_strlit("7");
        reveal_strlit("8");
        reveal_strlit("9");
        assert("0"@ =~= seq!['0']);
        assert("1"@ =~= seq!['1']);
        assert("2"@ =~= seq!['2']);
        assert("3"@ =~= seq!['3']);
        assert("4"@ =~= seq!['4']);
        assert("5"@ =~= seq!['5']);
        assert("6"@ =~= seq!['6']);
        assert("7"@ =~= seq!['7']);
        assert("8"@ =~= seq!['8']);
        assert("9"@ =~= seq!['9']);
    }
    if d == 0 {
        "0"
    } else if d == 1 {
        "1"
    } else if d == 2 {
        "2"
    } else if d == 3 {
        "3"
    } else if d == 4 {
        "4"
    } else if d == 5 {
        "5"
    } else if d == 6 {
        "6"
    } else if d == 7 {
        "7"
    } else if d == 8 {
        "8"
    } else {
        "9"
    }
}

fn decimal_nat(n: u64) -> (s: String)
    ensures
        s@ == spec_decimal_nat(n as nat),
    decreases n,
{
    if n < 10 {
        String::from_str(digit_str(n))
    } else {
        let front = decimal_nat(n / 10);
        let last = digit_str(n % 10);
        proof {
            assert(front@ + last@ =~= front@.push(spec_digit((n % 10) as int)));
        }
        front.concat(last)
    }
}

/// The decimal numeral of `v`.
pub fn decimal(v: i64) -> (s: String)
    ensures
        s@ == spec_decimal(v as int),
{
    if v < 0 {
        let magnitude: u64 = if v == i64::MIN {
            9223372036854775808u64
        } else {
            (-v) as u64
        };
        proof {
            reveal_strlit("-");
            assert("-"@ =~= seq!['-']);
        }
        String::from_str("-").concat(decimal_nat(magnitude).as_str())
    } else {
        decimal_nat(v as u64)
    }
}

/// The message of a commit made at `timestamp_millis` for the operation
/// that `description` names.
pub fn commit_message(timestamp_millis: i64, description: &str) -> (message: String)
    ensures
        message@ == spec_commit_message(timestamp_millis as int, description@),
{
    proof {
        reveal_strlit(" ");
        assert(" "@ =~= seq![' ']);
    }
    decimal(timestamp_millis).concat(" ").concat(description)
}

/// The parents of the next commit: the head, if the branch has one, and
/// nothing on a branch without commits.
pub fn parents_for<T>(head: Option<T>) -> (parents: Vec<T>)
    ensures
        match head {
            Some(commit) => parents@ == seq![commit],
            None => parents@ == Seq::<T>::empty(),
        },
{
    let mut parents: Vec<T> = Vec::new();
    if let Some(commit) = head {
        parents.push(commit);
        proof {
            assert(parents@ =~= seq![commit]);
        }
    }
    parents
}

/// The reference that every commit moves: the head of the current branch.
pub fn update_reference() -> (name: &'static str)
    ensures
        name@ == "HEAD"@,
{
    "HEAD"
}

/// The id that the repository's head points to, if HEAD resolves to a
/// direct reference.
fn head_target(repo: &git2::Repository) -> (target: Option<git2::Oid>) {
    match repo_head(repo) {
        Ok(reference) => reference_target(&reference),
        Err(_) => None,
    }
}

/// Writes the index, builds the tree of its state and commits it on HEAD
/// with the head before as the only parent, or with none on a branch
/// without commits. The message is the clock's milliseconds, a space and
/// `message`.
pub fn commit_to_repo(repo: git2::Repository, index: &mut git2::Index, message: &str) -> (r: Result<
    CommitReceipt,
    DotError,
>)
    ensures
        match r {
            Ok(c) => c.message@ == spec_commit_message(c.timestamp_millis as int, message@),
            Err(e) => (e.kind == ErrorKind::IndexWrite || e.kind == ErrorKind::Commit)
                && e.code is Some,
        },
{
    if let Err(e) = index_write(index) {
        return Err(from_git(ErrorKind::IndexWrite, &e));
    }
    let signature = match repo_signature(&repo) {
        Ok(signature) => signature,
        Err(e) => {
            return Err(from_git(ErrorKind::Commit, &e));
        },
    };
    let tree_id = match index_write_tree(index) {
        Ok(id) => id,
        Err(e) => {
            return Err(from_git(ErrorKind::Commit, &e));
        },
    };
    let tree = match repo_find_tree(&repo, tree_id) {
        Ok(tree) => tree,
        Err(e) => {
            return Err(from_git(ErrorKind::Commit, &e));
        },
    };
    let head = match head_target(&repo) {
        Some(id) => match repo_find_commit(&repo, id) {
            Ok(commit) => Some((id, commit)),
            Err(e) => {
                return Err(from_git(ErrorKind::Commit, &e));
            },
        },
        None => None,
    };
    let (parent, parents) = match head {
        Some((id, commit)) => (Some(oid_hex(&id)), parents_for(Some(commit))),
        None => (None, parents_for(None)),
    };
    let timestamp_millis = now_millis();
    let text = commit_message(timestamp_millis, message);
    match repo_commit(
        &repo,
        update_reference(),
        &signature,
        &signature,
        text.as_str(),
        &tree,
        &parents,
    ) {
        Ok(id) => Ok(
            CommitReceipt {
                id: oid_hex(&id),
                tree: oid_hex(&tree_id),
                parent,
                timestamp_millis,
                message: text,
            },
        ),
        Err(e) => Err(from_git(ErrorKind::Commit, &e)),
    }
}

/// Stages every path of `spec` from the file on disk, then commits once.
/// A path that cannot be staged ends the operation before any commit.
pub fn add_to_index(repo: git2::Repository, spec: Vec<String>) -> (r: Result<CommitReceipt, DotError>)
    ensures
        match r {
            Ok(c) => c.message@ == spec_commit_message(
                c.timestamp_millis as int,
                "Add new files to Dottler"@,
            ),
            Err(e) => (e.kind == ErrorKind::IndexWrite || e.kind == ErrorKind::Commit)
                && e.code is Some,
        },
{
    let mut index = match repo_index(&repo) {
        Ok(index) => index,
        Err(e) => {
            return Err(from_git(ErrorKind::IndexWrite, &e));
        },
    };
    let mut i: usize = 0;
    while i < spec.len()
        invariant
            i <= spec.len(),
        decreases spec.len() - i,
    {
        if let Err(e) = index_add_path(&mut index, spec[i].as_str()) {
            return Err(from_git(ErrorKind::IndexWrite, &e));
        }
        i += 1;
    }
    commit_to_repo(repo, &mut index, "Add new files to Dottler")
}

/// Removes the entry of every path of `paths` from the index, then
/// commits once. A path that cannot be removed ends the operation before
/// any commit.
pub fn remove_tracked_files(repo: git2::Repository, paths: Vec<String>) -> (r: Result<
    CommitReceipt,
    DotError,
>)
    ensures
        match r {
            Ok(c) => c.message@ == spec_commit_message(
                c.timestamp_millis as int,
                "Remove files from Dottler"@,
            ),
            Err(e) => (e.kind == ErrorKind::IndexWrite || e.kind == ErrorKind::Commit)
                && e.code is Some,
        },
{
    let mut index = match repo_index(&repo) {
        Ok(index) => index,
        Err(e) => {
            return Err(from_git(ErrorKind::IndexWrite, &e));
        },
    };
    let mut i: usize = 0;
    while i < paths.len()
        invariant
            i <= paths.len(),
        decreases paths.len() - i,
    {
        if let Err(e) = index_remove_path(&mut index, paths[i].as_str()) {
            return Err(from_git(ErrorKind::IndexWrite, &e));
        }
        i += 1;
    }
    commit_to_repo(repo, &mut index, "Remove files from Dottler")
}

/// The recorded paths whose file is on disk, in order. A path without a
/// flag counts as absent.
pub open spec fn spec_select_present(recorded: Seq<Seq<char>>, present: Seq<bool>) -> Seq<Seq<char>>
    decreases recorded.len(),
{
    if recorded.len() == 0 {
        Seq::empty()
    } else if recorded.len() <= present.len() && present[recorded.len() - 1] {
        spec_select_present(recorded.drop_last(), present).push(recorded.last())
    } else {
        spec_select_present(recorded.drop_last(), present)
    }
}

/// The paths to stage again: those of `recorded` whose flag in `present`
/// says that the file is still on disk.
pub fn select_present(recorded: &Vec<String>, present: &Vec<bool>) -> (restage: Vec<String>)
    ensures
        views(restage@) == spec_select_present(views(recorded@), present@),
{
    let ghost all = views(recorded@);
    let mut out: Vec<String> = Vec::new();
    let mut i: usize = 0;
    proof {
        lemma_views_empty();
        assert(all.take(0) =~= Seq::<Seq<char>>::empty());
    }
    while i < recorded.len()
        invariant
            i <= recorded.len(),
            all == views(recorded@),
            views(out@) == spec_select_present(all.take(i as int), present@),
        decreases recorded.len() - i,
    {
        proof {
            assert(all.take(i + 1).drop_last() =~= all.take(i as int));
            assert(all.take(i + 1).last() == recorded@[i as int]@);
        }
        if i < present.len() && present[i] {
            let path = recorded[i].clone();
            proof {
                lemma_views_push(out@, path);
            }
            out.push(path);
        }
        i += 1;
    }
    proof {
        assert(all.take(recorded@.len() as int) =~= all);
    }
    out
}

/// The texts that the byte strings of `raw` encode in UTF-8, in order. A
/// byte string that is not UTF-8 has no place among them.
pub open spec fn spec_decode_paths(raw: Seq<Seq<u8>>) -> Seq<Seq<char>>
    decreases raw.len(),
{
    if raw.len() == 0 {
        Seq::empty()
    } else if valid_utf8(raw.last()) {
        spec_decode_paths(raw.drop_last()).push(decode_utf8(raw.last()))
    } else {
        spec_decode_paths(raw.drop_last())
    }
}

/// The byte strings of a sequence of byte vectors, one for one.
pub open spec fn byte_views(raw: Seq<Vec<u8>>) -> Seq<Seq<u8>> {
    raw.map_values(|bytes: Vec<u8>| bytes@)
}

/// The paths of index entries as text: each entry path that is UTF-8,
/// decoded, in the order of the entries.
pub fn decode_paths(raw: &Vec<Vec<u8>>) -> (paths: Vec<String>)
    ensures
        views(paths@) == spec_decode_paths(byte_views(raw@)),
{
    let ghost all = byte_views(raw@);
    let mut out: Vec<String> = Vec::new();
    let mut i: usize = 0;
    proof {
        lemma_views_empty();
        assert(all.take(0) =~= Seq::<Seq<u8>>::empty());
    }
    while i < raw.len()
        invariant
            i <= raw.len(),
            all == byte_views(raw@),
            views(out@) == spec_decode_paths(all.take(i as int)),
        decreases raw.len() - i,
    {
        proof {
            assert(all.take(i + 1).drop_last() =~= all.take(i as int));
            assert(all.take(i + 1).last() == raw@[i as int]@);
        }
        if let Some(path) = utf8_text(&raw[i]) {
            proof {
                lemma_views_push(out@, path);
            }
            out.push(path);
        }
        i += 1;
    }
    proof {
        assert(all.take(raw@.len() as int) =~= all);
    }
    out
}

/// The paths that the index records, in its order. An entry whose path is
/// not UTF-8 has no place in the result.
fn recorded_paths(index: &git2::Index) -> (paths: Vec<String>) {
    let raw = index_entry_paths(index);
    decode_paths(&raw)
}

/// Where the file of each recorded path is looked for: the path as seen
/// from `home`.
pub fn probe_paths(home: &str, recorded: &Vec<String>) -> (targets: Vec<String>)
    ensures
        targets@.len() == recorded@.len(),
        forall|i: int|
            0 <= i < recorded@.len() ==> (#[trigger] targets@[i])@ == spec_resolve(
                home@,
                recorded@[i]@,
            ),
{
    let mut targets: Vec<String> = Vec::new();
    let mut i: usize = 0;
    while i < recorded.len()
        invariant
            i <= recorded.len(),
            targets@.len() == i,
            forall|j: int|
                0 <= j < i ==> (#[trigger] targets@[j])@ == spec_resolve(home@, recorded@[j]@),
        decreases recorded.len() - i,
    {
        targets.push(resolve_against(home, recorded[i].as_str()));
        i += 1;
    }
    targets
}

/// For each of `targets`, whether anything is there on disk.
fn probe_present(targets: &Vec<String>) -> (present: Vec<bool>)
    ensures
        present.len() == targets.len(),
{
    let mut present: Vec<bool> = Vec::new();
    let mut i: usize = 0;
    while i < targets.len()
        invariant
            i <= targets.len(),
            present.len() == i,
        decreases targets.len() - i,
    {
        present.push(path_exists(targets[i].as_str()));
        i += 1;
    }
    present
}

/// What refreshing is to do: nothing, if no recorded path has its file on
/// disk; else stage again those that have, and commit.
pub fn sync_plan(recorded: &Vec<String>, present: &Vec<bool>) -> (plan: Option<Vec<String>>)
    ensures
        plan is None <==> spec_select_present(views(recorded@), present@).len() == 0,
        plan matches Some(v) ==> views(v@) == spec_select_present(views(recorded@), present@),
{
    let restage = select_present(recorded, present);
    if restage.len() == 0 {
        None
    } else {
        Some(restage)
    }
}

/// Whether `r` is how refreshing ends for an index that records
/// `recorded`, where `present` says of each path whether its file is on
/// disk: there is a commit exactly if some recorded path is present.
pub open spec fn spec_refreshed(
    recorded: Seq<Seq<char>>,
    present: Seq<bool>,
    r: Result<Option<CommitReceipt>, DotError>,
) -> bool {
    &&& present.len() == recorded.len()
    &&& r is Ok ==> (r->Ok_0 is None <==> spec_select_present(recorded, present).len() == 0)
}

/// Stages again every recorded path whose file is still on disk beneath
/// `home` and commits once if there was any. An entry whose file is gone
/// is left as it is, and where no file is left nothing is staged and no
/// commit is made. A path that cannot be staged ends the operation before
/// any commit.
pub fn update_tracked_files(repo: git2::Repository, home: &str) -> (r: Result<
    Option<CommitReceipt>,
    DotError,
>)
    ensures
        exists|recorded: Seq<Seq<char>>, present: Seq<bool>| #[trigger]
            spec_refreshed(recorded, present, r),
        match r {
            Ok(Some(c)) => c.message@ == spec_commit_message(
                c.timestamp_millis as int,
                "Update Dottler files"@,
            ),
            Ok(None) => true,
            Err(e) => (e.kind == ErrorKind::IndexWrite || e.kind == ErrorKind::Commit)
                && e.code is Some,
        },
{
    let mut index = match repo_index(&repo) {
        Ok(index) => index,
        Err(e) => {
            let failure = from_git(ErrorKind::IndexWrite, &e);
            proof {
                assert(spec_refreshed(
                    Seq::empty(),
                    Seq::empty(),
                    Err::<Option<CommitReceipt>, DotError>(failure),
                ));
            }
            return Err(failure);
        },
    };
    let recorded = recorded_paths(&index);
    let targets = probe_paths(home, &recorded);
    let present = probe_present(&targets);
    let restage = match sync_plan(&recorded, &present) {
        None => {
            proof {
                assert(spec_refreshed(
                    views(recorded@),
                    present@,
                    Ok::<Option<CommitReceipt>, DotError>(None),
                ));
            }
            return Ok(None);
        },
        Some(restage) => restage,
    };
    let mut i: usize = 0;
    while i < restage.len()
        invariant
            i <= restage.len(),
        decreases restage.len() - i,
    {
        if let Err(e) = index_add_path(&mut index, restage[i].as_str()) {
            let failure = from_git(ErrorKind::IndexWrite, &e);
            proof {
                assert(spec_refreshed(
                    Seq::empty(),
                    Seq::empty(),
                    Err::<Option<CommitReceipt>, DotError>(failure),
                ));
            }
            return Err(failure);
        }
        i += 1;
    }
    match commit_to_repo(repo, &mut index, "Update Dottler files") {
        Ok(c) => {
            proof {
                assert(spec_refreshed(
                    views(recorded@),
                    present@,
                    Ok::<Option<CommitReceipt>, DotError>(Some(c)),
                ));
            }
            Ok(Some(c))
        },
        Err(e) => {
            proof {
                assert(spec_refreshed(
                    Seq::empty(),
                    Seq::empty(),
                    Err::<Option<CommitReceipt>, DotError>(e),
                ));
            }
            Err(e)
        },
    }
}

} // verus!
