//! One function per command. Each takes the home directory as an explicit
//! value and gives back what there is to report.

use vstd::prelude::*;
use vstd::string::*;
use crate::cli::{AddArgs, Cli, CloneArgs, Commands, LinkArgs, RemoveArgs};
use crate::commit::{add_to_index, remove_tracked_files, spec_commit_message, spec_refreshed, update_tracked_files, CommitReceipt};
use crate::error::{DotError, ErrorKind, from_git, spec_is_path_failure, spec_is_repository_failure};
use crate::expand::{expand_and_normalize_paths, spec_normalized_from};
use crate::ignore::{filter_ignored, spec_kept, spec_notices, spec_verdicts_fit};
use crate::normalize::{spec_normalize, Located};
use crate::paths::{resolve_against, spec_resolve};
use crate::text::{copy_strings, views};
use crate::vcs::{config_set_str, repo_config, repo_init_bare, repo_open_bare, repo_path, repo_remote, repo_set_workdir};

verus! {

/// Where the repository lies: the directory `.dottler` in `home`.
pub fn get_dottler_path(home: &str) -> (path: String)
    ensures
        path@ == spec_resolve(home@, ".dottler"@),
{
    resolve_against(home, ".dottler")
}

/// Where the key for the remote lies: `.ssh/id_rsa` in `home`.
pub fn default_key_path(home: &str) -> (path: String)
    ensures
        path@ == spec_resolve(home@, ".ssh/id_rsa"@),
{
    resolve_against(home, ".ssh/id_rsa")
}

/// The setting that keeps the repository from reporting the untracked
/// files of the home directory: the variable and its value.
pub fn untracked_files_setting() -> (kv: (&'static str, &'static str))
    ensures
        kv.0@ == "status.showUntrackedFiles"@,
        kv.1@ == "no"@,
{
    ("status.showUntrackedFiles", "no")
}

/// Whether the repository is told to record its working directory in its
/// own configuration when one is set: it is.
pub fn records_working_tree() -> (update: bool)
    ensures
        update,
{
    true
}

/// What `link` asks of the repository.
pub struct LinkRequest {
    /// The name under which the remote is recorded.
    pub name: String,
    /// Where the remote repository is.
    pub url: String,
}

/// The request to record the remote at `args.url` under the name `origin`.
pub fn link_request(args: LinkArgs) -> (request: LinkRequest)
    ensures
        request.name@ == "origin"@,
        request.url@ == args.url@,
{
    LinkRequest { name: String::from_str("origin"), url: args.url }
}

/// Creates a bare repository at `repo_path`.
pub fn init_bare(repo_path: &str) -> (r: Result<git2::Repository, DotError>)
    ensures
        r is Err ==> r->Err_0.kind == ErrorKind::RepositoryState && r->Err_0.code is Some,
{
    match repo_init_bare(repo_path) {
        Ok(repo) => Ok(repo),
        Err(e) => Err(from_git(ErrorKind::RepositoryState, &e)),
    }
}

/// Opens the bare repository at `repo_path`.
pub fn open_bare(repo_path: &str) -> (r: Result<git2::Repository, DotError>)
    ensures
        r is Err ==> r->Err_0.kind == ErrorKind::RepositoryState && r->Err_0.code is Some,
{
    match repo_open_bare(repo_path) {
        Ok(repo) => Ok(repo),
        Err(e) => Err(from_git(ErrorKind::RepositoryState, &e)),
    }
}

/// Records the remote that `request` names in the repository.
pub fn add_remote(repo: git2::Repository, request: &LinkRequest) -> (r: Result<(), DotError>)
    ensures
        r is Err ==> r->Err_0.kind == ErrorKind::RepositoryState && r->Err_0.code is Some,
{
    match repo_remote(&repo, request.name.as_str(), request.url.as_str()) {
        Ok(()) => Ok(()),
        Err(e) => Err(from_git(ErrorKind::RepositoryState, &e)),
    }
}

/// Opens the repository of `home` with `home` as its working directory.
fn open_at_home(home: &str) -> (r: Result<git2::Repository, DotError>)
    ensures
        r is Err ==> r->Err_0.kind == ErrorKind::RepositoryState && r->Err_0.code is Some,
{
    let repo = match open_bare(get_dottler_path(home).as_str()) {
        Ok(repo) => repo,
        Err(e) => {
            return Err(e);
        },
    };
    match repo_set_workdir(&repo, home, records_working_tree()) {
        Ok(()) => Ok(repo),
        Err(e) => Err(from_git(ErrorKind::RepositoryState, &e)),
    }
}

/// `init`: creates the repository of `home`, makes `home` its working
/// directory and tells it not to report untracked files. Gives the place
/// of the new repository.
pub fn handle_init(home: &str) -> (r: Result<String, DotError>)
    ensures
        r is Err ==> r->Err_0.kind == ErrorKind::RepositoryState && r->Err_0.code is Some,
{
    let repo = match init_bare(get_dottler_path(home).as_str()) {
        Ok(repo) => repo,
        Err(e) => {
            return Err(e);
        },
    };
    if let Err(e) = repo_set_workdir(&repo, home, records_working_tree()) {
        return Err(from_git(ErrorKind::RepositoryState, &e));
    }
    let mut config = match repo_config(&repo) {
        Ok(config) => config,
        Err(e) => {
            return Err(from_git(ErrorKind::RepositoryState, &e));
        },
    };
    let (name, value) = untracked_files_setting();
    if let Err(e) = config_set_str(&mut config, name, value) {
        return Err(from_git(ErrorKind::RepositoryState, &e));
    }
    Ok(repo_path(&repo))
}

/// `link`: records the remote at `args.url` as `origin` in the repository
/// of `home`.
pub fn handle_link(args: LinkArgs, home: &str) -> (r: Result<(), DotError>)
    ensures
        r is Err ==> r->Err_0.kind == ErrorKind::RepositoryState && r->Err_0.code is Some,
{
    let request = link_request(args);
    let repo = match open_bare(get_dottler_path(home).as_str()) {
        Ok(repo) => repo,
        Err(e) => {
            return Err(e);
        },
    };
    add_remote(repo, &request)
}

/// What `clone` asks of the transport.
pub struct CloneRequest {
    /// Where the remote repository is.
    pub url: String,
    /// Where its bare copy is to lie.
    pub repo_path: String,
    /// The private key to authenticate with.
    pub key_path: String,
    /// The directory to make the working tree of the copy.
    pub workdir: String,
}

/// `clone`: the request to copy the remote at `args.url` into the
/// repository of `home`, authenticated with the default key of `home`,
/// and to make `home` the working tree of the copy.
pub fn handle_clone(args: CloneArgs, home: &str) -> (request: CloneRequest)
    ensures
        request.url@ == args.url@,
        request.repo_path@ == spec_resolve(home@, ".dottler"@),
        request.key_path@ == spec_resolve(home@, ".ssh/id_rsa"@),
        request.workdir@ == home@,
{
    CloneRequest {
        url: args.url,
        repo_path: get_dottler_path(home),
        key_path: default_key_path(home),
        workdir: String::from_str(home),
    }
}

/// What `add` did.
pub struct AddReport {
    /// The commit that records the staged files.
    pub receipt: CommitReceipt,
    /// The paths handed to the index, in order: what the filter kept.
    pub staged: Vec<String>,
    /// For each path left out, the ignored prefix that excludes it.
    pub notices: Vec<String>,
}

/// Whether `report` is what `add` gives for `files`, where `located`
/// holds what was found on disk for each of them and `verdicts` what the
/// ignore rules said of each normalized path: what was handed to the
/// index is what the filter kept of the normalized path set, and the
/// notices are the ignored prefixes of the rest.
pub open spec fn spec_added(
    located: Seq<Located>,
    verdicts: Seq<Option<Seq<char>>>,
    files: Seq<Seq<char>>,
    home: Seq<char>,
    report: AddReport,
) -> bool {
    &&& located.len() == files.len()
    &&& spec_normalize(located, home) is Ok
    &&& spec_verdicts_fit(spec_normalize(located, home)->Ok_0, verdicts)
    &&& views(report.staged@) == spec_kept(spec_normalize(located, home)->Ok_0, verdicts)
    &&& views(report.notices@) == spec_notices(
        verdicts,
        spec_normalize(located, home)->Ok_0.len() as int,
    )
}

/// `add`: normalizes `args.files` as seen from `workdir`, leaves out what
/// the ignore rules exclude, stages the rest and commits once.
pub fn handle_add(args: AddArgs, home: &str, workdir: &str) -> (r: Result<AddReport, DotError>)
    ensures
        match r {
            Ok(report) => {
                &&& report.receipt.message@ == spec_commit_message(
                    report.receipt.timestamp_millis as int,
                    "Add new files to Dottler"@,
                )
                &&& exists|located: Seq<Located>, verdicts: Seq<Option<Seq<char>>>| #[trigger]
                    spec_added(located, verdicts, views(args.files@), home@, report)
            },
            Err(e) => spec_is_repository_failure(e) || (spec_is_path_failure(e) && views(
                args.files@,
            ).contains(e.message@)),
        },
{
    let ghost files = views(args.files@);
    let repo = match open_bare(get_dottler_path(home).as_str()) {
        Ok(repo) => repo,
        Err(e) => {
            return Err(e);
        },
    };
    let expanded = expand_and_normalize_paths(args.files, home, workdir);
    let ghost located = choose|located: Seq<Located>|
        spec_normalized_from(located, files, home@, expanded);
    let paths = match expanded {
        Ok(paths) => paths,
        Err(e) => {
            return Err(e);
        },
    };
    let ghost normalized = views(paths@);
    if let Err(e) = repo_set_workdir(&repo, home, records_working_tree()) {
        return Err(from_git(ErrorKind::RepositoryState, &e));
    }
    let filtered = match filter_ignored(&repo, paths) {
        Ok(filtered) => filtered,
        Err(e) => {
            return Err(e);
        },
    };
    let ghost verdicts = choose|verdicts: Seq<Option<Seq<char>>>|
        {
            &&& spec_verdicts_fit(normalized, verdicts)
            &&& views(filtered.kept@) == spec_kept(normalized, verdicts)
            &&& views(filtered.notices@) == #[trigger] spec_notices(
                verdicts,
                normalized.len() as int,
            )
        };
    let staged = copy_strings(&filtered.kept);
    match add_to_index(repo, filtered.kept) {
        Ok(receipt) => {
            let report = AddReport { receipt, staged, notices: filtered.notices };
            proof {
                assert(spec_added(located, verdicts, files, home@, report));
            }
            Ok(report)
        },
        Err(e) => Err(e),
    }
}

/// `remove`: takes `args.file`, as it is written, out of the index of the
/// repository of `home` and commits the removal.
pub fn handle_remove(args: RemoveArgs, home: &str) -> (r: Result<CommitReceipt, DotError>)
    ensures
        match r {
            Ok(c) => c.message@ == spec_commit_message(
                c.timestamp_millis as int,
                "Remove files from Dottler"@,
            ),
            Err(e) => spec_is_repository_failure(e),
        },
{
    let repo = match open_at_home(home) {
        Ok(repo) => repo,
        Err(e) => {
            return Err(e);
        },
    };
    let mut paths: Vec<String> = Vec::new();
    paths.push(args.file);
    remove_tracked_files(repo, paths)
}

/// `sync`: stages again every tracked file of the repository of `home`
/// that is still on disk, and commits once if there was any.
pub fn handle_sync(home: &str) -> (r: Result<Option<CommitReceipt>, DotError>)
    ensures
        exists|recorded: Seq<Seq<char>>, present: Seq<bool>| #[trigger]
            spec_refreshed(recorded, present, r),
        match r {
            Ok(Some(c)) => c.message@ == spec_commit_message(
                c.timestamp_millis as int,
                "Update Dottler files"@,
            ),
            Ok(None) => true,
            Err(e) => spec_is_repository_failure(e),
        },
{
    let repo = match open_at_home(home) {
        Ok(repo) => repo,
        Err(e) => {
            proof {
                assert(spec_refreshed(
                    Seq::empty(),
                    Seq::empty(),
                    Err::<Option<CommitReceipt>, DotError>(e),
                ));
            }
            return Err(e);
        },
    };
    update_tracked_files(repo, home)
}

/// `status`: reports on the repository. There is nothing to report yet.
pub fn handle_status() {
}

/// What a command did.
pub enum Outcome {
    /// `init` created the repository at this place.
    Initialized(String),
    /// `link` attached the remote.
    Linked,
    /// `clone` asks the transport for this.
    CloneRequested(CloneRequest),
    /// `add` staged and committed.
    Added(AddReport),
    /// `remove` took the entry out and committed.
    Removed(CommitReceipt),
    /// `sync` committed what it staged again, if anything.
    Synced(Option<CommitReceipt>),
    /// `status` has nothing to report.
    Reported,
}

/// Whether `outcome` is what `command` gives when it succeeds.
pub open spec fn spec_answers(command: Commands, home: Seq<char>, outcome: Outcome) -> bool {
    match command {
        Commands::Init => outcome is Initialized,
        Commands::Link(_) => outcome is Linked,
        Commands::Clone(args) => {
            &&& outcome matches Outcome::CloneRequested(request)
            &&& request.url@ == args.url@
            &&& request.repo_path@ == spec_resolve(home, ".dottler"@)
            &&& request.key_path@ == spec_resolve(home, ".ssh/id_rsa"@)
            &&& request.workdir@ == home
        },
        Commands::Add(args) => {
            &&& outcome matches Outcome::Added(report)
            &&& report.receipt.message@ == spec_commit_message(
                report.receipt.timestamp_millis as int,
                "Add new files to Dottler"@,
            )
            &&& exists|located: Seq<Located>, verdicts: Seq<Option<Seq<char>>>| #[trigger]
                spec_added(located, verdicts, views(args.files@), home, report)
        },
        Commands::Remove(_) => outcome matches Outcome::Removed(c) && c.message@
            == spec_commit_message(c.timestamp_millis as int, "Remove files from Dottler"@),
        Commands::Sync => {
            &&& outcome matches Outcome::Synced(receipt)
            &&& exists|recorded: Seq<Seq<char>>, present: Seq<bool>| #[trigger]
                spec_refreshed(
                    recorded,
                    present,
                    Ok::<Option<CommitReceipt>, DotError>(receipt),
                )
            &&& receipt matches Some(c) ==> c.message@ == spec_commit_message(
                c.timestamp_millis as int,
                "Update Dottler files"@,
            )
        },
        Commands::Status => outcome is Reported,
    }
}

/// Carries out one invocation for the home directory `home`, with
/// relative arguments seen from `workdir`. Only `add` can fail for a
/// path; `clone` and `status` cannot fail here.
pub fn run(cli: Cli, home: &str, workdir: &str) -> (r: Result<Outcome, DotError>)
    ensures
        match r {
            Ok(outcome) => spec_answers(cli.command, home@, outcome),
            Err(e) => {
                &&& spec_is_repository_failure(e) || (cli.command is Add && spec_is_path_failure(e))
                &&& !(cli.command is Clone)
                &&& !(cli.command is Status)
            },
        },
{
    match cli.command {
        Commands::Init => match handle_init(home) {
            Ok(place) => Ok(Outcome::Initialized(place)),
            Err(e) => Err(e),
        },
        Commands::Link(args) => match handle_link(args, home) {
            Ok(()) => Ok(Outcome::Linked),
            Err(e) => Err(e),
        },
        Commands::Clone(args) => Ok(Outcome::CloneRequested(handle_clone(args, home))),
        Commands::Add(args) => match handle_add(args, home, workdir) {
            Ok(report) => Ok(Outcome::Added(report)),
            Err(e) => Err(e),
        },
        Commands::Remove(args) => match handle_remove(args, home) {
            Ok(receipt) => Ok(Outcome::Removed(receipt)),
            Err(e) => Err(e),
        },
        Commands::Sync => match handle_sync(home) {
            Ok(receipt) => Ok(Outcome::Synced(receipt)),
            Err(e) => Err(e),
        },
        Commands::Status => {
            handle_status();
            Ok(Outcome::Reported)
        },
    }
}

} // verus!
