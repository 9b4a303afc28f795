//! The calls into the version-control library, the clock and the
//! filesystem. Nothing here is proved: each function hands its arguments
//! to the outside function named above it and its result back.

use vstd::prelude::*;
use vstd::utf8::{decode_utf8, valid_utf8};
use crate::normalize::WalkedEntry;

verus! {

/// `git2::Repository`, carried as it is.
#[verifier::external_type_specification]
#[verifier::external_body]
pub struct ExRepository(git2::Repository);

/// `git2::Index`, carried as it is.
#[verifier::external_type_specification]
#[verifier::external_body]
pub struct ExIndex(git2::Index);

/// `git2::Config`, carried as it is.
#[verifier::external_type_specification]
#[verifier::external_body]
pub struct ExConfig(git2::Config);

/// `git2::Oid`, carried as it is.
#[verifier::external_type_specification]
#[verifier::external_body]
pub struct ExOid(git2::Oid);

/// `git2::Tree`, carried as it is.
#[verifier::external_type_specification]
#[verifier::external_body]
pub struct ExTree<'a>(git2::Tree<'a>);

/// `git2::Commit`, carried as it is.
#[verifier::external_type_specification]
#[verifier::external_body]
pub struct ExCommit<'a>(git2::Commit<'a>);

/// `git2::Reference`, carried as it is.
#[verifier::external_type_specification]
#[verifier::external_body]
pub struct ExReference<'a>(git2::Reference<'a>);

/// `git2::Signature`, carried as it is.
#[verifier::external_type_specification]
#[verifier::external_body]
pub struct ExSignature<'a>(git2::Signature<'a>);

/// `git2::Repository::open_bare`: opens the bare repository at `path`.
/// Whether it succeeds depends on what is on disk.
#[verifier::external_body]
pub(crate) fn repo_open_bare(path: &str) -> (opened: Result<git2::Repository, git2::Error>) {
    git2::Repository::open_bare(path)
}

/// `git2::Repository::init_bare`: creates a bare repository at `path`.
#[verifier::external_body]
pub(crate) fn repo_init_bare(path: &str) -> (created: Result<git2::Repository, git2::Error>) {
    git2::Repository::init_bare(path)
}

/// `git2::Repository::remote`: records a remote under `name` with `url`.
/// The handle to the new remote is dropped.
#[verifier::external_body]
pub(crate) fn repo_remote(repo: &git2::Repository, name: &str, url: &str) -> (added: Result<
    (),
    git2::Error,
>) {
    repo.remote(name, url)?;
    Ok(())
}

/// `git2::Repository::set_workdir`: makes `path` the working directory.
#[verifier::external_body]
pub(crate) fn repo_set_workdir(repo: &git2::Repository, path: &str, update_gitlink: bool) -> (set:
    Result<(), git2::Error>) {
    repo.set_workdir(std::path::Path::new(path), update_gitlink)
}

/// `git2::Repository::config`: the repository's configuration.
#[verifier::external_body]
pub(crate) fn repo_config(repo: &git2::Repository) -> (config: Result<git2::Config, git2::Error>) {
    repo.config()
}

/// `git2::Config::set_str`: sets the string variable `name` to `value`.
#[verifier::external_body]
pub(crate) fn config_set_str(config: &mut git2::Config, name: &str, value: &str) -> (set: Result<
    (),
    git2::Error,
>) {
    config.set_str(name, value)
}

/// `git2::Repository::path`: where the repository lies, as text.
#[verifier::external_body]
pub(crate) fn repo_path(repo: &git2::Repository) -> (path: String) {
    repo.path().display().to_string()
}

/// `git2::Repository::index`: the repository's index, read into memory.
#[verifier::external_body]
pub(crate) fn repo_index(repo: &git2::Repository) -> (index: Result<git2::Index, git2::Error>) {
    repo.index()
}

/// `git2::Repository::is_path_ignored`: whether the ignore rules apply to
/// `path`. The answer depends on the rules on disk.
#[verifier::external_body]
pub(crate) fn repo_is_path_ignored(repo: &git2::Repository, path: &str) -> (ignored: Result<
    bool,
    git2::Error,
>) {
    repo.is_path_ignored(path)
}

/// `git2::Repository::signature`: the default author and committer.
#[verifier::external_body]
pub(crate) fn repo_signature(repo: &git2::Repository) -> (signature: Result<
    git2::Signature<'static>,
    git2::Error,
>) {
    repo.signature()
}

/// `git2::Repository::find_tree`: the tree object with the id `oid`.
#[verifier::external_body]
pub(crate) fn repo_find_tree<'a>(repo: &'a git2::Repository, oid: git2::Oid) -> (tree: Result<
    git2::Tree<'a>,
    git2::Error,
>) {
    repo.find_tree(oid)
}

/// `git2::Repository::head`: the reference that HEAD resolves to. It fails
/// on a branch without commits.
#[verifier::external_body]
pub(crate) fn repo_head<'a>(repo: &'a git2::Repository) -> (head: Result<
    git2::Reference<'a>,
    git2::Error,
>) {
    repo.head()
}

/// `git2::Reference::target`: the id that a direct reference points to.
#[verifier::external_body]
pub(crate) fn reference_target(reference: &git2::Reference<'_>) -> (target: Option<git2::Oid>) {
    reference.target()
}

/// `git2::Repository::find_commit`: the commit object with the id `oid`.
#[verifier::external_body]
pub(crate) fn repo_find_commit<'a>(repo: &'a git2::Repository, oid: git2::Oid) -> (commit: Result<
    git2::Commit<'a>,
    git2::Error,
>) {
    repo.find_commit(oid)
}

/// `git2::Repository::commit`: creates a commit of `tree` by `author` and
/// `committer` with the given parents and moves the reference
/// `update_ref` to it.
#[verifier::external_body]
pub(crate) fn repo_commit(
    repo: &git2::Repository,
    update_ref: &str,
    author: &git2::Signature<'_>,
    committer: &git2::Signature<'_>,
    message: &str,
    tree: &git2::Tree<'_>,
    parents: &Vec<git2::Commit<'_>>,
) -> (id: Result<git2::Oid, git2::Error>) {
    let parents: Vec<&git2::Commit<'_>> = parents.iter().collect();
    repo.commit(Some(update_ref), author, committer, message, tree, &parents)
}

/// `git2::Index::add_path`: adds or updates the entry of `path` from the
/// file on disk.
#[verifier::external_body]
pub(crate) fn index_add_path(index: &mut git2::Index, path: &str) -> (added: Result<
    (),
    git2::Error,
>) {
    index.add_path(std::path::Path::new(path))
}

/// `git2::Index::remove_path`: removes the entry of `path`.
#[verifier::external_body]
pub(crate) fn index_remove_path(index: &mut git2::Index, path: &str) -> (removed: Result<
    (),
    git2::Error,
>) {
    index.remove_path(std::path::Path::new(path))
}

/// `git2::Index::iter`: the path of every entry, as the bytes the index
/// holds, in the index's order.
#[verifier::external_body]
pub(crate) fn index_entry_paths(index: &git2::Index) -> (paths: Vec<Vec<u8>>) {
    index.iter().map(|entry| entry.path).collect()
}

/// `git2::Index::write`: writes the index from memory back to disk.
#[verifier::external_body]
pub(crate) fn index_write(index: &mut git2::Index) -> (written: Result<(), git2::Error>) {
    index.write()
}

/// `git2::Index::write_tree`: writes the index as a tree and gives the id
/// of its root.
#[verifier::external_body]
pub(crate) fn index_write_tree(index: &mut git2::Index) -> (id: Result<git2::Oid, git2::Error>) {
    index.write_tree()
}

/// `git2::Error::code`: the code of an error of the library.
#[verifier::external_body]
pub(crate) fn error_code(error: &git2::Error) -> (code: git2::ErrorCode) {
    error.code()
}

/// `git2::Error::message`: the message of an error of the library.
#[verifier::external_body]
pub(crate) fn error_message(error: &git2::Error) -> (message: String) {
    error.message().to_string()
}

/// The `Display` form of a `git2::Oid`: the id in hexadecimal.
#[verifier::external_body]
pub(crate) fn oid_hex(oid: &git2::Oid) -> (hex: String) {
    oid.to_string()
}

/// `chrono::Local::now` and `DateTime::timestamp_millis`: the
/// milliseconds since the epoch, as the clock has them at the call.
#[verifier::external_body]
pub(crate) fn now_millis() -> (millis: i64) {
    chrono::Local::now().timestamp_millis()
}

/// `walkdir::WalkDir::new` and its iterator: every entry at and beneath
/// `root`, each with its path and whether it is a regular file; nothing if
/// the traversal fails or a path is not UTF-8.
#[verifier::external_body]
pub(crate) fn walk_dir(root: &str) -> (found: Option<Vec<WalkedEntry>>) {
    let mut found = Vec::new();
    for entry in walkdir::WalkDir::new(root) {
        let entry = entry.ok()?;
        let path = entry.path().to_str()?.to_string();
        found.push(WalkedEntry { path, is_file: entry.file_type().is_file() });
    }
    Some(found)
}

/// `std::path::Path::canonicalize`: the absolute form of `path` with
/// links and dots resolved; nothing if the path does not exist or its
/// canonical form is not UTF-8.
#[verifier::external_body]
pub(crate) fn canonicalize(path: &str) -> (canonical: Option<String>) {
    let canonical = std::path::Path::new(path).canonicalize().ok()?;
    Some(canonical.to_str()?.to_string())
}

/// `std::path::Path::is_dir`: whether a directory is at `path` now.
#[verifier::external_body]
pub(crate) fn is_dir(path: &str) -> (dir: bool) {
    std::path::Path::new(path).is_dir()
}

/// `std::path::Path::exists`: whether anything is at `path` now.
#[verifier::external_body]
pub(crate) fn path_exists(path: &str) -> (exists: bool) {
    std::path::Path::new(path).exists()
}

/// `std::str::from_utf8`: the text that `bytes` encode in UTF-8, and
/// nothing exactly if they are not UTF-8.
#[verifier::external_body]
pub(crate) fn utf8_text(bytes: &Vec<u8>) -> (text: Option<String>)
    ensures
        text is Some <==> valid_utf8(bytes@),
        text is Some ==> text->0@ == decode_utf8(bytes@),
{
    std::str::from_utf8(bytes).ok().map(str::to_string)
}

} // verus!
