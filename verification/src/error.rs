//! Error values shared by every component.

use vstd::prelude::*;
use crate::vcs::{error_code, error_message};

verus! {

/// `git2::Error`, carried as it is.
#[verifier::external_type_specification]
#[verifier::external_body]
pub struct ExGitError(git2::Error);

/// `git2::ErrorCode` with its variants, as the library declares them.
#[verifier::external_type_specification]
pub struct ExGitErrorCode(git2::ErrorCode);

/// The category of a failure, one per stage of a command.
#[derive(Clone, Copy, Debug, PartialEq, Eq, Structural)]
pub enum ErrorKind {
    /// A path does not exist or cannot be canonicalized.
    InvalidPath,
    /// A path lies outside the managed home directory.
    OutsideHome,
    /// The index could not be read or changed while staging.
    IndexWrite,
    /// The tree or the commit object could not be created.
    Commit,
    /// The remote refused the credentials.
    Auth,
    /// The transport to the remote failed.
    Network,
    /// The repository could not be opened, created or configured.
    RepositoryState,
}

/// A failure with its category, the code the version-control library gave
/// (if it came from there) and the library's own message.
#[derive(Debug)]
pub struct DotError {
    pub kind: ErrorKind,
    pub code: Option<git2::ErrorCode>,
    pub message: String,
}

/// Whether `e` is a failure of the repository: it could not be opened or
/// configured, the index could not be changed, or the commit could not be
/// made; such a failure carries the library's code.
pub open spec fn spec_is_repository_failure(e: DotError) -> bool {
    (e.kind == ErrorKind::RepositoryState || e.kind == ErrorKind::IndexWrite || e.kind
        == ErrorKind::Commit) && e.code is Some
}

/// Whether `e` is a failure of a path argument: it does not exist or
/// reaches outside the home directory; such a failure carries no code.
pub open spec fn spec_is_path_failure(e: DotError) -> bool {
    (e.kind == ErrorKind::InvalidPath || e.kind == ErrorKind::OutsideHome) && e.code is None
}

/// The library's account of an error of the version-control library,
/// filed under `kind`.
pub fn from_git(kind: ErrorKind, error: &git2::Error) -> (e: DotError)
    ensures
        e.kind == kind,
        e.code is Some,
{
    DotError { kind, code: Some(error_code(error)), message: error_message(error) }
}

/// The category of a failure of the transport to the remote: a refusal of
/// the credentials or of the server's certificate is a matter of
/// authentication, everything else of the network.
pub open spec fn spec_transport_kind(code: git2::ErrorCode) -> ErrorKind {
    match code {
        git2::ErrorCode::Auth => ErrorKind::Auth,
        git2::ErrorCode::Certificate => ErrorKind::Auth,
        _ => ErrorKind::Network,
    }
}

/// The category of a failure of the transport with the code `code`.
pub fn transport_kind(code: git2::ErrorCode) -> (kind: ErrorKind)
    ensures
        kind == spec_transport_kind(code),
{
    match code {
        git2::ErrorCode::Auth => ErrorKind::Auth,
        git2::ErrorCode::Certificate => ErrorKind::Auth,
        _ => ErrorKind::Network,
    }
}

/// The library's account of a failure of the transport to the remote,
/// filed by its code.
pub fn from_transport(error: &git2::Error) -> (e: DotError)
    ensures
        e.code is Some,
        e.kind == spec_transport_kind(e.code->0),
{
    let code = error_code(error);
    DotError { kind: transport_kind(code), code: Some(code), message: error_message(error) }
}

/// The name under which a library error code is reported.
pub open spec fn spec_code_label(code: git2::ErrorCode) -> Seq<char> {
    match code {
        git2::ErrorCode::GenericError => "GenericError"@,
        git2::ErrorCode::NotFound => "NotFound"@,
        git2::ErrorCode::Exists => "Exists"@,
        git2::ErrorCode::Ambiguous => "Ambiguous"@,
        git2::ErrorCode::BufSize => "BufSize"@,
        git2::ErrorCode::User => "User"@,
        git2::ErrorCode::BareRepo => "Barerepo"@,
        git2::ErrorCode::UnbornBranch => "UnbornBranch"@,
        git2::ErrorCode::Unmerged => "Unmerged"@,
        git2::ErrorCode::NotFastForward => "Nonfastforward"@,
        git2::ErrorCode::InvalidSpec => "InvalidSpec"@,
        git2::ErrorCode::Conflict => "Conflict"@,
        git2::ErrorCode::Locked => "Locked"@,
        git2::ErrorCode::Modified => "Modified"@,
        git2::ErrorCode::Auth => "Auth"@,
        git2::ErrorCode::Certificate => "Certificate"@,
        git2::ErrorCode::Applied => "Applied"@,
        git2::ErrorCode::Peel => "Peel"@,
        git2::ErrorCode::Eof => "EOF"@,
        git2::ErrorCode::Invalid => "Invalid"@,
        git2::ErrorCode::Uncommitted => "Uncommitted"@,
        git2::ErrorCode::Directory => "Directory"@,
        git2::ErrorCode::MergeConflict => "MergeConflict"@,
        git2::ErrorCode::HashsumMismatch => "HashsumMismatch"@,
        git2::ErrorCode::IndexDirty => "IndexDirty"@,
        git2::ErrorCode::ApplyFail => "ApplyFail"@,
        git2::ErrorCode::Owner => "Owner"@,
        git2::ErrorCode::Timeout => "Timeout"@,
    }
}

/// The name under which `code` is reported.
pub fn code_label(code: git2::ErrorCode) -> (label: &'static str)
    ensures
        label@ == spec_code_label(code),
{
    match code {
        git2::ErrorCode::GenericError => "GenericError",
        git2::ErrorCode::NotFound => "NotFound",
        git2::ErrorCode::Exists => "Exists",
        git2::ErrorCode::Ambiguous => "Ambiguous",
        git2::ErrorCode::BufSize => "BufSize",
        git2::ErrorCode::User => "User",
        git2::ErrorCode::BareRepo => "Barerepo",
        git2::ErrorCode::UnbornBranch => "UnbornBranch",
        git2::ErrorCode::Unmerged => "Unmerged",
        git2::ErrorCode::NotFastForward => "Nonfastforward",
        git2::ErrorCode::InvalidSpec => "InvalidSpec",
        git2::ErrorCode::Conflict => "Conflict",
        git2::ErrorCode::Locked => "Locked",
        git2::ErrorCode::Modified => "Modified",
        git2::ErrorCode::Auth => "Auth",
        git2::ErrorCode::Certificate => "Certificate",
        git2::ErrorCode::Applied => "Applied",
        git2::ErrorCode::Peel => "Peel",
        git2::ErrorCode::Eof => "EOF",
        git2::ErrorCode::Invalid => "Invalid",
        git2::ErrorCode::Uncommitted => "Uncommitted",
        git2::ErrorCode::Directory => "Directory",
        git2::ErrorCode::MergeConflict => "MergeConflict",
        git2::ErrorCode::HashsumMismatch => "HashsumMismatch",
        git2::ErrorCode::IndexDirty => "IndexDirty",
        git2::ErrorCode::ApplyFail => "ApplyFail",
        git2::ErrorCode::Owner => "Owner",
        git2::ErrorCode::Timeout => "Timeout",
    }
}

/// The diagnostic line for `code`: the word `Error`, a colon, a space and
/// the code's label.
pub fn print_git_error_code(code: git2::ErrorCode) -> (line: String)
    ensures
        line@ == "Error: "@ + spec_code_label(code),
{
    String::from_str("Error: ").concat(code_label(code))
}

} // verus!
