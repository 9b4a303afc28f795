use dottler::commit::{
    commit_message, decimal, decode_paths, parents_for, probe_paths, select_present, sync_plan,
    update_reference,
};
use dottler::error::{
    code_label, from_git, from_transport, print_git_error_code, transport_kind, ErrorKind,
};

fn strings(items: &[&str]) -> Vec<String> {
    items.iter().map(|s| s.to_string()).collect()
}

#[test]
fn decimal_numerals() {
    assert_eq!(decimal(0), "0");
    assert_eq!(decimal(7), "7");
    assert_eq!(decimal(10), "10");
    assert_eq!(decimal(1700000000123), "1700000000123");
    assert_eq!(decimal(i64::MAX), "9223372036854775807");
}

#[test]
fn negative_numerals_carry_a_sign() {
    assert_eq!(decimal(-1), "-1");
    assert_eq!(decimal(-120), "-120");
    assert_eq!(decimal(i64::MIN), "-9223372036854775808");
}

#[test]
fn message_is_timestamp_space_description() {
    assert_eq!(
        commit_message(1700000000123, "Add new files to Dottler"),
        "1700000000123 Add new files to Dottler"
    );
    assert_eq!(commit_message(0, ""), "0 ");
}

#[test]
fn equal_descriptions_give_different_messages_at_different_times() {
    assert_ne!(
        commit_message(1700000000123, "Update Dottler files"),
        commit_message(1700000000124, "Update Dottler files")
    );
}

#[test]
fn first_commit_has_no_parent() {
    assert_eq!(parents_for::<u32>(None), Vec::<u32>::new());
}

#[test]
fn later_commit_has_the_head_as_its_only_parent() {
    assert_eq!(parents_for(Some(41u32)), vec![41u32]);
}

#[test]
fn files_on_disk_are_staged_again() {
    let recorded = strings(&[".bashrc", ".vimrc", ".zshrc"]);
    assert_eq!(
        select_present(&recorded, &vec![true, false, true]),
        strings(&[".bashrc", ".zshrc"])
    );
}

#[test]
fn deleted_files_are_left_alone() {
    let recorded = strings(&[".bashrc"]);
    assert_eq!(select_present(&recorded, &vec![false]), Vec::<String>::new());
    assert_eq!(select_present(&recorded, &vec![]), Vec::<String>::new());
}

#[test]
fn every_code_has_its_label() {
    let table = [
        (git2::ErrorCode::GenericError, "GenericError"),
        (git2::ErrorCode::NotFound, "NotFound"),
        (git2::ErrorCode::Exists, "Exists"),
        (git2::ErrorCode::Ambiguous, "Ambiguous"),
        (git2::ErrorCode::BufSize, "BufSize"),
        (git2::ErrorCode::User, "User"),
        (git2::ErrorCode::BareRepo, "Barerepo"),
        (git2::ErrorCode::UnbornBranch, "UnbornBranch"),
        (git2::ErrorCode::Unmerged, "Unmerged"),
        (git2::ErrorCode::NotFastForward, "Nonfastforward"),
        (git2::ErrorCode::InvalidSpec, "InvalidSpec"),
        (git2::ErrorCode::Conflict, "Conflict"),
        (git2::ErrorCode::Locked, "Locked"),
        (git2::ErrorCode::Modified, "Modified"),
        (git2::ErrorCode::Auth, "Auth"),
        (git2::ErrorCode::Certificate, "Certificate"),
        (git2::ErrorCode::Applied, "Applied"),
        (git2::ErrorCode::Peel, "Peel"),
        (git2::ErrorCode::Eof, "EOF"),
        (git2::ErrorCode::Invalid, "Invalid"),
        (git2::ErrorCode::Uncommitted, "Uncommitted"),
        (git2::ErrorCode::Directory, "Directory"),
        (git2::ErrorCode::MergeConflict, "MergeConflict"),
        (git2::ErrorCode::HashsumMismatch, "HashsumMismatch"),
        (git2::ErrorCode::IndexDirty, "IndexDirty"),
        (git2::ErrorCode::ApplyFail, "ApplyFail"),
        (git2::ErrorCode::Owner, "Owner"),
        (git2::ErrorCode::Timeout, "Timeout"),
    ];
    for (code, label) in table {
        assert_eq!(code_label(code), label);
        assert_eq!(print_git_error_code(code), format!("Error: {}", label));
    }
}

#[test]
fn library_error_keeps_code_and_message() {
    let outside =
        git2::Error::new(git2::ErrorCode::NotFound, git2::ErrorClass::Index, "no such entry");
    let e = from_git(ErrorKind::IndexWrite, &outside);
    assert_eq!(e.kind, ErrorKind::IndexWrite);
    assert_eq!(e.code, Some(git2::ErrorCode::NotFound));
    assert_eq!(e.message, "no such entry");
}

#[test]
fn refused_credentials_are_an_authentication_failure() {
    assert_eq!(transport_kind(git2::ErrorCode::Auth), ErrorKind::Auth);
    assert_eq!(transport_kind(git2::ErrorCode::Certificate), ErrorKind::Auth);
}

#[test]
fn other_transport_failures_are_network_failures() {
    assert_eq!(transport_kind(git2::ErrorCode::GenericError), ErrorKind::Network);
    assert_eq!(transport_kind(git2::ErrorCode::Timeout), ErrorKind::Network);
    assert_eq!(transport_kind(git2::ErrorCode::Eof), ErrorKind::Network);
    assert_eq!(transport_kind(git2::ErrorCode::NotFound), ErrorKind::Network);
}

#[test]
fn transport_failure_is_filed_by_its_code() {
    let outside = git2::Error::new(git2::ErrorCode::Auth, git2::ErrorClass::Ssh, "no key");
    let e = from_transport(&outside);
    assert_eq!(e.kind, ErrorKind::Auth);
    assert_eq!(e.code, Some(git2::ErrorCode::Auth));
    assert_eq!(e.message, "no key");
    let outside = git2::Error::new(git2::ErrorCode::Timeout, git2::ErrorClass::Net, "timed out");
    let e = from_transport(&outside);
    assert_eq!(e.kind, ErrorKind::Network);
    assert_eq!(e.message, "timed out");
}

#[test]
fn entry_paths_are_decoded_in_order() {
    let raw = vec![b".bashrc".to_vec(), "caf\u{e9}/men\u{fc}".as_bytes().to_vec(), b"a/b".to_vec()];
    assert_eq!(decode_paths(&raw), strings(&[".bashrc", "caf\u{e9}/men\u{fc}", "a/b"]));
    assert_eq!(decode_paths(&Vec::new()), Vec::<String>::new());
}

#[test]
fn entry_paths_that_are_not_text_are_left_out() {
    let raw = vec![b"first".to_vec(), vec![0x66, 0xff, 0x6f], vec![0xc3], b"last".to_vec()];
    assert_eq!(decode_paths(&raw), strings(&["first", "last"]));
}

#[test]
fn commits_move_the_head() {
    assert_eq!(update_reference(), "HEAD");
}

#[test]
fn nothing_on_disk_means_nothing_to_do() {
    let recorded = strings(&[".bashrc", ".vimrc"]);
    assert_eq!(sync_plan(&recorded, &vec![false, false]), None);
    assert_eq!(sync_plan(&Vec::new(), &Vec::new()), None);
    assert_eq!(sync_plan(&recorded, &Vec::new()), None);
}

#[test]
fn files_on_disk_are_planned_for_staging() {
    let recorded = strings(&[".bashrc", ".vimrc", ".zshrc"]);
    assert_eq!(sync_plan(&recorded, &vec![false, true, true]), Some(strings(&[".vimrc", ".zshrc"])));
    assert_eq!(sync_plan(&recorded, &vec![true, false, false]), Some(strings(&[".bashrc"])));
}

#[test]
fn files_are_looked_for_beneath_home() {
    let recorded = strings(&[".bashrc", ".config/nvim/init.lua"]);
    assert_eq!(
        probe_paths("/home/u", &recorded),
        strings(&["/home/u/.bashrc", "/home/u/.config/nvim/init.lua"])
    );
    assert_eq!(probe_paths("/home/u/", &strings(&["x"])), strings(&["/home/u/x"]));
    assert_eq!(probe_paths("/home/u", &Vec::new()), Vec::<String>::new());
}
