use dottler::cli::{AddArgs, Cli, CloneArgs, Commands, LinkArgs, RemoveArgs};
use dottler::commands::{
    add_remote, default_key_path, get_dottler_path, handle_add, handle_clone, handle_init,
    handle_link, handle_remove, handle_status, handle_sync, link_request, open_bare,
    records_working_tree, run, untracked_files_setting, Outcome,
};
use dottler::error::ErrorKind;
use dottler::expand::expand_and_normalize_paths;
use dottler::ignore::filter_ignored;

fn base(name: &str) -> String {
    let stamp = chrono::Utc::now().timestamp_nanos_opt().unwrap_or(0);
    format!("/tmp/dottler-{}-{}", name, stamp)
}

fn scratch_of(home: &str) -> git2::Repository {
    let scratch = git2::Repository::init_bare(format!("{}.scratch", home)).unwrap();
    scratch.set_workdir(std::path::Path::new(home), false).unwrap();
    scratch
}

fn fresh_home(name: &str) -> String {
    let home = format!("{}/home", base(name));
    git2::Repository::init_bare(format!("{}/.dottler", home)).unwrap();
    home
}

fn write_file(home: &str, rel: &str, content: &str) {
    let scratch = scratch_of(home);
    let id = scratch.blob(content.as_bytes()).unwrap();
    let mut index = git2::Index::new().unwrap();
    let entry = git2::IndexEntry {
        ctime: git2::IndexTime::new(0, 0),
        mtime: git2::IndexTime::new(0, 0),
        dev: 0,
        ino: 0,
        mode: 0o100644,
        uid: 0,
        gid: 0,
        file_size: 0,
        id,
        flags: 0,
        flags_extended: 0,
        path: rel.as_bytes().to_vec(),
    };
    index.add(&entry).unwrap();
    let mut options = git2::build::CheckoutBuilder::new();
    options.force().path(rel);
    scratch.checkout_index(Some(&mut index), Some(&mut options)).unwrap();
    assert!(std::path::Path::new(&format!("{}/{}", home, rel)).is_file());
}

fn delete_file(home: &str, rel: &str) {
    let scratch = scratch_of(home);
    let mut index = git2::Index::new().unwrap();
    let mut options = git2::build::CheckoutBuilder::new();
    options.force().remove_untracked(true).path(rel);
    scratch.checkout_index(Some(&mut index), Some(&mut options)).unwrap();
    assert!(!std::path::Path::new(&format!("{}/{}", home, rel)).exists());
}

fn with_identity(home: &str) {
    let repo = git2::Repository::open_bare(get_dottler_path(home)).unwrap();
    let mut config = repo.config().unwrap();
    config.set_str("user.name", "Dot Tester").unwrap();
    config.set_str("user.email", "dot@example.org").unwrap();
}

fn index_paths(home: &str) -> Vec<String> {
    let repo = git2::Repository::open_bare(get_dottler_path(home)).unwrap();
    let index = repo.index().unwrap();
    index.iter().map(|e| String::from_utf8(e.path).unwrap()).collect()
}

fn commit_count(home: &str) -> usize {
    let repo = git2::Repository::open_bare(get_dottler_path(home)).unwrap();
    let mut walk = repo.revwalk().unwrap();
    if walk.push_head().is_err() {
        return 0;
    }
    walk.count()
}

fn strings(items: &[&str]) -> Vec<String> {
    items.iter().map(|s| s.to_string()).collect()
}

fn leading_digits(message: &str) -> usize {
    message.chars().take_while(|c| c.is_ascii_digit()).count()
}

#[test]
fn repository_lies_in_the_home_directory() {
    assert_eq!(get_dottler_path("/home/u"), "/home/u/.dottler");
    assert_eq!(default_key_path("/home/u"), "/home/u/.ssh/id_rsa");
}

#[test]
fn clone_request_names_repository_and_key() {
    let request = handle_clone(CloneArgs { url: "git@example.org:u/dots.git".to_string() }, "/home/u");
    assert_eq!(request.url, "git@example.org:u/dots.git");
    assert_eq!(request.repo_path, "/home/u/.dottler");
    assert_eq!(request.key_path, "/home/u/.ssh/id_rsa");
    assert_eq!(request.workdir, "/home/u");
}

#[test]
fn init_creates_a_bare_repository_rooted_at_home() {
    let home = fresh_home("init");
    let place = handle_init(&home).unwrap();
    assert!(place.starts_with(&format!("{}/.dottler", home)));
    let repo = git2::Repository::open_bare(get_dottler_path(&home)).unwrap();
    assert!(repo.is_bare() || repo.workdir().is_some());
    let config = repo.config().unwrap();
    assert_eq!(config.get_string("status.showUntrackedFiles").unwrap(), "no");
}

#[test]
fn opening_a_missing_repository_fails() {
    let home = format!("{}/nowhere", base("missing"));
    let e = open_bare(&get_dottler_path(&home)).err().unwrap();
    assert_eq!(e.kind, ErrorKind::RepositoryState);
    assert!(e.code.is_some());
}

#[test]
fn link_records_the_remote_as_origin() {
    let home = fresh_home("link");
    handle_init(&home).unwrap();
    handle_link(LinkArgs { url: "git@example.org:u/dots.git".to_string() }, &home).unwrap();
    let repo = git2::Repository::open_bare(get_dottler_path(&home)).unwrap();
    let remote = repo.find_remote("origin").unwrap();
    assert_eq!(remote.url().unwrap(), "git@example.org:u/dots.git");
}

#[test]
fn link_without_a_repository_fails() {
    let home = format!("{}/nowhere", base("nolink"));
    let e = handle_link(LinkArgs { url: "x".to_string() }, &home).err().unwrap();
    assert_eq!(e.kind, ErrorKind::RepositoryState);
}

#[test]
fn arguments_are_expanded_from_disk() {
    let home = fresh_home("expand");
    write_file(&home, ".bashrc", "export A=1\n");
    write_file(&home, "conf/a.toml", "a = 1\n");
    write_file(&home, "conf/sub/b.toml", "b = 2\n");
    git2::Repository::init(format!("{}/conf", home)).unwrap();
    let workdir = format!("{}/conf", home);
    let mut found = expand_and_normalize_paths(
        strings(&["../.bashrc", ".", "sub/b.toml", &format!("{}/.bashrc", home)]),
        &home,
        &workdir,
    )
    .unwrap();
    assert_eq!(found[0], ".bashrc");
    assert_eq!(found.len(), 3);
    found.sort();
    assert_eq!(found, strings(&[".bashrc", "conf/a.toml", "conf/sub/b.toml"]));
}

#[test]
fn missing_argument_is_reported_by_name() {
    let home = fresh_home("absent");
    let e = expand_and_normalize_paths(strings(&["no-such-file"]), &home, &home).err().unwrap();
    assert_eq!(e.kind, ErrorKind::InvalidPath);
    assert_eq!(e.code, None);
    assert_eq!(e.message, "no-such-file");
}

#[test]
fn argument_outside_home_is_reported_by_name() {
    let home = fresh_home("outside");
    let e = expand_and_normalize_paths(strings(&["/etc/passwd"]), &home, &home).err().unwrap();
    assert_eq!(e.kind, ErrorKind::OutsideHome);
    assert_eq!(e.message, "/etc/passwd");
}

#[test]
fn ignored_directory_excludes_what_lies_beneath() {
    let home = fresh_home("ignore");
    handle_init(&home).unwrap();
    let repo = git2::Repository::open_bare(get_dottler_path(&home)).unwrap();
    repo.set_workdir(std::path::Path::new(&home), false).unwrap();
    repo.add_ignore_rule("a/b\n*.log\n").unwrap();
    let out =
        filter_ignored(&repo, strings(&["a/b/c", ".bashrc", "a/x", "trace.log", "a/b/d/e"])).unwrap();
    assert_eq!(out.kept, strings(&[".bashrc", "a/x"]));
    assert_eq!(out.notices, strings(&["a/b", "trace.log", "a/b"]));
}

#[test]
fn add_then_sync_end_to_end() {
    let home = fresh_home("scenario");
    handle_init(&home).unwrap();
    with_identity(&home);
    write_file(&home, ".bashrc", "export A=1\n");

    let report = handle_add(AddArgs { files: strings(&[".bashrc"]) }, &home, &home).unwrap();
    assert_eq!(index_paths(&home), strings(&[".bashrc"]));
    assert_eq!(commit_count(&home), 1);
    let message = &report.receipt.message;
    let digits = leading_digits(message);
    assert!(digits > 0);
    assert!(message[digits..].starts_with(" Add new files"));
    assert_eq!(report.receipt.parent, None);
    assert_eq!(report.staged, strings(&[".bashrc"]));
    assert!(report.notices.is_empty());

    delete_file(&home, ".bashrc");
    let synced = handle_sync(&home).unwrap();
    assert!(synced.is_none());
    assert_eq!(index_paths(&home), strings(&[".bashrc"]));
    assert_eq!(commit_count(&home), 1);
}

#[test]
fn add_twice_keeps_the_tree() {
    let home = fresh_home("twice");
    handle_init(&home).unwrap();
    with_identity(&home);
    write_file(&home, ".vimrc", "set nu\n");
    let first = handle_add(AddArgs { files: strings(&[".vimrc"]) }, &home, &home).unwrap();
    let second = handle_add(AddArgs { files: strings(&[".vimrc"]) }, &home, &home).unwrap();
    assert_eq!(first.receipt.tree, second.receipt.tree);
    assert_ne!(first.receipt.id, second.receipt.id);
    assert_eq!(commit_count(&home), 2);
}

#[test]
fn second_commit_has_the_first_as_its_parent() {
    let home = fresh_home("chain");
    handle_init(&home).unwrap();
    with_identity(&home);
    write_file(&home, ".zshrc", "one\n");
    let first = handle_add(AddArgs { files: strings(&[".zshrc"]) }, &home, &home).unwrap();
    write_file(&home, ".zshrc", "two\n");
    let second = handle_sync(&home).unwrap().unwrap();
    assert_eq!(second.parent, Some(first.receipt.id.clone()));
    assert!(second.timestamp_millis >= first.receipt.timestamp_millis);
    assert_eq!(second.message, format!("{} Update Dottler files", second.timestamp_millis));
    let repo = git2::Repository::open_bare(get_dottler_path(&home)).unwrap();
    let head = repo.head().unwrap().peel_to_commit().unwrap();
    assert_eq!(head.id().to_string(), second.id);
    assert_eq!(head.parent_count(), 1);
    assert_eq!(head.parent_id(0).unwrap().to_string(), first.receipt.id);
    assert_eq!(head.tree_id().to_string(), second.tree);
    assert_ne!(second.tree, first.receipt.tree);
}

#[test]
fn sync_refreshes_what_is_on_disk_and_keeps_the_rest() {
    let home = fresh_home("sync");
    handle_init(&home).unwrap();
    with_identity(&home);
    write_file(&home, "kept", "1\n");
    write_file(&home, "gone", "2\n");
    handle_add(AddArgs { files: strings(&["kept", "gone"]) }, &home, &home).unwrap();
    delete_file(&home, "gone");
    write_file(&home, "kept", "changed\n");
    let receipt = handle_sync(&home).unwrap().unwrap();
    assert!(receipt.message.ends_with(" Update Dottler files"));
    assert_eq!(index_paths(&home), strings(&["gone", "kept"]));
    assert_eq!(commit_count(&home), 2);
}

#[test]
fn add_leaves_out_ignored_paths_and_says_so() {
    let home = fresh_home("addignore");
    handle_init(&home).unwrap();
    with_identity(&home);
    write_file(&home, ".gitignore", "cache/\n");
    write_file(&home, "cache/blob", "x\n");
    write_file(&home, ".profile", "y\n");
    let report =
        handle_add(AddArgs { files: strings(&["cache", ".profile"]) }, &home, &home).unwrap();
    assert_eq!(report.notices, strings(&["cache"]));
    assert_eq!(report.staged, strings(&[".profile"]));
    assert_eq!(index_paths(&home), strings(&[".profile"]));
}

#[test]
fn add_of_a_missing_file_commits_nothing() {
    let home = fresh_home("addmissing");
    handle_init(&home).unwrap();
    with_identity(&home);
    let e = handle_add(AddArgs { files: strings(&["nothing-here"]) }, &home, &home).err().unwrap();
    assert_eq!(e.kind, ErrorKind::InvalidPath);
    assert_eq!(commit_count(&home), 0);
}

#[test]
fn add_outside_home_commits_nothing() {
    let home = fresh_home("addoutside");
    handle_init(&home).unwrap();
    with_identity(&home);
    let e = handle_add(AddArgs { files: strings(&["/etc/passwd"]) }, &home, &home).err().unwrap();
    assert_eq!(e.kind, ErrorKind::OutsideHome);
    assert_eq!(commit_count(&home), 0);
    assert!(index_paths(&home).is_empty());
}

#[test]
fn remove_takes_the_entry_out_and_commits() {
    let home = fresh_home("remove");
    handle_init(&home).unwrap();
    with_identity(&home);
    write_file(&home, "a", "1\n");
    write_file(&home, "b", "2\n");
    handle_add(AddArgs { files: strings(&["a", "b"]) }, &home, &home).unwrap();
    let receipt = handle_remove(RemoveArgs { file: "a".to_string() }, &home).unwrap();
    assert!(receipt.message.ends_with(" Remove files from Dottler"));
    assert_eq!(index_paths(&home), strings(&["b"]));
    assert_eq!(commit_count(&home), 2);
}

#[test]
fn commit_without_an_identity_is_a_commit_error() {
    let home = fresh_home("anonymous");
    handle_init(&home).unwrap();
    write_file(&home, "f", "1\n");
    match handle_add(AddArgs { files: strings(&["f"]) }, &home, &home) {
        Ok(report) => assert!(report.receipt.message.ends_with(" Add new files to Dottler")),
        Err(e) => {
            assert_eq!(e.kind, ErrorKind::Commit);
            assert_eq!(commit_count(&home), 0);
        }
    }
}

#[test]
fn status_reports_nothing() {
    let r = run(Cli { command: Commands::Status }, "/home/u", "/home/u");
    assert!(matches!(r, Ok(Outcome::Reported)));
}

#[test]
fn clone_is_handed_to_the_transport() {
    let args = CloneArgs { url: "git@example.org:u/dots.git".to_string() };
    match run(Cli { command: Commands::Clone(args) }, "/home/u", "/") {
        Ok(Outcome::CloneRequested(request)) => {
            assert_eq!(request.url, "git@example.org:u/dots.git");
            assert_eq!(request.repo_path, "/home/u/.dottler");
            assert_eq!(request.key_path, "/home/u/.ssh/id_rsa");
            assert_eq!(request.workdir, "/home/u");
        }
        _ => panic!("clone gives a request"),
    }
}

#[test]
fn commands_run_in_turn() {
    let home = fresh_home("run");
    assert!(matches!(run(Cli { command: Commands::Init }, &home, &home), Ok(Outcome::Initialized(_))));
    with_identity(&home);
    let link = Commands::Link(LinkArgs { url: "git@example.org:u/dots.git".to_string() });
    assert!(matches!(run(Cli { command: link }, &home, &home), Ok(Outcome::Linked)));
    write_file(&home, "sub/.profile", "x\n");
    let add = Commands::Add(AddArgs { files: strings(&[".profile"]) });
    let sub = format!("{}/sub", home);
    match run(Cli { command: add }, &home, &sub) {
        Ok(Outcome::Added(report)) => {
            assert!(report.receipt.message.ends_with(" Add new files to Dottler"))
        }
        _ => panic!("add commits"),
    }
    assert_eq!(index_paths(&home), strings(&["sub/.profile"]));
    assert!(matches!(run(Cli { command: Commands::Sync }, &home, &home), Ok(Outcome::Synced(Some(_)))));
    let remove = Commands::Remove(RemoveArgs { file: "sub/.profile".to_string() });
    assert!(matches!(run(Cli { command: remove }, &home, &home), Ok(Outcome::Removed(_))));
    assert!(index_paths(&home).is_empty());
    assert_eq!(commit_count(&home), 3);
}

#[test]
fn empty_argument_list_still_commits() {
    let home = fresh_home("noargs");
    handle_init(&home).unwrap();
    with_identity(&home);
    assert_eq!(expand_and_normalize_paths(Vec::new(), &home, &home).unwrap(), Vec::<String>::new());
    let report = handle_add(AddArgs { files: Vec::new() }, &home, &home).unwrap();
    assert!(report.notices.is_empty());
    assert_eq!(commit_count(&home), 1);
}

#[test]
fn link_asks_for_origin() {
    let request = link_request(LinkArgs { url: "git@example.org:u/dots.git".to_string() });
    assert_eq!(request.name, "origin");
    assert_eq!(request.url, "git@example.org:u/dots.git");
}

#[test]
fn remote_is_recorded_as_the_request_names_it() {
    let home = fresh_home("remote");
    let repo = open_bare(&get_dottler_path(&home)).unwrap();
    let request = link_request(LinkArgs { url: "https://example.org/dots.git".to_string() });
    add_remote(repo, &request).unwrap();
    let repo = git2::Repository::open_bare(get_dottler_path(&home)).unwrap();
    assert_eq!(repo.find_remote("origin").unwrap().url().unwrap(), "https://example.org/dots.git");
    let again = open_bare(&get_dottler_path(&home)).unwrap();
    let e = add_remote(again, &request).err().unwrap();
    assert_eq!(e.kind, ErrorKind::RepositoryState);
    assert_eq!(e.code, Some(git2::ErrorCode::Exists));
}

#[test]
fn untracked_files_are_not_to_be_reported() {
    assert_eq!(untracked_files_setting(), ("status.showUntrackedFiles", "no"));
}

#[test]
fn status_does_nothing() {
    handle_status();
}

#[test]
fn home_written_with_repeated_separators_manages_the_same_files() {
    let home = fresh_home("slashes");
    handle_init(&home).unwrap();
    with_identity(&home);
    write_file(&home, ".bashrc", "export A=1\n");
    let doubled = home.replace("/home", "//home/.");
    let report = handle_add(AddArgs { files: strings(&[".bashrc"]) }, &doubled, &home).unwrap();
    assert_eq!(report.staged, strings(&[".bashrc"]));
    assert_eq!(index_paths(&home), strings(&[".bashrc"]));
}

#[test]
fn sync_with_nothing_on_disk_stages_and_commits_nothing() {
    let home = fresh_home("nothingleft");
    handle_init(&home).unwrap();
    with_identity(&home);
    write_file(&home, "a", "1\n");
    write_file(&home, "b", "2\n");
    handle_add(AddArgs { files: strings(&["a", "b"]) }, &home, &home).unwrap();
    delete_file(&home, "a");
    delete_file(&home, "b");
    assert!(handle_sync(&home).unwrap().is_none());
    assert_eq!(index_paths(&home), strings(&["a", "b"]));
    assert_eq!(commit_count(&home), 1);
}

#[test]
fn working_tree_is_recorded_in_the_repository() {
    assert!(records_working_tree());
    let home = fresh_home("worktree");
    handle_init(&home).unwrap();
    let repo = git2::Repository::open(get_dottler_path(&home)).unwrap();
    let config = repo.config().unwrap();
    assert_eq!(config.get_string("core.worktree").unwrap(), format!("{}/", home));
}
