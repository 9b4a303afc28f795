use dottler::error::ErrorKind;
use dottler::paths::{
    components, convert_to_relative_path, has_vcs_component, is_absolute, path_prefixes,
    resolve_against,
};

#[test]
fn absolute_paths_start_at_the_root() {
    assert!(is_absolute("/home/u"));
    assert!(is_absolute("/"));
    assert!(!is_absolute("home/u"));
    assert!(!is_absolute(""));
    assert!(!is_absolute("./x"));
}

#[test]
fn relative_argument_is_resolved_against_the_working_directory() {
    assert_eq!(resolve_against("/home/u/work", ".bashrc"), "/home/u/work/.bashrc");
    assert_eq!(resolve_against("/home/u/work/", "a/b"), "/home/u/work/a/b");
}

#[test]
fn absolute_argument_stands_for_itself() {
    assert_eq!(resolve_against("/home/u/work", "/etc/hosts"), "/etc/hosts");
}

#[test]
fn empty_base_leaves_the_path_alone() {
    assert_eq!(resolve_against("", "a/b"), "a/b");
}

#[test]
fn prefixes_run_from_root_to_leaf() {
    assert_eq!(path_prefixes("a/b/c"), vec!["a", "a/b", "a/b/c"]);
    assert_eq!(path_prefixes(".bashrc"), vec![".bashrc"]);
    assert_eq!(path_prefixes(""), Vec::<String>::new());
}

#[test]
fn prefixes_are_built_from_components() {
    assert_eq!(path_prefixes("a//b/"), vec!["a", "a/b"]);
    assert_eq!(path_prefixes("a/./b"), vec!["a", "a/b"]);
    assert_eq!(path_prefixes("./a"), vec![".", "./a"]);
    assert_eq!(path_prefixes("héllo/wörld"), vec!["héllo", "héllo/wörld"]);
}

#[test]
fn prefixes_of_an_absolute_path_start_with_the_root() {
    assert_eq!(path_prefixes("/a/b"), vec!["/", "/a", "/a/b"]);
    assert_eq!(path_prefixes("//a"), vec!["/", "/a"]);
    assert_eq!(path_prefixes("/"), vec!["/"]);
}

#[test]
fn version_control_directory_is_recognized_as_a_component() {
    assert!(has_vcs_component("/home/u/project/.git/config"));
    assert!(has_vcs_component("/home/u/project/.git"));
    assert!(has_vcs_component(".git/HEAD"));
    assert!(has_vcs_component(".git"));
}

#[test]
fn names_that_only_contain_the_directory_name_are_not_components() {
    assert!(!has_vcs_component("/home/u/.gitignore"));
    assert!(!has_vcs_component("/home/u/.github/workflows/ci.yml"));
    assert!(!has_vcs_component("/home/u/repo.git/HEAD"));
    assert!(!has_vcs_component("/home/u/x.git"));
    assert!(!has_vcs_component("/home/u/.bashrc"));
    assert!(!has_vcs_component(""));
}

#[test]
fn path_beneath_home_becomes_relative() {
    assert_eq!(convert_to_relative_path("/home/u/.bashrc", "/home/u"), Ok(".bashrc".to_string()));
    assert_eq!(
        convert_to_relative_path("/home/u/.config/nvim/init.lua", "/home/u"),
        Ok(".config/nvim/init.lua".to_string())
    );
    assert_eq!(convert_to_relative_path("/home/u/.bashrc", "/home/u/"), Ok(".bashrc".to_string()));
    assert_eq!(convert_to_relative_path("/etc/hosts", "/"), Ok("etc/hosts".to_string()));
}

#[test]
fn path_outside_home_is_refused() {
    assert_eq!(convert_to_relative_path("/etc/passwd", "/home/u"), Err(ErrorKind::OutsideHome));
    assert_eq!(convert_to_relative_path("/home", "/home/u"), Err(ErrorKind::OutsideHome));
    assert_eq!(convert_to_relative_path("/", "/home/u"), Err(ErrorKind::OutsideHome));
    assert_eq!(convert_to_relative_path("", "/home/u"), Err(ErrorKind::OutsideHome));
}

#[test]
fn sibling_with_the_same_beginning_is_outside() {
    assert_eq!(
        convert_to_relative_path("/home/user2/.bashrc", "/home/u"),
        Err(ErrorKind::OutsideHome)
    );
    assert_eq!(convert_to_relative_path("/home/u2", "/home/u"), Err(ErrorKind::OutsideHome));
}

#[test]
fn home_itself_is_not_beneath_home() {
    assert_eq!(convert_to_relative_path("/home/u", "/home/u"), Err(ErrorKind::OutsideHome));
    assert_eq!(convert_to_relative_path("/home/u/", "/home/u"), Err(ErrorKind::OutsideHome));
    assert_eq!(convert_to_relative_path("/home/u/", "/home/u/"), Err(ErrorKind::OutsideHome));
}

#[test]
fn empty_home_manages_nothing() {
    assert_eq!(convert_to_relative_path("/home/u/.bashrc", ""), Err(ErrorKind::OutsideHome));
}

#[test]
fn components_leave_out_empty_and_dot_segments() {
    assert_eq!(components("/home//u/./x/"), vec!["home", "u", "x"]);
    assert_eq!(components("/home/u/.bashrc"), vec!["home", "u", ".bashrc"]);
    assert_eq!(components("a/b/."), vec!["a", "b"]);
    assert_eq!(components("/"), Vec::<String>::new());
    assert_eq!(components(""), Vec::<String>::new());
}

#[test]
fn leading_dot_of_a_relative_path_is_a_component() {
    assert_eq!(components("./a/./b"), vec![".", "a", "b"]);
    assert_eq!(components("."), vec!["."]);
    assert_eq!(components("/./a"), vec!["a"]);
}

#[test]
fn parent_segments_are_components() {
    assert_eq!(components("/home/u/../x"), vec!["home", "u", "..", "x"]);
    assert_eq!(components("..."), vec!["..."]);
}

#[test]
fn home_is_compared_component_by_component() {
    assert_eq!(convert_to_relative_path("/home/u/x", "/home//u"), Ok("x".to_string()));
    assert_eq!(convert_to_relative_path("/home/u/x", "/home/u/."), Ok("x".to_string()));
    assert_eq!(convert_to_relative_path("/home/u/x", "/home/u//"), Ok("x".to_string()));
    assert_eq!(convert_to_relative_path("/home/u/x", "//home/./u/"), Ok("x".to_string()));
}

#[test]
fn relative_path_is_written_with_single_separators() {
    assert_eq!(convert_to_relative_path("/home/u//a/./b/", "/home/u"), Ok("a/b".to_string()));
    assert_eq!(convert_to_relative_path("/home//u/.config/x", "/home/u"), Ok(".config/x".to_string()));
}

#[test]
fn relative_home_manages_relative_paths_only() {
    assert_eq!(convert_to_relative_path("a/b", "a"), Ok("b".to_string()));
    assert_eq!(convert_to_relative_path("a/b", ""), Ok("a/b".to_string()));
    assert_eq!(convert_to_relative_path("./a/b", "a"), Err(ErrorKind::OutsideHome));
    assert_eq!(convert_to_relative_path("/a/b", "a"), Err(ErrorKind::OutsideHome));
    assert_eq!(convert_to_relative_path("a/b", "/a"), Err(ErrorKind::OutsideHome));
}

#[test]
fn joining_the_result_to_home_gives_the_path_again() {
    let cases = [
        ("/home/u/.bashrc", "/home/u"),
        ("/home/u/a/b/c", "/home//u/"),
        ("/home/u/a//b", "/home/u/."),
        ("/x", "/"),
    ];
    for (path, home) in cases {
        let rel = convert_to_relative_path(path, home).unwrap();
        assert!(!is_absolute(&rel));
        assert_eq!(components(&resolve_against(home, &rel)), components(path));
    }
}
