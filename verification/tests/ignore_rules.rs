use dottler::ignore::{next_step, split_by_verdict, Step};
use dottler::paths::path_prefixes;

fn strings(items: &[&str]) -> Vec<String> {
    items.iter().map(|s| s.to_string()).collect()
}

fn asked(step: Step) -> Option<String> {
    match step {
        Step::Ask(prefix) => Some(prefix),
        _ => None,
    }
}

fn ignored(step: Step) -> Option<String> {
    match step {
        Step::Ignored(prefix) => Some(prefix),
        _ => None,
    }
}

#[test]
fn ignored_directory_stops_the_questions() {
    let prefixes = path_prefixes("a/b/c");
    assert_eq!(asked(next_step(&prefixes, &vec![])), Some("a".to_string()));
    assert_eq!(asked(next_step(&prefixes, &vec![false])), Some("a/b".to_string()));
    assert_eq!(ignored(next_step(&prefixes, &vec![false, true])), Some("a/b".to_string()));
}

#[test]
fn later_answers_do_not_move_the_verdict() {
    let prefixes = path_prefixes("a/b/c");
    assert_eq!(ignored(next_step(&prefixes, &vec![false, true, false])), Some("a/b".to_string()));
    assert_eq!(ignored(next_step(&prefixes, &vec![true, true, true])), Some("a".to_string()));
}

#[test]
fn path_with_no_ignored_prefix_is_clear() {
    let prefixes = path_prefixes("a/b/c");
    assert_eq!(asked(next_step(&prefixes, &vec![false, false])), Some("a/b/c".to_string()));
    assert!(matches!(next_step(&prefixes, &vec![false, false, false]), Step::Clear));
}

#[test]
fn ignored_leaf_drops_the_path() {
    let prefixes = path_prefixes("a/b/c");
    assert_eq!(ignored(next_step(&prefixes, &vec![false, false, true])), Some("a/b/c".to_string()));
}

#[test]
fn empty_path_has_nothing_to_ask() {
    assert!(matches!(next_step(&Vec::new(), &vec![]), Step::Clear));
    assert!(matches!(next_step(&Vec::new(), &vec![true]), Step::Clear));
}

#[test]
fn verdicts_split_the_paths() {
    let paths = strings(&["a/b/c", ".bashrc", "secret/key", ".vimrc"]);
    let verdicts = vec![Some("a/b".to_string()), None, Some("secret".to_string()), None];
    let out = split_by_verdict(&paths, &verdicts);
    assert_eq!(out.kept, strings(&[".bashrc", ".vimrc"]));
    assert_eq!(out.notices, strings(&["a/b", "secret"]));
}

#[test]
fn path_without_a_verdict_is_kept() {
    let paths = strings(&["x", "y"]);
    let out = split_by_verdict(&paths, &vec![Some("x".to_string())]);
    assert_eq!(out.kept, strings(&["y"]));
    assert_eq!(out.notices, strings(&["x"]));
}
