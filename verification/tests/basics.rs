use ncpages::order::sort_strings;
use ncpages::paths::{file_name_of, join_path, path_within_exec};
use ncpages::state::State;
use ncpages::strmap::StrMap;

#[test]
fn state_starts_empty_and_lives_in_state_json() {
    let s = State::new();
    assert!(s.root_etag.is_none() && s.last_release.is_none());
    assert_eq!(s.file_etags.len(), 0);
    assert_eq!(State::file("/work/state"), "/work/state/state.json");
}

#[test]
fn a_later_value_replaces_an_earlier_one() {
    let mut m = StrMap::new();
    m.set("a", "1");
    m.set("b", "2");
    m.set("a", "3");
    assert_eq!(m.get("a"), Some("3".to_string()));
    assert_eq!(m.keys(), vec!["b".to_string(), "a".to_string()]);
    m.remove("b");
    assert_eq!(m.get("b"), None);
    assert_eq!(m.len(), 1);
}

#[test]
fn paths_join_and_contain_as_std_paths_do() {
    assert_eq!(join_path("/a/", "b"), "/a/b");
    assert_eq!(join_path("/a", "/b"), "/b");
    assert!(path_within_exec("/work/src/./x/../.ncpages", "/work/src"));
    assert!(!path_within_exec("/work/src-other", "/work/src"));
    assert_eq!(file_name_of("/a/b.md"), Some("b.md".to_string()));
    assert_eq!(file_name_of("/"), None);
}

#[test]
fn strings_sort_by_code_point() {
    let v = vec!["b".to_string(), "Ä".to_string(), "a".to_string(), "B".to_string()];
    assert_eq!(sort_strings(&v), vec!["B", "a", "b", "Ä"]);
}
