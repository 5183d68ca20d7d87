use slice_lsp::paths::{
    compute_slice_options, is_absolute_path, join_path, resolve_search_paths, sanitize_path, ServerConfig, SliceConfig,
};

fn strings(v: &[&str]) -> Vec<String> {
    v.iter().map(|s| s.to_string()).collect()
}

#[test]
fn empty_search_paths_resolve_to_workspace_root() {
    let r = resolve_search_paths(&vec![], &"/ws".to_string(), None);
    assert_eq!(r, strings(&["/ws"]));
}

#[test]
fn built_in_path_comes_last() {
    let builtin = "/builtin".to_string();
    let r = resolve_search_paths(&strings(&["refs"]), &"/ws".to_string(), Some(&builtin));
    assert_eq!(r, strings(&["/ws/refs", "/builtin"]));
}

#[test]
fn built_in_path_follows_workspace_root_when_no_search_paths() {
    let builtin = "/builtin".to_string();
    let r = resolve_search_paths(&vec![], &"/ws".to_string(), Some(&builtin));
    assert_eq!(r, strings(&["/ws", "/builtin"]));
}

#[test]
fn empty_built_in_path_is_not_added() {
    let empty = String::new();
    let r = resolve_search_paths(&strings(&["a"]), &"/ws".to_string(), Some(&empty));
    assert_eq!(r, strings(&["/ws/a"]));
}

#[test]
fn absolute_search_paths_are_kept() {
    let r = resolve_search_paths(&strings(&["/abs/x", "rel/y"]), &"/ws/".to_string(), None);
    assert_eq!(r, strings(&["/abs/x", "/ws/rel/y"]));
}

#[test]
fn join_and_absolute() {
    assert!(is_absolute_path(&"/a".to_string()));
    assert!(!is_absolute_path(&"a".to_string()));
    assert!(!is_absolute_path(&String::new()));
    assert_eq!(join_path(&"/ws".to_string(), &"x/y".to_string()), "/ws/x/y");
    assert_eq!(join_path(&"/ws/".to_string(), &"x".to_string()), "/ws/x");
    assert_eq!(join_path(&String::new(), &"x".to_string()), "x");
    assert_eq!(join_path(&"/ws".to_string(), &"/other".to_string()), "/other");
}

#[test]
fn sanitize_path_keeps_text() {
    assert_eq!(sanitize_path("/some/Path.slice"), "/some/Path.slice");
}

#[test]
fn compute_slice_options_follows_built_in_flag() {
    let server = ServerConfig { workspace_root_path: "/ws".to_string(), built_in_slice_path: "/bi".to_string() };
    let with = SliceConfig { slice_search_paths: strings(&["p"]), include_built_in_slice_files: true };
    let without = SliceConfig { slice_search_paths: strings(&["p"]), include_built_in_slice_files: false };
    assert_eq!(compute_slice_options(&server, &with), strings(&["/ws/p", "/bi"]));
    assert_eq!(compute_slice_options(&server, &without), strings(&["/ws/p"]));
}
