use slice_lsp::configuration_set::{parse_include_built_in, parse_paths, path_is_under, CompilationData, ConfigurationSet};
use slice_lsp::notifications::{popup_notifications, MessageType, ShowNotification};
use slice_lsp::paths::{compute_slice_options, ServerConfig, SliceConfig};
use slice_lsp::server_state::ServerState;
use slice_lsp::settings::{JsonMember, JsonValue};
use slice_lsp::diagnostics::Diagnostic;
use slicec::diagnostics::DiagnosticLevel;

fn strings(v: &[&str]) -> Vec<String> {
    v.iter().map(|s| s.to_string()).collect()
}

fn server() -> ServerConfig {
    ServerConfig { workspace_root_path: "/ws".to_string(), built_in_slice_path: String::new() }
}

fn project(paths: &[&str], files: &[&str]) -> ConfigurationSet {
    let mut set = ConfigurationSet::new(SliceConfig {
        slice_search_paths: strings(paths),
        include_built_in_slice_files: false,
    });
    set.compilation_data = CompilationData { state: None, files: strings(files), diagnostics: vec![] };
    set
}

fn convert(v: &serde_json::Value) -> JsonValue {
    match v {
        serde_json::Value::Null => JsonValue::Null,
        serde_json::Value::Bool(b) => JsonValue::Bool(*b),
        serde_json::Value::Number(_) => JsonValue::Number,
        serde_json::Value::String(s) => JsonValue::Text(s.clone()),
        serde_json::Value::Array(a) => JsonValue::Array(a.iter().map(convert).collect()),
        serde_json::Value::Object(m) => JsonValue::Object(
            m.iter().map(|(k, v)| JsonMember { key: k.clone(), value: convert(v) }).collect(),
        ),
    }
}

fn json(text: &str) -> JsonValue {
    convert(&serde_json::from_str(text).unwrap())
}

#[test]
fn empty_configuration_list_parses_to_nothing() {
    assert!(ConfigurationSet::parse_configuration_sets(&vec![]).is_empty());
}

#[test]
fn empty_projects_install_default_project() {
    let mut state = ServerState::new(server());
    state.set_projects(vec![]);
    assert_eq!(state.slice_projects.len(), 1);
    let paths = compute_slice_options(&state.server_config, &state.slice_projects[0].slice_config);
    assert_eq!(paths, strings(&["/ws"]));
}

#[test]
fn default_project_includes_built_in_files() {
    let config = SliceConfig::default();
    assert!(config.slice_search_paths.is_empty());
    assert!(config.include_built_in_slice_files);
}

#[test]
fn project_fields_parse_with_defaults() {
    let arr = vec![
        json(r#"{"paths": ["a", 3, "/b"], "addWellKnownTypes": false}"#),
        json(r#"{}"#),
        json(r#"{"paths": "not-a-list", "addWellKnownTypes": "yes"}"#),
    ];
    let sets = ConfigurationSet::parse_configuration_sets(&arr);
    assert_eq!(sets.len(), 3);
    assert_eq!(sets[0].slice_config.slice_search_paths, strings(&["a", "/b"]));
    assert!(!sets[0].slice_config.include_built_in_slice_files);
    assert!(sets[1].slice_config.slice_search_paths.is_empty());
    assert!(sets[1].slice_config.include_built_in_slice_files);
    assert!(sets[2].slice_config.slice_search_paths.is_empty());
    assert!(sets[2].slice_config.include_built_in_slice_files);
    assert!(sets[0].compilation_data.state.is_none());
}

#[test]
fn parse_paths_keeps_strings_in_order() {
    assert_eq!(parse_paths(&json(r#"{"paths": ["a", 1, "/b", null, "c"]}"#)), strings(&["a", "/b", "c"]));
    assert!(parse_paths(&json(r#"{"other": ["a"]}"#)).is_empty());
    assert!(parse_paths(&json(r#"["a"]"#)).is_empty());
    assert!(!parse_include_built_in(&json(r#"{"addWellKnownTypes": false}"#)));
    assert!(parse_include_built_in(&json(r#"{"addWellKnownTypes": 0}"#)));
    assert!(parse_include_built_in(&json(r#"{}"#)));
}

#[test]
fn path_under_directory() {
    assert!(path_is_under(&"/a/b/c.slice".to_string(), &"/a/b".to_string()));
    assert!(path_is_under(&"/a/b".to_string(), &"/a/b".to_string()));
    assert!(path_is_under(&"/a/b/c.slice".to_string(), &"/a/b/".to_string()));
    assert!(!path_is_under(&"/a/bc.slice".to_string(), &"/a/b".to_string()));
    assert!(!path_is_under(&"/a".to_string(), &"/a/b".to_string()));
}

#[test]
fn overlapping_projects_both_hold_shared_file() {
    let mut state = ServerState::new(server());
    state.set_projects(vec![project(&["/shared", "one"], &[]), project(&["two", "/shared"], &[]), project(&["three"], &[])]);
    let shared = "/shared/common.slice".to_string();
    assert!(state.slice_projects[0].contains_file(&state.server_config, &shared));
    assert!(state.slice_projects[1].contains_file(&state.server_config, &shared));
    assert!(!state.slice_projects[2].contains_file(&state.server_config, &shared));
    assert_eq!(state.affected_projects(&shared), vec![0, 1]);
}

#[test]
fn compiled_file_is_held_and_found() {
    let mut state = ServerState::new(server());
    state.set_projects(vec![project(&["/x"], &["/other/f.slice"]), project(&["/y"], &[])]);
    let f = "/other/f.slice".to_string();
    assert!(state.slice_projects[0].contains_file(&state.server_config, &f));
    assert_eq!(state.projects_with_file(&f), vec![0]);
    assert_eq!(state.affected_projects(&f), vec![0]);
}

#[test]
fn tracked_files_are_distinct() {
    let mut state = ServerState::new(server());
    state.set_projects(vec![project(&[], &["/a", "/b"]), project(&[], &["/b", "/c"])]);
    assert_eq!(state.tracked_files(), strings(&["/a", "/b", "/c"]));
}

#[test]
fn initialize_without_built_in_path_has_none() {
    let mut state = ServerState::new(server());
    let options = json(r#"{"configurations": []}"#);
    state.update_from_initialize_params("/root".to_string(), Some(&options));
    assert_eq!(state.server_config.workspace_root_path, "/root");
    assert_eq!(state.server_config.built_in_slice_path, "");
    assert_eq!(state.slice_projects.len(), 1);
    assert_eq!(
        compute_slice_options(&state.server_config, &state.slice_projects[0].slice_config),
        strings(&["/root"])
    );
    let mut bare = ServerState::new(server());
    bare.update_from_initialize_params("/r".to_string(), None);
    assert_eq!(bare.slice_projects.len(), 1);
}

#[test]
fn initialize_installs_projects() {
    let mut state = ServerState::new(server());
    let options = json(r#"{"builtInSlicePath": "/bi", "configurations": [{"paths": ["p"]}, {"paths": ["q"]}]}"#);
    state.update_from_initialize_params("/root".to_string(), Some(&options));
    assert_eq!(state.server_config.workspace_root_path, "/root");
    assert_eq!(state.server_config.built_in_slice_path, "/bi");
    assert_eq!(state.slice_projects.len(), 2);
    assert_eq!(
        compute_slice_options(&state.server_config, &state.slice_projects[1].slice_config),
        strings(&["/root/q", "/bi"])
    );
}

#[test]
fn initialize_without_configurations_installs_default_project() {
    let mut state = ServerState::new(server());
    let options = json(r#"{"builtInSlicePath": "/bi"}"#);
    state.update_from_initialize_params("/root".to_string(), Some(&options));
    assert_eq!(state.slice_projects.len(), 1);
    assert!(state.slice_projects[0].slice_config.slice_search_paths.is_empty());
}

#[test]
fn compiling_a_missing_path_reports_and_keeps_output() {
    let mut set = project(&["/nonexistent-slice-workspace/refs"], &[]);
    let diagnostics = set.trigger_compilation(&server());
    assert!(!diagnostics.is_empty());
    assert_eq!(diagnostics.len(), set.compilation_data.diagnostics.len());
    assert!(set.compilation_data.state.is_some());
    assert!(set.compilation_data.files.is_empty());
}

#[test]
fn reconfiguration_clears_files_of_removed_project() {
    let mut state = ServerState::new(server());
    state.set_projects(vec![project(&["/nonexistent-slice-workspace/a"], &["/gone.slice"])]);
    let out = state.update_projects(vec![project(&["/nonexistent-slice-workspace/b"], &[])]);
    assert_eq!(out.files[0].file, "/gone.slice");
    assert!(out.files[0].diagnostics.is_empty());
    assert_eq!(state.slice_projects.len(), 1);
}

#[test]
fn recompiling_leaves_unaffected_projects() {
    let mut state = ServerState::new(server());
    state.set_projects(vec![project(&["/nonexistent-slice-workspace/a"], &[]), project(&["/elsewhere"], &["/keep.slice"])]);
    let _ = state.recompile_affecting(&"/nonexistent-slice-workspace/a/x.slice".to_string());
    assert!(state.slice_projects[0].compilation_data.state.is_some());
    assert!(state.slice_projects[1].compilation_data.state.is_none());
    assert_eq!(state.slice_projects[1].compilation_data.files, strings(&["/keep.slice"]));
}

#[test]
fn spanless_diagnostics_become_error_popups() {
    let d = Diagnostic {
        level: DiagnosticLevel::Error,
        span: None,
        code: "E".to_string(),
        message: "cannot read".to_string(),
        notes: vec![],
    };
    let popups = popup_notifications(&vec![d]);
    assert_eq!(popups.len(), 1);
    assert_eq!(popups[0].message, "cannot read");
    assert_eq!(popups[0].message_type, MessageType::Error);
    assert_eq!(ShowNotification::method(), "custom/showNotification");
}
