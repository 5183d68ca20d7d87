//! A configuration set: one project, with its search paths and the output of its
//! most recent compilation.
use vstd::prelude::*;
use slicec::compilation_state::CompilationState;
use crate::compiler::{annotated_diagnostics, compile_references, compiled_file_paths, convert_diagnostics};
use crate::diagnostics::{Diagnostic, diagnostic_views, duplicate_all, path_views};
use crate::paths::{ServerConfig, SliceConfig, compute_slice_options, project_paths, sanitize_path, string_views};
use crate::settings::{JsonValue, built_in_flag_of, json_array_member, json_member, project_paths_of, text_entries};

verus! {

/// The output of a project's most recent compilation.
pub struct CompilationData {
    /// The compiler's state (definitions and files); `None` before the first compilation.
    pub state: Option<CompilationState>,
    /// The paths of the compiled files.
    pub files: Vec<String>,
    /// The diagnostics that the compilation reported.
    pub diagnostics: Vec<Diagnostic>,
}

/// One project: its configuration and the output of its most recent compilation.
pub struct ConfigurationSet {
    pub slice_config: SliceConfig,
    pub compilation_data: CompilationData,
    /// How many times the project was compiled.
    pub compile_count: Ghost<nat>,
}

/// The configuration of a project is the one that its JSON object describes.
pub open spec fn config_matches(c: &SliceConfig, v: JsonValue) -> bool {
    string_views(c.slice_search_paths@) == project_paths_of(v) && c.include_built_in_slice_files == built_in_flag_of(v)
}

/// Nothing has been compiled yet.
pub open spec fn is_uncompiled(c: &CompilationData) -> bool {
    c.state is None && c.files@.len() == 0 && c.diagnostics@.len() == 0
}

/// `path` is `dir` or lies below it.
pub open spec fn is_under(path: Seq<char>, dir: Seq<char>) -> bool {
    path == dir || (dir.len() < path.len() && path.subrange(0, dir.len() as int) == dir && ((dir.len() > 0
        && dir.last() == '/') || path[dir.len() as int] == '/'))
}

/// A project holds `path` when it compiled that file, or when the file lies under one
/// of its search paths (a file that was not compiled yet).
pub open spec fn project_holds(set: &ConfigurationSet, server_config: &ServerConfig, path: Seq<char>) -> bool {
    path_views(set.compilation_data.files@).contains(path) || exists|k: int|
        0 <= k < project_paths(server_config, &set.slice_config).len() && is_under(
            path,
            #[trigger] project_paths(server_config, &set.slice_config)[k],
        )
}

/// The default configuration of a project: no search paths of its own (so the
/// workspace root), with the built-in files.
pub open spec fn is_default_config(c: &SliceConfig) -> bool {
    c.slice_search_paths@.len() == 0 && c.include_built_in_slice_files
}

impl Default for SliceConfig {
    fn default() -> (r: SliceConfig)
        ensures
            is_default_config(&r),
    {
        SliceConfig { slice_search_paths: Vec::new(), include_built_in_slice_files: true }
    }
}

/// Whether `path` is `dir` or lies below it.
pub fn path_is_under(path: &String, dir: &String) -> (r: bool)
    ensures
        r == is_under(path@, dir@),
{
    let p = path.as_str();
    let d = dir.as_str();
    let plen = p.unicode_len();
    let dlen = d.unicode_len();
    if plen < dlen {
        return false;
    }
    let mut i: usize = 0;
    while i < dlen
        invariant
            i <= dlen,
            dlen == d@.len(),
            plen == p@.len(),
            dlen <= plen,
            p@ == path@,
            d@ == dir@,
            forall|k: int| 0 <= k < i ==> p@[k] == d@[k],
        decreases dlen - i,
    {
        if p.get_char(i) != d.get_char(i) {
            assert(path@.subrange(0, dlen as int)[i as int] != dir@[i as int]);
            assert(path@ != dir@ && path@.subrange(0, dlen as int) != dir@);
            return false;
        }
        i = i + 1;
    }
    assert(path@.subrange(0, dlen as int) =~= dir@);
    if plen == dlen {
        assert(path@ =~= dir@);
        return true;
    }
    (dlen > 0 && d.get_char(dlen - 1) == '/') || p.get_char(dlen) == '/'
}

impl ConfigurationSet {
    /// A project with the given configuration, not compiled yet.
    pub fn new(slice_config: SliceConfig) -> (r: ConfigurationSet)
        ensures
            r.slice_config == slice_config,
            is_uncompiled(&r.compilation_data),
            r.compile_count@ == 0,
    {
        ConfigurationSet {
            slice_config,
            compilation_data: CompilationData { state: None, files: Vec::new(), diagnostics: Vec::new() },
            compile_count: Ghost(0),
        }
    }

    /// Parses one project for each element of a JSON array.
    pub fn parse_configuration_sets(config_array: &Vec<JsonValue>) -> (r: Vec<ConfigurationSet>)
        ensures
            r@.len() == config_array@.len(),
            forall|i: int| 0 <= i < r@.len() ==> {
                &&& config_matches(&(#[trigger] r@[i]).slice_config, config_array@[i])
                &&& is_uncompiled(&r@[i].compilation_data)
                &&& r@[i].compile_count@ == 0
            },
    {
        let mut result: Vec<ConfigurationSet> = Vec::new();
        let mut i: usize = 0;
        while i < config_array.len()
            invariant
                i <= config_array@.len(),
                result@.len() == i,
                forall|k: int| 0 <= k < i ==> {
                    &&& config_matches(&(#[trigger] result@[k]).slice_config, config_array@[k])
                    &&& is_uncompiled(&result@[k].compilation_data)
                    &&& result@[k].compile_count@ == 0
                },
            decreases config_array@.len() - i,
        {
            result.push(ConfigurationSet::from_json(&config_array[i]));
            i = i + 1;
        }
        result
    }

    /// A project from a JSON object: its `paths` (the strings among them) and its
    /// `addWellKnownTypes` flag, each with its default when missing.
    pub fn from_json(value: &JsonValue) -> (r: ConfigurationSet)
        ensures
            config_matches(&r.slice_config, *value),
            is_uncompiled(&r.compilation_data),
            r.compile_count@ == 0,
    {
        let slice_config = SliceConfig {
            slice_search_paths: parse_paths(value),
            include_built_in_slice_files: parse_include_built_in(value),
        };
        ConfigurationSet::new(slice_config)
    }

    /// Whether this project holds `path`, as `project_holds` states.
    pub fn contains_file(&self, server_config: &ServerConfig, path: &String) -> (r: bool)
        ensures
            r == project_holds(self, server_config, path@),
    {
        let files = &self.compilation_data.files;
        let mut i: usize = 0;
        while i < files.len()
            invariant
                i <= files@.len(),
                files@ == self.compilation_data.files@,
                forall|k: int| 0 <= k < i ==> (#[trigger] files@[k])@ != path@,
            decreases files@.len() - i,
        {
            if files[i] == *path {
                assert(path_views(files@)[i as int] == path@);
                assert(path_views(files@).contains(path@));
                return true;
            }
            i = i + 1;
        }
        assert(!path_views(files@).contains(path@)) by {
            if path_views(files@).contains(path@) {
                let k = choose|k: int| 0 <= k < path_views(files@).len() && path_views(files@)[k] == path@;
                assert(files@[k]@ == path@);
            }
        }
        let references = compute_slice_options(server_config, &self.slice_config);
        let ghost refs = project_paths(server_config, &self.slice_config);
        let mut j: usize = 0;
        while j < references.len()
            invariant
                j <= references@.len(),
                refs == project_paths(server_config, &self.slice_config),
                crate::paths::string_views(references@) == refs,
                forall|k: int| 0 <= k < j ==> !is_under(path@, #[trigger] refs[k]),
            decreases references@.len() - j,
        {
            assert(refs[j as int] == references@[j as int]@);
            if path_is_under(path, &references[j]) {
                assert(is_under(path@, project_paths(server_config, &self.slice_config)[j as int]));
                return true;
            }
            j = j + 1;
        }
        false
    }

    /// Compiles the project and keeps the output, replacing the previous one; returns
    /// the diagnostics of this compilation. The configuration is left as it was.
    pub fn trigger_compilation(&mut self, server_config: &ServerConfig) -> (r: Vec<Diagnostic>)
        ensures
            final(self).slice_config == old(self).slice_config,
            final(self).compile_count@ == old(self).compile_count@ + 1,
            final(self).compilation_data.state is Some,
            diagnostic_views(r@) == diagnostic_views(final(self).compilation_data.diagnostics@),
    {
        let references = compute_slice_options(server_config, &self.slice_config);
        let state = compile_references(&references);
        let annotated = annotated_diagnostics(&state, &references);
        let diagnostics = convert_diagnostics(&annotated);
        let files = compiled_file_paths(&state);
        let result = duplicate_all(&diagnostics);
        self.compilation_data = CompilationData { state: Some(state), files, diagnostics };
        self.compile_count = Ghost(self.compile_count@ + 1);
        result
    }
}

/// The strings of the `paths` array of a project object, in order.
pub fn parse_paths(value: &JsonValue) -> (r: Vec<String>)
    ensures
        string_views(r@) == project_paths_of(*value),
{
    let mut result: Vec<String> = Vec::new();
    if let Some(entries) = json_array_member(Some(value), "paths") {
        let mut i: usize = 0;
        while i < entries.len()
            invariant
                i <= entries@.len(),
                string_views(result@) == text_entries(entries@.take(i as int)),
            decreases entries@.len() - i,
        {
            assert(entries@.take(i + 1).drop_last() =~= entries@.take(i as int));
            if let JsonValue::Text(s) = &entries[i] {
                result.push(sanitize_path(s.as_str()));
            }
            i = i + 1;
            assert(string_views(result@) =~= text_entries(entries@.take(i as int)));
        }
        assert(entries@.take(entries@.len() as int) =~= entries@);
    }
    result
}

/// The `addWellKnownTypes` flag of a project object; `true` when it is missing or
/// not a boolean.
pub fn parse_include_built_in(value: &JsonValue) -> (r: bool)
    ensures
        r == built_in_flag_of(*value),
{
    match json_member(value, "addWellKnownTypes") {
        Some(JsonValue::Bool(b)) => *b,
        _ => true,
    }
}

/// The default project searches the workspace root, then the built-in files when the
/// server has a built-in path.
pub proof fn lemma_default_project_paths(server_config: &ServerConfig, c: &SliceConfig)
    requires
        is_default_config(c),
    ensures
        project_paths(server_config, c) == if server_config.built_in_slice_path@.len() > 0 {
            seq![server_config.workspace_root_path@, server_config.built_in_slice_path@]
        } else {
            seq![server_config.workspace_root_path@]
        },
{
    assert(seq![server_config.workspace_root_path@].push(server_config.built_in_slice_path@) =~= seq![
        server_config.workspace_root_path@,
        server_config.built_in_slice_path@,
    ]);
}

} // verus!
