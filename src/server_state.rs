//! The session: the server-wide configuration and the active projects, with the
//! operations that replace, select and recompile them.
use vstd::prelude::*;
use crate::configuration_set::{ConfigurationSet, config_matches, is_default_config, is_uncompiled, project_holds};
use crate::settings::{JsonValue, array_member, json_array_member, json_member, member_of, text_member};
use crate::diagnostics::{
    Diagnostic, PublishOutput, cleared, clear_then_publish, deduplicated, diagnostic_views, distinct_files,
    distinct_paths, duplicate_all, file_views, path_views, publication, publish_diagnostics, publish_keys,
    removed_paths, spanless_of, DiagnosticView,
};
use crate::paths::{ServerConfig, SliceConfig};

verus! {

/// The session of the server: its configuration and its projects.
pub struct ServerState {
    /// The active projects; never empty once the server is initialized.
    pub slice_projects: Vec<ConfigurationSet>,
    /// Configuration that affects the entire server.
    pub server_config: ServerConfig,
}

/// The compiled files of `sets`, project after project.
pub open spec fn all_files(sets: Seq<ConfigurationSet>) -> Seq<Seq<char>>
    decreases sets.len(),
{
    if sets.len() == 0 {
        Seq::empty()
    } else {
        all_files(sets.drop_last()) + path_views(sets.last().compilation_data.files@)
    }
}

/// The diagnostics of the latest compilation of `sets`, project after project.
pub open spec fn all_diagnostics(sets: Seq<ConfigurationSet>) -> Seq<DiagnosticView>
    decreases sets.len(),
{
    if sets.len() == 0 {
        Seq::empty()
    } else {
        all_diagnostics(sets.drop_last()) + diagnostic_views(sets.last().compilation_data.diagnostics@)
    }
}

/// The projects of `sets` at the indices `idx`, in that order.
pub open spec fn sets_at(sets: Seq<ConfigurationSet>, idx: Seq<usize>) -> Seq<ConfigurationSet> {
    idx.map_values(|i: usize| sets[i as int])
}

/// The indices below `n` of the projects that hold `path`, in increasing order.
pub open spec fn affected_indices(
    sets: Seq<ConfigurationSet>,
    server_config: &ServerConfig,
    path: Seq<char>,
    n: nat,
) -> Seq<usize>
    decreases n,
{
    if n == 0 {
        Seq::empty()
    } else {
        let prior = affected_indices(sets, server_config, path, (n - 1) as nat);
        if project_holds(&sets[n - 1], server_config, path) {
            prior.push((n - 1) as usize)
        } else {
            prior
        }
    }
}

/// The two sequences hold the same projects but for their compilation output.
pub open spec fn same_configs(a: Seq<ConfigurationSet>, b: Seq<ConfigurationSet>) -> bool {
    a.len() == b.len() && forall|i: int| 0 <= i < a.len() ==> (#[trigger] a[i]).slice_config == b[i].slice_config
}

/// The projects described by the JSON objects `elems` are installed: one per object
/// with its configuration, or the default project when there is none.
pub open spec fn installed_from(sets: Seq<ConfigurationSet>, elems: Seq<JsonValue>) -> bool {
    if elems.len() == 0 {
        sets.len() == 1 && is_default_config(&sets[0].slice_config)
    } else {
        sets.len() == elems.len() && forall|i: int| 0 <= i < sets.len() ==> config_matches(&(#[trigger] sets[i]).slice_config, elems[i])
    }
}

/// The indices of `idx` are increasing.
pub open spec fn increasing(idx: Seq<usize>) -> bool {
    forall|a: int, b: int| 0 <= a < b < idx.len() ==> (#[trigger] idx[a]) < (#[trigger] idx[b])
}

/// Each project of `after` was compiled once more than the same project of `before`.
pub open spec fn compiled_once(after: ConfigurationSet, before: ConfigurationSet) -> bool {
    after.compile_count@ == before.compile_count@ + 1 && after.compilation_data.state is Some
}

/// The projects that a list of parsed projects installs: the list itself, or the
/// default project when it is empty.
pub open spec fn installs(final_sets: Seq<ConfigurationSet>, projects: Seq<ConfigurationSet>) -> bool {
    if projects.len() == 0 {
        final_sets.len() == 1 && is_default_config(&final_sets[0].slice_config)
    } else {
        same_configs(final_sets, projects)
    }
}

fn clone_paths(v: &Vec<String>) -> (r: Vec<String>)
    ensures
        path_views(r@) == path_views(v@),
{
    let mut result: Vec<String> = Vec::new();
    let mut i: usize = 0;
    while i < v.len()
        invariant
            i <= v@.len(),
            result@.len() == i,
            forall|k: int| 0 <= k < i ==> (#[trigger] result@[k])@ == v@[k]@,
        decreases v@.len() - i,
    {
        result.push(v[i].clone());
        i = i + 1;
    }
    assert(path_views(result@) =~= path_views(v@));
    result
}

/// The files and the diagnostics of the projects at `idx`, project after project.
fn collect_outputs(sets: &Vec<ConfigurationSet>, idx: &Vec<usize>) -> (r: (Vec<String>, Vec<Diagnostic>))
    requires
        forall|k: int| 0 <= k < idx@.len() ==> (#[trigger] idx@[k]) < sets@.len(),
    ensures
        path_views(r.0@) == all_files(sets_at(sets@, idx@)),
        diagnostic_views(r.1@) == all_diagnostics(sets_at(sets@, idx@)),
{
    let mut files: Vec<String> = Vec::new();
    let mut diagnostics: Vec<Diagnostic> = Vec::new();
    let mut k: usize = 0;
    while k < idx.len()
        invariant
            k <= idx@.len(),
            forall|m: int| 0 <= m < idx@.len() ==> (#[trigger] idx@[m]) < sets@.len(),
            path_views(files@) == all_files(sets_at(sets@, idx@.take(k as int))),
            diagnostic_views(diagnostics@) == all_diagnostics(sets_at(sets@, idx@.take(k as int))),
        decreases idx@.len() - k,
    {
        let set = &sets[idx[k]];
        let mut more_files = clone_paths(&set.compilation_data.files);
        let mut more_diagnostics = duplicate_all(&set.compilation_data.diagnostics);
        let ghost f0 = path_views(files@);
        let ghost f1 = path_views(more_files@);
        let ghost d0 = diagnostic_views(diagnostics@);
        let ghost d1 = diagnostic_views(more_diagnostics@);
        files.append(&mut more_files);
        diagnostics.append(&mut more_diagnostics);
        assert(path_views(files@) =~= f0 + f1);
        assert(diagnostic_views(diagnostics@) =~= d0 + d1);
        assert(sets_at(sets@, idx@.take(k + 1)).drop_last() =~= sets_at(sets@, idx@.take(k as int)));
        k = k + 1;
    }
    assert(idx@.take(idx@.len() as int) =~= idx@);
    (files, diagnostics)
}

impl ServerState {
    /// A session with the given configuration and no projects yet.
    pub fn new(server_config: ServerConfig) -> (r: ServerState)
        ensures
            r.server_config == server_config,
            r.slice_projects@.len() == 0,
    {
        ServerState { slice_projects: Vec::new(), server_config }
    }

    /// Installs the given projects, replacing the current ones; when there are none,
    /// installs the default project instead.
    pub fn set_projects(&mut self, projects: Vec<ConfigurationSet>)
        ensures
            final(self).server_config == old(self).server_config,
            projects@.len() > 0 ==> final(self).slice_projects@ == projects@,
            projects@.len() == 0 ==> final(self).slice_projects@.len() == 1 && is_default_config(
                &final(self).slice_projects@[0].slice_config,
            ) && is_uncompiled(&final(self).slice_projects@[0].compilation_data)
                && final(self).slice_projects@[0].compile_count@ == 0,
    {
        let mut projects = projects;
        if projects.len() == 0 {
            projects.push(ConfigurationSet::new(SliceConfig::default()));
        }
        self.slice_projects = projects;
    }

    /// The files compiled by any project, each once.
    pub fn tracked_files(&self) -> (r: Vec<String>)
        ensures
            path_views(r@) == distinct_paths(all_files(self.slice_projects@)),
    {
        let idx = self.all_indices();
        let (files, _) = collect_outputs(&self.slice_projects, &idx);
        distinct_files(&files)
    }

    fn all_indices(&self) -> (r: Vec<usize>)
        ensures
            sets_at(self.slice_projects@, r@) == self.slice_projects@,
            forall|k: int| 0 <= k < r@.len() ==> (#[trigger] r@[k]) == k,
            r@.len() == self.slice_projects@.len(),
            increasing(r@),
    {
        let mut r: Vec<usize> = Vec::new();
        let mut i: usize = 0;
        while i < self.slice_projects.len()
            invariant
                i <= self.slice_projects@.len(),
                r@.len() == i,
                forall|k: int| 0 <= k < i ==> (#[trigger] r@[k]) == k,
            decreases self.slice_projects@.len() - i,
        {
            r.push(i);
            i = i + 1;
        }
        assert(sets_at(self.slice_projects@, r@) =~= self.slice_projects@);
        r
    }

    /// The indices of the projects that hold `path`, in increasing order.
    pub fn affected_projects(&self, path: &String) -> (r: Vec<usize>)
        ensures
            r@ == affected_indices(self.slice_projects@, &self.server_config, path@, self.slice_projects@.len()),
    {
        let mut r: Vec<usize> = Vec::new();
        let mut i: usize = 0;
        while i < self.slice_projects.len()
            invariant
                i <= self.slice_projects@.len(),
                r@ == affected_indices(self.slice_projects@, &self.server_config, path@, i as nat),
            decreases self.slice_projects@.len() - i,
        {
            if self.slice_projects[i].contains_file(&self.server_config, path) {
                r.push(i);
            }
            i = i + 1;
        }
        r
    }

    /// Recompiles the projects at `idx` (increasing indices), each once, leaving the
    /// others and every configuration as they were.
    fn compile_projects(&mut self, idx: &Vec<usize>)
        requires
            forall|k: int| 0 <= k < idx@.len() ==> (#[trigger] idx@[k]) < old(self).slice_projects@.len(),
            increasing(idx@),
        ensures
            final(self).server_config == old(self).server_config,
            same_configs(final(self).slice_projects@, old(self).slice_projects@),
            forall|i: int| 0 <= i < old(self).slice_projects@.len() && !idx@.contains(i as usize)
                ==> #[trigger] final(self).slice_projects@[i] == old(self).slice_projects@[i],
            forall|k: int| 0 <= k < idx@.len() ==> compiled_once(
                #[trigger] final(self).slice_projects@[idx@[k] as int],
                old(self).slice_projects@[idx@[k] as int],
            ),
    {
        let ghost start = self.slice_projects@;
        let mut k: usize = 0;
        while k < idx.len()
            invariant
                k <= idx@.len(),
                forall|m: int| 0 <= m < idx@.len() ==> (#[trigger] idx@[m]) < start.len(),
                increasing(idx@),
                self.server_config == old(self).server_config,
                start == old(self).slice_projects@,
                same_configs(self.slice_projects@, start),
                forall|i: int| 0 <= i < start.len() && !idx@.take(k as int).contains(i as usize)
                    ==> #[trigger] self.slice_projects@[i] == start[i],
                forall|m: int| 0 <= m < k ==> compiled_once(
                    #[trigger] self.slice_projects@[idx@[m] as int],
                    start[idx@[m] as int],
                ),
            decreases idx@.len() - k,
        {
            let i = idx[k];
            let ghost before = self.slice_projects@;
            assert(!idx@.take(k as int).contains(i)) by {
                if idx@.take(k as int).contains(i) {
                    let m = choose|m: int| 0 <= m < k && idx@.take(k as int)[m] == i;
                    assert(idx@[m] < idx@[k as int]);
                }
            }
            self.slice_projects[i].trigger_compilation(&self.server_config);
            proof {
                assert forall|j: int| 0 <= j < start.len() && !idx@.take(k + 1).contains(j as usize)
                    implies #[trigger] self.slice_projects@[j] == start[j] by {
                    assert(idx@.take(k + 1)[k as int] == i);
                    if j == i as int {
                        assert(idx@.take(k + 1).contains(j as usize));
                    }
                    if idx@.take(k as int).contains(j as usize) {
                        let m = choose|m: int| 0 <= m < k && idx@.take(k as int)[m] == j as usize;
                        assert(idx@.take(k + 1)[m] == j as usize);
                    }
                    assert(self.slice_projects@[j] == before[j]);
                }
                assert forall|m: int| 0 <= m < k + 1 implies compiled_once(
                    #[trigger] self.slice_projects@[idx@[m] as int],
                    start[idx@[m] as int],
                ) by {
                    if m < k {
                        assert(idx@[m] < idx@[k as int]);
                        assert(self.slice_projects@[idx@[m] as int] == before[idx@[m] as int]);
                    } else {
                        assert(before[i as int] == start[i as int]);
                    }
                }
            }
            k = k + 1;
        }
        assert(idx@.take(idx@.len() as int) =~= idx@);
    }

    /// Recompiles every project that holds `path` and publishes the result: the
    /// deduplicated diagnostics of those projects, grouped by file over the files they
    /// compiled. Every other project is left as it was.
    pub fn recompile_affecting(&mut self, path: &String) -> (r: PublishOutput)
        ensures
            final(self).server_config == old(self).server_config,
            same_configs(final(self).slice_projects@, old(self).slice_projects@),
            ({
                let idx = affected_indices(
                    old(self).slice_projects@,
                    &old(self).server_config,
                    path@,
                    old(self).slice_projects@.len(),
                );
                let sets = sets_at(final(self).slice_projects@, idx);
                &&& forall|i: int| 0 <= i < old(self).slice_projects@.len() && !idx.contains(i as usize)
                    ==> #[trigger] final(self).slice_projects@[i] == old(self).slice_projects@[i]
                &&& forall|k: int| 0 <= k < idx.len() ==> compiled_once(
                    #[trigger] final(self).slice_projects@[idx[k] as int],
                    old(self).slice_projects@[idx[k] as int],
                )
                &&& file_views(r.files@) == publication(all_files(sets), all_diagnostics(sets))
                &&& diagnostic_views(r.spanless@) == spanless_of(deduplicated(all_diagnostics(sets)))
            }),
    {
        let idx = self.affected_projects(path);
        let count = self.slice_projects.len();
        proof {
            lemma_affected_in_range(self.slice_projects@, &self.server_config, path@, self.slice_projects@.len());
        }
        self.compile_projects(&idx);
        let (files, diagnostics) = collect_outputs(&self.slice_projects, &idx);
        publish_diagnostics(&diagnostics, &files)
    }

    /// Recompiles every project and publishes the deduplicated diagnostics of all of
    /// them, grouped by file over every compiled file.
    pub fn compile_and_publish_diagnostics(&mut self) -> (r: PublishOutput)
        ensures
            final(self).server_config == old(self).server_config,
            same_configs(final(self).slice_projects@, old(self).slice_projects@),
            forall|i: int| 0 <= i < old(self).slice_projects@.len() ==> compiled_once(
                #[trigger] final(self).slice_projects@[i],
                old(self).slice_projects@[i],
            ),
            file_views(r.files@) == publication(
                all_files(final(self).slice_projects@),
                all_diagnostics(final(self).slice_projects@),
            ),
            diagnostic_views(r.spanless@) == spanless_of(deduplicated(all_diagnostics(final(self).slice_projects@))),
    {
        let idx = self.all_indices();
        let ghost start = self.slice_projects@;
        self.compile_projects(&idx);
        let (files, diagnostics) = collect_outputs(&self.slice_projects, &idx);
        proof {
            assert(sets_at(self.slice_projects@, idx@) =~= self.slice_projects@);
            assert forall|i: int| 0 <= i < start.len() implies compiled_once(
                #[trigger] self.slice_projects@[i],
                start[i],
            ) by {
                assert(idx@[i] == i);
            }
        }
        publish_diagnostics(&diagnostics, &files)
    }

    /// Replaces the projects (the default project when `projects` is empty),
    /// compiles them, and publishes: first an empty list for each previously compiled
    /// file that receives no new publication, then the new diagnostics by file.
    pub fn update_projects(&mut self, projects: Vec<ConfigurationSet>) -> (r: PublishOutput)
        ensures
            final(self).server_config == old(self).server_config,
            installs(final(self).slice_projects@, projects@),
            forall|i: int| 0 <= i < final(self).slice_projects@.len() ==> (#[trigger] final(self).slice_projects@[i]).compilation_data.state is Some && final(self).slice_projects@[i].compile_count@ == (
            if projects@.len() > 0 {
                projects@[i].compile_count@
            } else {
                0
            }) + 1,
            ({
                let files = all_files(final(self).slice_projects@);
                let ds = all_diagnostics(final(self).slice_projects@);
                &&& file_views(r.files@) == removed_paths(
                    all_files(old(self).slice_projects@),
                    publish_keys(files, deduplicated(ds)),
                ).map_values(|f: Seq<char>| cleared(f)) + publication(files, ds)
                &&& diagnostic_views(r.spanless@) == spanless_of(deduplicated(ds))
            }),
    {
        let old_idx = self.all_indices();
        let (previous, _) = collect_outputs(&self.slice_projects, &old_idx);
        let ghost given = projects@;
        self.set_projects(projects);
        let ghost installed = self.slice_projects@;
        let idx = self.all_indices();
        self.compile_projects(&idx);
        let (files, diagnostics) = collect_outputs(&self.slice_projects, &idx);
        proof {
            assert(sets_at(self.slice_projects@, idx@) =~= self.slice_projects@);
            if given.len() > 0 {
                assert(installed == given);
            }
            assert forall|i: int| 0 <= i < self.slice_projects@.len() implies compiled_once(
                #[trigger] self.slice_projects@[i],
                installed[i],
            ) by {
                assert(idx@[i] == i);
            }
        }
        clear_then_publish(&previous, &diagnostics, &files)
    }

    /// Replaces the projects with those of the `slice.configurations` array of the
    /// editor's settings (the default project when there is none), recompiles and
    /// publishes as `update_projects` does.
    pub fn update_projects_from_params(&mut self, settings: &JsonValue) -> (r: PublishOutput)
        ensures
            final(self).server_config == old(self).server_config,
            installed_from(final(self).slice_projects@, array_member(member_of(*settings, "slice"@), "configurations"@)),
            forall|i: int| 0 <= i < final(self).slice_projects@.len() ==> (#[trigger] final(self).slice_projects@[i]).compilation_data.state is Some && final(self).slice_projects@[i].compile_count@ == 1,
            ({
                let files = all_files(final(self).slice_projects@);
                let ds = all_diagnostics(final(self).slice_projects@);
                &&& file_views(r.files@) == removed_paths(
                    all_files(old(self).slice_projects@),
                    publish_keys(files, deduplicated(ds)),
                ).map_values(|f: Seq<char>| cleared(f)) + publication(files, ds)
                &&& diagnostic_views(r.spanless@) == spanless_of(deduplicated(ds))
            }),
    {
        let projects = parse_configurations(json_member(settings, "slice"));
        let ghost parsed = projects@;
        let r = self.update_projects(projects);
        proof {
            if parsed.len() > 0 {
                assert forall|i: int| 0 <= i < self.slice_projects@.len() implies config_matches(
                    &(#[trigger] self.slice_projects@[i]).slice_config,
                    array_member(member_of(*settings, "slice"@), "configurations"@)[i],
                ) by {
                    assert(self.slice_projects@[i].slice_config == parsed[i].slice_config);
                }
            }
        }
        r
    }

    /// Sets the server configuration from the workspace root and the initialization
    /// options, and installs the projects of their `configurations` array (the default
    /// project when there is none). A missing `builtInSlicePath` string means no
    /// built-in files.
    pub fn update_from_initialize_params(
        &mut self,
        workspace_root_path: String,
        initialization_options: Option<&JsonValue>,
    )
        ensures
            ({
                let options = match initialization_options {
                    Some(o) => Some(*o),
                    None => None,
                };
                &&& final(self).server_config.workspace_root_path == workspace_root_path
                &&& final(self).server_config.built_in_slice_path@ == match text_member(options, "builtInSlicePath"@) {
                    Some(b) => b,
                    None => Seq::<char>::empty(),
                }
                &&& installed_from(final(self).slice_projects@, array_member(options, "configurations"@))
                &&& forall|i: int| 0 <= i < final(self).slice_projects@.len() ==> is_uncompiled(
                    &(#[trigger] final(self).slice_projects@[i]).compilation_data,
                )
            }),
    {
        let built_in_slice_path = match initialization_options {
            Some(o) => match json_member(o, "builtInSlicePath") {
                Some(JsonValue::Text(b)) => crate::paths::sanitize_path(b.as_str()),
                _ => String::new(),
            },
            None => String::new(),
        };
        self.server_config = ServerConfig { workspace_root_path, built_in_slice_path };
        let projects = parse_configurations(initialization_options);
        let ghost parsed = projects@;
        self.set_projects(projects);
        proof {
            if parsed.len() > 0 {
                assert(self.slice_projects@ == parsed);
            }
        }
    }

    /// The indices of the projects whose latest compilation produced `path`, in
    /// increasing order; a position query on that file is answered from them.
    pub fn projects_with_file(&self, path: &String) -> (r: Vec<usize>)
        ensures
            forall|k: int| 0 <= k < r@.len() ==> (#[trigger] r@[k]) < self.slice_projects@.len(),
            forall|i: int| 0 <= i < self.slice_projects@.len() ==> (r@.contains(i as usize) <==> path_views(
                self.slice_projects@[i].compilation_data.files@,
            ).contains(path@)),
    {
        let mut r: Vec<usize> = Vec::new();
        let mut i: usize = 0;
        while i < self.slice_projects.len()
            invariant
                i <= self.slice_projects@.len(),
                forall|k: int| 0 <= k < r@.len() ==> (#[trigger] r@[k]) < i,
                forall|j: int| 0 <= j < i ==> (r@.contains(j as usize) <==> path_views(
                    self.slice_projects@[j].compilation_data.files@,
                ).contains(path@)),
            decreases self.slice_projects@.len() - i,
        {
            let ghost prior = r@;
            let holds = crate::diagnostics::contains_path(&self.slice_projects[i].compilation_data.files, path);
            if holds {
                r.push(i);
            }
            proof {
                assert forall|j: int| 0 <= j <= i implies (r@.contains(j as usize) <==> path_views(
                    self.slice_projects@[j].compilation_data.files@,
                ).contains(path@)) by {
                    if j < i {
                        if prior.contains(j as usize) {
                            let k = choose|k: int| 0 <= k < prior.len() && prior[k] == j as usize;
                            assert(r@[k] == j as usize);
                        }
                        if r@.contains(j as usize) {
                            let k = choose|k: int| 0 <= k < r@.len() && r@[k] == j as usize;
                            if k < prior.len() {
                                assert(prior[k] == j as usize);
                            }
                        }
                    } else {
                        if holds {
                            assert(r@[r@.len() - 1] == i);
                        } else if r@.contains(j as usize) {
                            let k = choose|k: int| 0 <= k < r@.len() && r@[k] == j as usize;
                            assert(prior[k] < i);
                        }
                    }
                }
            }
            i = i + 1;
        }
        r
    }
}

/// The projects of the `configurations` array of a JSON object, if there is one.
fn parse_configurations(object: Option<&JsonValue>) -> (r: Vec<ConfigurationSet>)
    ensures
        ({
            let elems = array_member(
                match object {
                    Some(o) => Some(*o),
                    None => None,
                },
                "configurations"@,
            );
            &&& r@.len() == elems.len()
            &&& forall|i: int| 0 <= i < r@.len() ==> {
                &&& config_matches(&(#[trigger] r@[i]).slice_config, elems[i])
                &&& is_uncompiled(&r@[i].compilation_data)
                &&& r@[i].compile_count@ == 0
            }
        }),
{
    match json_array_member(object, "configurations") {
        Some(a) => ConfigurationSet::parse_configuration_sets(a),
        None => Vec::new(),
    }
}

/// The affected indices below `n` are increasing and below `n`.
proof fn lemma_affected_in_range(sets: Seq<ConfigurationSet>, server_config: &ServerConfig, path: Seq<char>, n: nat)
    requires
        n <= usize::MAX,
    ensures
        forall|k: int| 0 <= k < affected_indices(sets, server_config, path, n).len()
            ==> (#[trigger] affected_indices(sets, server_config, path, n)[k]) < n,
        increasing(affected_indices(sets, server_config, path, n)),
    decreases n,
{
    if n > 0 {
        lemma_affected_in_range(sets, server_config, path, (n - 1) as nat);
        let prior = affected_indices(sets, server_config, path, (n - 1) as nat);
        let all = affected_indices(sets, server_config, path, n);
        assert forall|k: int| 0 <= k < all.len() implies (#[trigger] all[k]) < n by {
            if k < prior.len() {
                assert(all[k] == prior[k]);
            }
        }
        assert forall|a: int, b: int| 0 <= a < b < all.len() implies (#[trigger] all[a]) < (#[trigger] all[b]) by {
            assert(all[a] == prior[a]);
            if b < prior.len() {
                assert(all[b] == prior[b]);
            }
        }
    }
}

} // verus!
