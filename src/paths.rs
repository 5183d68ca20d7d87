//! Resolution of a project's search paths against the workspace root.
use vstd::prelude::*;

verus! {

/// Configuration that affects the entire server.
pub struct ServerConfig {
    /// Root of the workspace, used to resolve relative search paths.
    pub workspace_root_path: String,
    /// Directory of the built-in Slice files; empty when there is none.
    pub built_in_slice_path: String,
}

/// The configuration of a single project (configuration set).
pub struct SliceConfig {
    /// Paths passed to the compiler as reference files or directories.
    pub slice_search_paths: Vec<String>,
    /// Whether the built-in Slice files are added to the search paths.
    pub include_built_in_slice_files: bool,
}

/// A path is absolute when it starts at the file-system root.
pub open spec fn is_absolute(p: Seq<char>) -> bool {
    p.len() > 0 && p[0] == '/'
}

/// `p` placed under `root`: an absolute `p` replaces `root`; otherwise the two are
/// joined by one separator.
pub open spec fn joined(root: Seq<char>, p: Seq<char>) -> Seq<char> {
    if is_absolute(p) {
        p
    } else if root.len() == 0 || root.last() == '/' {
        root + p
    } else {
        root + seq!['/'] + p
    }
}

/// The search paths of a project, made absolute: the user's paths in order (or the
/// workspace root when there are none), then the built-in path when one is given.
pub open spec fn resolved_paths(
    search_paths: Seq<Seq<char>>,
    root: Seq<char>,
    built_in: Option<Seq<char>>,
) -> Seq<Seq<char>> {
    let user = if search_paths.len() == 0 {
        seq![root]
    } else {
        search_paths.map_values(|p: Seq<char>| joined(root, p))
    };
    match built_in {
        Some(b) => if b.len() > 0 {
            user.push(b)
        } else {
            user
        },
        None => user,
    }
}

/// The views of a vector of strings.
pub open spec fn string_views(v: Seq<String>) -> Seq<Seq<char>> {
    v.map_values(|s: String| s@)
}

/// The built-in path that a project adds to its search paths, if any.
pub open spec fn built_in_of(server_config: &ServerConfig, set_config: &SliceConfig) -> Option<Seq<char>> {
    if set_config.include_built_in_slice_files {
        Some(server_config.built_in_slice_path@)
    } else {
        None
    }
}

/// The search paths that the compiler receives for a project.
pub open spec fn project_paths(server_config: &ServerConfig, set_config: &SliceConfig) -> Seq<Seq<char>> {
    resolved_paths(
        string_views(set_config.slice_search_paths@),
        server_config.workspace_root_path@,
        built_in_of(server_config, set_config),
    )
}

/// Normalizes a path given by the editor (the identity on this platform).
pub fn sanitize_path(s: &str) -> (r: String)
    ensures
        r@ == s@,
{
    String::from_str(s)
}

/// Whether `p` is an absolute path.
pub fn is_absolute_path(p: &String) -> (r: bool)
    ensures
        r == is_absolute(p@),
{
    let s = p.as_str();
    let n = s.unicode_len();
    n > 0 && s.get_char(0) == '/'
}

/// Places `p` under `root`, as `joined` states.
pub fn join_path(root: &String, p: &String) -> (r: String)
    ensures
        r@ == joined(root@, p@),
{
    if is_absolute_path(p) {
        return p.clone();
    }
    let rs = root.as_str();
    let n = rs.unicode_len();
    let base = root.clone();
    if n == 0 || rs.get_char(n - 1) == '/' {
        base.concat(p.as_str())
    } else {
        proof {
            reveal_strlit("/");
        }
        let with_sep = base.concat("/");
        with_sep.concat(p.as_str())
    }
}

/// Resolves search paths against the workspace root, with the built-in path last.
/// The result is never empty.
pub fn resolve_search_paths(
    search_paths: &Vec<String>,
    workspace_root: &String,
    built_in_path: Option<&String>,
) -> (r: Vec<String>)
    ensures
        string_views(r@) == resolved_paths(
            string_views(search_paths@),
            workspace_root@,
            match built_in_path {
                Some(b) => Some(b@),
                None => None,
            },
        ),
        r@.len() > 0,
{
    let mut result: Vec<String> = Vec::new();
    if search_paths.len() == 0 {
        result.push(workspace_root.clone());
    } else {
        let mut i: usize = 0;
        while i < search_paths.len()
            invariant
                i <= search_paths@.len(),
                result@.len() == i,
                forall|k: int| 0 <= k < i ==> #[trigger] result@[k]@ == joined(workspace_root@, search_paths@[k]@),
            decreases search_paths@.len() - i,
        {
            let joined_path = join_path(workspace_root, &search_paths[i]);
            result.push(joined_path);
            i = i + 1;
        }
        assert(string_views(result@) =~= string_views(search_paths@).map_values(
            |p: Seq<char>| joined(workspace_root@, p),
        ));
    }
    match built_in_path {
        Some(b) => {
            if b.as_str().unicode_len() > 0 {
                result.push(b.clone());
            }
        },
        None => {},
    }
    assert(string_views(result@) =~= resolved_paths(
        string_views(search_paths@),
        workspace_root@,
        match built_in_path {
            Some(b) => Some(b@),
            None => None,
        },
    ));
    result
}

/// The search paths that the compiler receives for a project: its own paths, resolved
/// against the workspace root, then the built-in path if the project includes it.
pub fn compute_slice_options(server_config: &ServerConfig, set_config: &SliceConfig) -> (r: Vec<String>)
    ensures
        string_views(r@) == project_paths(server_config, set_config),
        r@.len() > 0,
{
    if set_config.include_built_in_slice_files {
        resolve_search_paths(
            &set_config.slice_search_paths,
            &server_config.workspace_root_path,
            Some(&server_config.built_in_slice_path),
        )
    } else {
        resolve_search_paths(&set_config.slice_search_paths, &server_config.workspace_root_path, None)
    }
}

} // verus!
