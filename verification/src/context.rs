//! The launch context that the host injects, and the defensive projection
//! of it onto the directory the viewer roots at.

use vstd::prelude::*;

verus! {

/// The fields of the host's context document. Every field is optional, so a
/// partial document still yields a context; unknown fields are ignored by
/// whoever decodes the document into this shape.
pub struct RawContext {
    /// The directory of the pane that invoked the viewer.
    pub focused_pane_cwd: Option<String>,
    /// The root of the workspace.
    pub workspace_cwd: Option<String>,
    /// A plain working directory, accepted as a last candidate.
    pub cwd: Option<String>,
    /// The branch that diffs are taken against, when the host names one.
    pub base_branch: Option<String>,
    /// The host's identifier of the workspace.
    pub workspace_id: Option<String>,
}

impl Default for RawContext {
    /// The context of an absent or malformed document: no field at all.
    fn default() -> (r: RawContext)
        ensures
            r.focused_pane_cwd is None,
            r.workspace_cwd is None,
            r.cwd is None,
            r.base_branch is None,
            r.workspace_id is None,
    {
        RawContext {
            focused_pane_cwd: None,
            workspace_cwd: None,
            cwd: None,
            base_branch: None,
            workspace_id: None,
        }
    }
}

/// What the host's context says of where the viewer roots and of its
/// workspace.
pub struct HostContext {
    /// The directory the tree is rooted at, where the host names one; the
    /// caller falls back to the process's own directory otherwise.
    pub cwd: Option<String>,
    /// The branch that diffs are taken against, when the host names one.
    pub base_branch: Option<String>,
    /// The host's identifier of the workspace, when it is not empty.
    pub workspace_id: Option<String>,
}

/// The characters of an optional string.
pub open spec fn opt_view(o: Option<String>) -> Option<Seq<char>> {
    match o {
        Some(s) => Some(s@),
        None => None,
    }
}

/// The characters of an optional string, where it is present and not empty.
pub open spec fn non_empty(o: Option<String>) -> Option<Seq<char>> {
    match o {
        Some(s) => if s@.len() > 0 {
            Some(s@)
        } else {
            None
        },
        None => None,
    }
}

/// The first non-empty candidate among the pane directory, the workspace
/// root and the plain `cwd`, if any.
pub open spec fn chosen_cwd(raw: RawContext) -> Option<Seq<char>> {
    match non_empty(raw.focused_pane_cwd) {
        Some(d) => Some(d),
        None => match non_empty(raw.workspace_cwd) {
            Some(d) => Some(d),
            None => non_empty(raw.cwd),
        },
    }
}

fn take_non_empty(o: Option<String>) -> (r: Option<String>)
    ensures
        opt_view(r) == non_empty(o),
{
    match o {
        Some(s) => if s.as_str().is_empty() {
            None
        } else {
            Some(s)
        },
        None => None,
    }
}

/// Projects the host's context onto a [`HostContext`]. `raw` is `None`
/// where the document was missing or malformed; then no directory is named
/// and nothing else is known. Empty strings count as absent for the
/// directory candidates and the workspace id, so they fall through to the
/// next candidate rather than rooting at an empty path.
pub fn launch_context(raw: Option<RawContext>) -> (c: HostContext)
    ensures
        ({
            let r = match raw {
                Some(r) => r,
                None => RawContext {
                    focused_pane_cwd: None,
                    workspace_cwd: None,
                    cwd: None,
                    base_branch: None,
                    workspace_id: None,
                },
            };
            &&& opt_view(c.cwd) == chosen_cwd(r)
            &&& opt_view(c.base_branch) == opt_view(r.base_branch)
            &&& opt_view(c.workspace_id) == non_empty(r.workspace_id)
        }),
{
    let raw = match raw {
        Some(r) => r,
        None => RawContext::default(),
    };
    let cwd = match take_non_empty(raw.focused_pane_cwd) {
        Some(d) => Some(d),
        None => match take_non_empty(raw.workspace_cwd) {
            Some(d) => Some(d),
            None => take_non_empty(raw.cwd),
        },
    };
    HostContext { cwd, base_branch: raw.base_branch, workspace_id: take_non_empty(raw.workspace_id) }
}

/// The viewer roots at the most specific directory the host names: the
/// focused pane's directory whenever it is a non-empty string, whatever the
/// other fields hold; else the workspace root when it is non-empty; else the
/// plain `cwd` when it is non-empty; else nothing. An empty string is never
/// chosen.
pub proof fn launch_root_prefers_the_most_specific_directory(raw: RawContext)
    ensures
        non_empty(raw.focused_pane_cwd) is Some ==> chosen_cwd(raw) == non_empty(
            raw.focused_pane_cwd,
        ),
        non_empty(raw.focused_pane_cwd) is None && non_empty(raw.workspace_cwd) is Some
            ==> chosen_cwd(raw) == non_empty(raw.workspace_cwd),
        non_empty(raw.focused_pane_cwd) is None && non_empty(raw.workspace_cwd) is None
            ==> chosen_cwd(raw) == non_empty(raw.cwd),
        chosen_cwd(raw) matches Some(x) ==> x.len() > 0,
{
}

} // verus!
