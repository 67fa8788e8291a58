//! Workspaces: the per-branch persisted state, its history entries, and the
//! cross-branch index of all workspaces.

use vstd::prelude::*;
use crate::state::enums::RequestMethod;
use crate::state::ids::new_id;
use crate::state::project::Project;
use crate::text::{chars_of, str_eq, string_from_chars};

verus! {

/// Maximum characters of response body retained per history entry.
pub const HISTORY_BODY_MAX_CHARS: usize = 4096;

/// Maximum number of query params / request headers retained per entry.
pub const HISTORY_KV_MAX: usize = 32;

/// A compact history entry for the console / history list.
#[derive(Debug)]
pub struct HistoryEntry {
    pub id: String,
    pub project_id: String,
    pub request_id: Option<String>,
    pub name: String,
    pub method: RequestMethod,
    pub url: String,
    pub status: u16,
    /// Human status text e.g. "OK".
    pub status_text: String,
    pub time_ms: u64,
    pub size: u64,
    /// Timestamp.
    pub at: String,
    pub error: Option<String>,
    /// Effective query params actually sent.
    pub query_params: Vec<(String, String)>,
    /// Request headers actually sent.
    pub request_headers: Vec<(String, String)>,
    /// Truncated response body; `None` when empty.
    pub response_body: Option<String>,
    /// Whether `response_body` was truncated.
    pub response_truncated: bool,
}

/// The persisted state of one workspace: its projects plus history.
#[derive(Debug)]
pub struct WorkspaceData {
    pub projects: Vec<Project>,
    pub history: Vec<HistoryEntry>,
    /// Id of the active project the last time this workspace was open.
    pub active_project_id: Option<String>,
}

impl Default for WorkspaceData {
    fn default() -> (r: Self)
        ensures
            r.projects@.len() == 0,
            r.history@.len() == 0,
            r.active_project_id is None,
    {
        WorkspaceData { projects: Vec::new(), history: Vec::new(), active_project_id: None }
    }
}

/// Metadata for one workspace in the cross-branch index.
#[derive(Debug)]
pub struct WorkspaceMeta {
    pub id: String,
    pub name: String,
    /// Git branch backing this workspace: `main` for the default workspace,
    /// `verve/<id>` for others.
    pub branch: String,
    /// The built-in default workspace cannot be deleted.
    pub is_default: bool,
}

/// The trailing `n` chars of `s` (all of `s` when it is shorter).
pub open spec fn suffix(s: Seq<char>, n: nat) -> Seq<char> {
    if s.len() <= n {
        s
    } else {
        s.skip(s.len() - n)
    }
}

/// The trailing `n` chars of `id`: the random tail of a sparkid (its leading
/// chars are a timestamp and collide for near-simultaneous ids). Fewer than
/// `n` chars when `id` is shorter.
pub fn id_suffix(id: &str, n: usize) -> (r: String)
    ensures
        r@ == suffix(id@, n as nat),
{
    let c = chars_of(id);
    let skip = if c.len() > n { c.len() - n } else { 0 };
    let mut out: Vec<char> = Vec::new();
    let mut i: usize = skip;
    while i < c.len()
        invariant
            skip <= i <= c@.len(),
            out@ == c@.subrange(skip as int, i as int),
        decreases c.len() - i,
    {
        out.push(c[i]);
        assert(c@.subrange(skip as int, i + 1) == c@.subrange(skip as int, i as int).push(c@[i as int]));
        i = i + 1;
    }
    assert(c@.subrange(skip as int, c@.len() as int) =~= suffix(id@, n as nat));
    string_from_chars(out.as_slice())
}

impl WorkspaceMeta {
    /// The default workspace (id `default`, branch `main`).
    pub fn default_workspace() -> (r: Self)
        ensures
            r.id@ == "default"@,
            r.name@ == "Default"@,
            r.branch@ == "main"@,
            r.is_default,
    {
        WorkspaceMeta {
            id: "default".to_owned(),
            name: "Default".to_owned(),
            branch: "main".to_owned(),
            is_default: true,
        }
    }

    /// A new (non-default) workspace with a fresh id and the branch
    /// `verve/<id>`.
    pub fn new(name: &str) -> (r: Self)
        ensures
            r.id@.len() == 21,
            r.name@ == name@,
            r.branch@ == "verve/"@ + r.id@,
            !r.is_default,
    {
        let id = new_id();
        let mut branch = "verve/".to_owned();
        branch.append(id.as_str());
        WorkspaceMeta { id, name: name.to_owned(), branch, is_default: false }
    }

    /// A field-by-field copy.
    pub fn duplicate(&self) -> (r: Self)
        ensures
            r == *self,
    {
        WorkspaceMeta {
            id: self.id.clone(),
            name: self.name.clone(),
            branch: self.branch.clone(),
            is_default: self.is_default,
        }
    }
}

/// The cross-branch index of all workspaces; `active` holds the id of the
/// currently selected workspace.
#[derive(Debug)]
pub struct WorkspacesIndex {
    pub workspaces: Vec<WorkspaceMeta>,
    pub active: Option<String>,
}

impl Default for WorkspacesIndex {
    fn default() -> (r: Self)
        ensures
            r.workspaces@.len() == 0,
            r.active is None,
    {
        WorkspacesIndex { workspaces: Vec::new(), active: None }
    }
}

/// Index of the first workspace with the given id.
pub open spec fn first_workspace(s: Seq<WorkspaceMeta>, id: Seq<char>) -> Option<int>
    decreases s.len(),
{
    if s.len() == 0 {
        None
    } else {
        match first_workspace(s.drop_last(), id) {
            Some(k) => Some(k),
            None => if s.last().id@ == id {
                Some(s.len() - 1)
            } else {
                None
            },
        }
    }
}

proof fn lemma_first_workspace_prefix(s: Seq<WorkspaceMeta>, id: Seq<char>, n: int)
    requires
        0 <= n <= s.len(),
        first_workspace(s.take(n), id) is Some,
    ensures
        first_workspace(s, id) == first_workspace(s.take(n), id),
    decreases s.len() - n,
{
    if n < s.len() {
        assert(s.take(n + 1).drop_last() == s.take(n));
        lemma_first_workspace_prefix(s, id, n + 1);
    } else {
        assert(s.take(n) == s);
    }
}

impl WorkspacesIndex {
    /// A fresh index with only the built-in default workspace, set active.
    pub fn with_default() -> (r: Self)
        ensures
            r.workspaces@.len() == 1,
            r.workspaces@[0].id@ == "default"@,
            r.workspaces@[0].name@ == "Default"@,
            r.workspaces@[0].branch@ == "main"@,
            r.workspaces@[0].is_default,
            r.active matches Some(a) && a@ == "default"@,
    {
        let default = WorkspaceMeta::default_workspace();
        let active = default.id.clone();
        WorkspacesIndex { workspaces: vec![default], active: Some(active) }
    }

    /// The first workspace with the given id.
    pub fn find(&self, id: &str) -> (r: Option<&WorkspaceMeta>)
        ensures
            match first_workspace(self.workspaces@, id@) {
                Some(k) => r == Some(&self.workspaces@[k]),
                None => r is None,
            },
    {
        let mut i: usize = 0;
        while i < self.workspaces.len()
            invariant
                i <= self.workspaces@.len(),
                first_workspace(self.workspaces@.take(i as int), id@) is None,
            decreases self.workspaces.len() - i,
        {
            proof {
                assert(self.workspaces@.take(i + 1).drop_last() == self.workspaces@.take(i as int));
                assert(self.workspaces@.take(i + 1).last() == self.workspaces@[i as int]);
            }
            if str_eq(self.workspaces[i].id.as_str(), id) {
                proof {
                    lemma_first_workspace_prefix(self.workspaces@, id@, i + 1);
                }
                return Some(&self.workspaces[i]);
            }
            i = i + 1;
        }
        proof {
            assert(self.workspaces@.take(self.workspaces@.len() as int) == self.workspaces@);
        }
        None
    }

    /// The active workspace metadata, if any.
    pub fn active_meta(&self) -> (r: Option<&WorkspaceMeta>)
        ensures
            match self.active {
                Some(a) => match first_workspace(self.workspaces@, a@) {
                    Some(k) => r == Some(&self.workspaces@[k]),
                    None => r is None,
                },
                None => r is None,
            },
    {
        match &self.active {
            Some(id) => self.find(id.as_str()),
            None => None,
        }
    }
}

} // verus!
