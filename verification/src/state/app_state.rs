//! The application state the panels share: the loaded workspace, the active
//! project, the selection and the request tabs open in the editor.
//!
//! Each operation returns the event it broadcasts, if any; the caller emits it.

use vstd::prelude::*;
use crate::state::events::AppEvent;
use crate::state::project::{opt_view, string_views, Project};
use crate::state::workspace::WorkspaceData;
use crate::text::str_eq;

verus! {

/// The shared application state.
#[derive(Debug)]
pub struct AppState {
    pub data: WorkspaceData,
    /// Index of the active project in `data.projects`.
    pub active_project: usize,
    /// Id of the active workspace.
    pub active_workspace_id: Option<String>,
    /// Selected request id (across the active project).
    pub selected_request: Option<String>,
    /// Selected folder id; a folder and a request are never both selected by
    /// the tab operations.
    pub selected_folder: Option<String>,
    /// Request ids open as editor tabs, in tab order.
    pub open_request_ids: Vec<String>,
    /// The focused tab.
    pub active_tab_id: Option<String>,
    /// The request currently being sent.
    pub sending: Option<String>,
    /// Unsaved changes; cleared by a successful save.
    pub dirty: bool,
}

/// The tab-related part of the state, strings as char sequences.
pub struct TabsView {
    pub open: Seq<Seq<char>>,
    pub active: Option<Seq<char>>,
    pub selected_request: Option<Seq<char>>,
    pub selected_folder: Option<Seq<char>>,
}

/// The first position of `x` in `s`.
pub open spec fn first_index<A>(s: Seq<A>, x: A) -> Option<int>
    decreases s.len(),
{
    if s.len() == 0 {
        None
    } else {
        match first_index(s.drop_last(), x) {
            Some(i) => Some(i),
            None => if s.last() == x {
                Some(s.len() - 1)
            } else {
                None
            },
        }
    }
}

/// Opening `id`: appended when not open yet, then focused and selected; the
/// folder selection is cleared.
pub open spec fn spec_open_or_focus(t: TabsView, id: Seq<char>) -> TabsView {
    TabsView {
        open: if t.open.contains(id) { t.open } else { t.open.push(id) },
        active: Some(id),
        selected_request: Some(id),
        selected_folder: None,
    }
}

/// Opening emits a selection change unless `id` was already open and focused.
pub open spec fn open_or_focus_emits(t: TabsView, id: Seq<char>) -> bool {
    !(t.open.contains(id) && t.active == Some(id))
}

/// Closing `id`: its first tab is removed; when it was focused, the tab before
/// it (or else the new first tab) is focused and selected. With no tab left
/// nothing is focused or selected.
pub open spec fn spec_close_tab(t: TabsView, id: Seq<char>) -> TabsView {
    let after = match first_index(t.open, id) {
        Some(pos) => {
            let open = t.open.remove(pos);
            if t.active == Some(id) {
                let next = if pos > 0 {
                    Some(open[pos - 1])
                } else if open.len() > 0 {
                    Some(open[0])
                } else {
                    None
                };
                TabsView { open, active: next, selected_request: next, ..t }
            } else {
                TabsView { open, ..t }
            }
        },
        None => t,
    };
    if after.open.len() == 0 {
        TabsView { active: None, selected_request: None, ..after }
    } else {
        after
    }
}

/// Focusing an open tab other than the focused one selects it and clears the
/// folder selection; anything else changes nothing.
pub open spec fn spec_set_active_tab(t: TabsView, id: Seq<char>) -> TabsView {
    if t.open.contains(id) && t.active != Some(id) {
        TabsView { active: Some(id), selected_request: Some(id), selected_folder: None, ..t }
    } else {
        t
    }
}

/// The tabs are consistent: no id is open twice, and the focused tab, when
/// there is one, is open.
pub open spec fn tabs_consistent(t: TabsView) -> bool {
    &&& t.open.no_duplicates()
    &&& (t.active matches Some(a) ==> t.open.contains(a))
}

pub open spec fn project_ids(ps: Seq<Project>) -> Seq<Seq<char>> {
    ps.map_values(|p: Project| p.id@)
}

/// The project position a saved active-project id resolves to.
pub open spec fn resolve_active_project(ps: Seq<Project>, id: Option<String>, fallback: int) -> int {
    match id {
        Some(i) => match first_index(project_ids(ps), i@) {
            Some(pos) => pos,
            None => fallback,
        },
        None => fallback,
    }
}

/// Everything but the tabs and the selection is unchanged.
pub open spec fn same_but_tabs(a: AppState, b: AppState) -> bool {
    &&& a.data == b.data
    &&& a.active_project == b.active_project
    &&& a.active_workspace_id == b.active_workspace_id
    &&& a.sending == b.sending
    &&& a.dirty == b.dirty
}

impl AppState {
    pub open spec fn tabs(&self) -> TabsView {
        TabsView {
            open: string_views(self.open_request_ids@),
            active: opt_view(self.active_tab_id),
            selected_request: opt_view(self.selected_request),
            selected_folder: opt_view(self.selected_folder),
        }
    }
}

proof fn lemma_first_index<A>(s: Seq<A>, x: A)
    ensures
        match first_index(s, x) {
            Some(i) => 0 <= i < s.len() && s[i] == x && forall|j: int| 0 <= j < i ==> s[j] != x,
            None => !s.contains(x),
        },
    decreases s.len(),
{
    if s.len() > 0 {
        let d = s.drop_last();
        lemma_first_index(d, x);
        match first_index(d, x) {
            Some(i) => {
                assert(s[i] == d[i]);
                assert forall|j: int| 0 <= j < i implies s[j] != x by {
                    assert(s[j] == d[j]);
                }
            },
            None => {
                assert forall|j: int| 0 <= j < s.len() - 1 implies s[j] != x by {
                    assert(s[j] == d[j]);
                    if s[j] == x {
                        assert(d.contains(x));
                    }
                }
            },
        }
    }
}

proof fn lemma_remove_no_duplicates(s: Seq<Seq<char>>, pos: int)
    requires
        s.no_duplicates(),
        0 <= pos < s.len(),
    ensures
        s.remove(pos).no_duplicates(),
        !s.remove(pos).contains(s[pos]),
        forall|x: Seq<char>| s.remove(pos).contains(x) ==> s.contains(x),
        forall|x: Seq<char>| s.contains(x) && x != s[pos] ==> s.remove(pos).contains(x),
{
    let r = s.remove(pos);
    assert forall|i: int, j: int| 0 <= i < r.len() && 0 <= j < r.len() && i != j implies r[i] != r[j] by {
        let si = if i < pos { i } else { i + 1 };
        let sj = if j < pos { j } else { j + 1 };
        assert(r[i] == s[si] && r[j] == s[sj]);
    }
    assert forall|k: int| 0 <= k < r.len() implies r[k] != s[pos] by {
        let sk = if k < pos { k } else { k + 1 };
        assert(r[k] == s[sk]);
    }
    assert forall|x: Seq<char>| r.contains(x) implies s.contains(x) by {
        let k = choose|k: int| 0 <= k < r.len() && r[k] == x;
        let sk = if k < pos { k } else { k + 1 };
        assert(r[k] == s[sk]);
    }
    assert forall|x: Seq<char>| s.contains(x) && x != s[pos] implies r.contains(x) by {
        let k = choose|k: int| 0 <= k < s.len() && s[k] == x;
        let rk = if k < pos { k } else { k - 1 };
        assert(r[rk] == s[k]);
    }
}

/// Opening a tab keeps the tabs consistent, and the tab is then open and
/// focused.
pub proof fn law_open_or_focus_keeps_tabs_consistent(t: TabsView, id: Seq<char>)
    requires
        tabs_consistent(t),
    ensures
        tabs_consistent(spec_open_or_focus(t, id)),
        spec_open_or_focus(t, id).open.contains(id),
        spec_open_or_focus(t, id).active == Some(id),
{
    let r = spec_open_or_focus(t, id);
    if !t.open.contains(id) {
        assert(r.open[r.open.len() - 1] == id);
        assert forall|i: int, j: int| 0 <= i < r.open.len() && 0 <= j < r.open.len() && i != j implies r.open[i]
            != r.open[j] by {
            if i < t.open.len() && j < t.open.len() {
                assert(r.open[i] == t.open[i] && r.open[j] == t.open[j]);
            } else if i < t.open.len() {
                assert(r.open[i] == t.open[i]);
            } else if j < t.open.len() {
                assert(r.open[j] == t.open[j]);
            }
        }
    }
}

/// Opening the same request twice is the same as opening it once, and the
/// second opening broadcasts nothing.
pub proof fn law_open_or_focus_idempotent(t: TabsView, id: Seq<char>)
    ensures
        spec_open_or_focus(spec_open_or_focus(t, id), id) == spec_open_or_focus(t, id),
        !open_or_focus_emits(spec_open_or_focus(t, id), id),
{
    let r = spec_open_or_focus(t, id);
    if !t.open.contains(id) {
        assert(r.open[r.open.len() - 1] == id);
    }
    assert(r.open.contains(id));
}

/// Closing a tab keeps the tabs consistent and leaves that request closed.
pub proof fn law_close_tab_keeps_tabs_consistent(t: TabsView, id: Seq<char>)
    requires
        tabs_consistent(t),
    ensures
        tabs_consistent(spec_close_tab(t, id)),
        !spec_close_tab(t, id).open.contains(id),
{
    lemma_first_index(t.open, id);
    match first_index(t.open, id) {
        Some(pos) => {
            lemma_remove_no_duplicates(t.open, pos);
            let open = t.open.remove(pos);
            if pos > 0 {
                assert(open.contains(open[pos - 1]));
            } else if open.len() > 0 {
                assert(open.contains(open[0]));
            }
        },
        None => {},
    }
}

/// Focusing a tab keeps the tabs consistent.
pub proof fn law_set_active_tab_keeps_tabs_consistent(t: TabsView, id: Seq<char>)
    requires
        tabs_consistent(t),
    ensures
        tabs_consistent(spec_set_active_tab(t, id)),
{
}

/// Opening a request that was not open and closing it again gives back the
/// same open tabs.
pub proof fn law_close_undoes_open(t: TabsView, id: Seq<char>)
    requires
        !t.open.contains(id),
    ensures
        spec_close_tab(spec_open_or_focus(t, id), id).open == t.open,
{
    let o = spec_open_or_focus(t, id).open;
    assert(o == t.open.push(id));
    lemma_first_index(o, id);
    match first_index(o, id) {
        Some(pos) => {
            if pos < t.open.len() {
                assert(o[pos] == t.open[pos]);
                assert(t.open.contains(id));
            }
            assert(o.remove(pos) =~= t.open);
        },
        None => {
            assert(o[o.len() - 1] == id);
        },
    }
}

proof fn lemma_first_index_at<A>(s: Seq<A>, x: A, i: int)
    requires
        0 <= i < s.len(),
        s[i] == x,
        forall|j: int| 0 <= j < i ==> s[j] != x,
    ensures
        first_index(s, x) == Some(i),
{
    lemma_first_index(s, x);
    match first_index(s, x) {
        Some(k) => {
            if k < i {
                assert(s[k] == x);
            } else if k > i {
                assert(s[i] != x);
            }
        },
        None => {
            assert(s.contains(x));
        },
    }
}

fn position_of(v: &Vec<String>, id: &str) -> (r: Option<usize>)
    ensures
        r matches Some(k) ==> first_index(string_views(v@), id@) == Some(k as int) && k < v@.len(),
        r is None ==> first_index(string_views(v@), id@) is None,
{
    let ghost sv = string_views(v@);
    proof {
        lemma_first_index(sv, id@);
    }
    let mut i: usize = 0;
    while i < v.len()
        invariant
            i <= v@.len(),
            sv == string_views(v@),
            forall|j: int| 0 <= j < i ==> sv[j] != id@,
        decreases v.len() - i,
    {
        if str_eq(v[i].as_str(), id) {
            proof {
                lemma_first_index_at(sv, id@, i as int);
            }
            return Some(i);
        }
        i = i + 1;
    }
    proof {
        lemma_first_index(sv, id@);
        if first_index(sv, id@) is Some {
            let k = first_index(sv, id@)->0;
            assert(sv[k] == id@);
        }
    }
    None
}

fn project_position_of(ps: &Vec<Project>, id: &str) -> (r: Option<usize>)
    ensures
        r matches Some(k) ==> first_index(project_ids(ps@), id@) == Some(k as int) && k < ps@.len(),
        r is None ==> first_index(project_ids(ps@), id@) is None,
{
    let ghost ids = project_ids(ps@);
    proof {
        lemma_first_index(ids, id@);
    }
    let mut i: usize = 0;
    while i < ps.len()
        invariant
            i <= ps@.len(),
            ids == project_ids(ps@),
            forall|j: int| 0 <= j < i ==> ids[j] != id@,
        decreases ps.len() - i,
    {
        if str_eq(ps[i].id.as_str(), id) {
            proof {
                lemma_first_index_at(ids, id@, i as int);
            }
            return Some(i);
        }
        i = i + 1;
    }
    proof {
        lemma_first_index(ids, id@);
        if first_index(ids, id@) is Some {
            let k = first_index(ids, id@)->0;
            assert(ids[k] == id@);
        }
    }
    None
}

fn resolve_project(ps: &Vec<Project>, id: &Option<String>, fallback: usize) -> (r: usize)
    ensures
        r == resolve_active_project(ps@, *id, fallback as int),
{
    match id {
        Some(i) => match project_position_of(ps, i.as_str()) {
            Some(pos) => pos,
            None => fallback,
        },
        None => fallback,
    }
}

fn clone_opt(s: &Option<String>) -> (r: Option<String>)
    ensures
        opt_view(r) == opt_view(*s),
{
    match s {
        Some(v) => Some(v.clone()),
        None => None,
    }
}

fn is_some_eq(s: &Option<String>, id: &str) -> (r: bool)
    ensures
        r == (opt_view(*s) == Some(id@)),
{
    match s {
        Some(v) => str_eq(v.as_str(), id),
        None => false,
    }
}

impl AppState {
    /// The start-up state for loaded workspace `data`: the saved active project
    /// (the first project when it is unset or gone), nothing selected or open.
    pub fn init(active_workspace_id: Option<String>, data: WorkspaceData) -> (r: Self)
        ensures
            r.data == data,
            r.active_workspace_id == active_workspace_id,
            r.active_project == resolve_active_project(data.projects@, data.active_project_id, 0),
            r.tabs() == (TabsView { open: Seq::empty(), active: None, selected_request: None, selected_folder: None }),
            r.sending is None,
            !r.dirty,
    {
        let active_project = resolve_project(&data.projects, &data.active_project_id, 0);
        let r = AppState {
            data,
            active_project,
            active_workspace_id,
            selected_request: None,
            selected_folder: None,
            open_request_ids: Vec::new(),
            active_tab_id: None,
            sending: None,
            dirty: false,
        };
        assert(r.tabs().open =~= Seq::<Seq<char>>::empty());
        r
    }

    /// The active project, when the index is in range.
    pub fn active_project(&self) -> (r: Option<&Project>)
        ensures
            r == (if self.active_project < self.data.projects@.len() {
                Some(&self.data.projects@[self.active_project as int])
            } else {
                None
            }),
    {
        if self.active_project < self.data.projects.len() {
            Some(&self.data.projects[self.active_project])
        } else {
            None
        }
    }

    /// Opens request `id` as a tab, or focuses it when already open. Returns
    /// the selection-change event unless it was already the focused tab.
    pub fn open_or_focus_tab(&mut self, id: &str) -> (r: Option<AppEvent>)
        ensures
            final(self).tabs() == spec_open_or_focus(old(self).tabs(), id@),
            same_but_tabs(*final(self), *old(self)),
            r == (if open_or_focus_emits(old(self).tabs(), id@) {
                Some(AppEvent::SelectionChanged)
            } else {
                None
            }),
    {
        let ghost t = self.tabs();
        self.selected_folder = None;
        let pos = position_of(&self.open_request_ids, id);
        proof {
            lemma_first_index(t.open, id@);
            if first_index(t.open, id@) is Some {
                let k = first_index(t.open, id@)->0;
                assert(t.open[k] == id@);
            }
        }
        let is_new = pos.is_none();
        if is_new {
            self.open_request_ids.push(id.to_owned());
            assert(string_views(self.open_request_ids@) =~= t.open.push(id@));
        }
        let already_active = is_some_eq(&self.active_tab_id, id);
        self.active_tab_id = Some(id.to_owned());
        self.selected_request = Some(id.to_owned());
        if is_new || !already_active {
            Some(AppEvent::SelectionChanged)
        } else {
            None
        }
    }

    /// Closes tab `id`. When it was focused, the tab before it (else the new
    /// first tab) takes focus and selection; with no tab left nothing is
    /// focused or selected. Always broadcasts a selection change.
    pub fn close_tab(&mut self, id: &str) -> (r: AppEvent)
        ensures
            final(self).tabs() == spec_close_tab(old(self).tabs(), id@),
            same_but_tabs(*final(self), *old(self)),
            r == AppEvent::SelectionChanged,
    {
        let ghost t = self.tabs();
        match position_of(&self.open_request_ids, id) {
            Some(pos) => {
                self.open_request_ids.remove(pos);
                assert(string_views(self.open_request_ids@) =~= t.open.remove(pos as int));
                if is_some_eq(&self.active_tab_id, id) {
                    let next: Option<String> = if pos > 0 {
                        Some(self.open_request_ids[pos - 1].clone())
                    } else if self.open_request_ids.len() > 0 {
                        Some(self.open_request_ids[0].clone())
                    } else {
                        None
                    };
                    self.selected_request = clone_opt(&next);
                    self.active_tab_id = next;
                }
            },
            None => {},
        }
        if self.open_request_ids.len() == 0 {
            self.active_tab_id = None;
            self.selected_request = None;
        }
        AppEvent::SelectionChanged
    }

    /// Focuses the already-open tab `id` (a request that is not open is not
    /// added). Broadcasts a selection change when the focus moved.
    pub fn set_active_tab(&mut self, id: &str) -> (r: Option<AppEvent>)
        ensures
            final(self).tabs() == spec_set_active_tab(old(self).tabs(), id@),
            same_but_tabs(*final(self), *old(self)),
            r == (if old(self).tabs().open.contains(id@) && old(self).tabs().active != Some(id@) {
                Some(AppEvent::SelectionChanged)
            } else {
                None
            }),
    {
        let ghost t = self.tabs();
        let pos = position_of(&self.open_request_ids, id);
        proof {
            lemma_first_index(t.open, id@);
            if first_index(t.open, id@) is Some {
                let k = first_index(t.open, id@)->0;
                assert(t.open[k] == id@);
            }
        }
        if pos.is_some() {
            if !is_some_eq(&self.active_tab_id, id) {
                self.active_tab_id = Some(id.to_owned());
                self.selected_request = Some(id.to_owned());
                self.selected_folder = None;
                return Some(AppEvent::SelectionChanged);
            }
        }
        None
    }

    /// Replaces the data with freshly loaded `data` (another workspace was
    /// checked out): the saved active project, or the last project when it is
    /// gone; the selection, tabs, sending request and dirty flag are reset.
    pub fn reload_from_disk(&mut self, data: WorkspaceData, active_workspace_id: Option<String>)
        ensures
            final(self).data == data,
            final(self).active_workspace_id == active_workspace_id,
            final(self).active_project == resolve_active_project(
                data.projects@,
                data.active_project_id,
                if data.projects@.len() > 0 { data.projects@.len() - 1 } else { 0 },
            ),
            final(self).tabs() == (TabsView {
                open: Seq::empty(),
                active: None,
                selected_request: None,
                selected_folder: None,
            }),
            final(self).sending is None,
            !final(self).dirty,
    {
        let fallback: usize = if data.projects.len() > 0 { data.projects.len() - 1 } else { 0 };
        self.active_project = resolve_project(&data.projects, &data.active_project_id, fallback);
        self.data = data;
        self.active_workspace_id = active_workspace_id;
        self.selected_request = None;
        self.selected_folder = None;
        self.open_request_ids = Vec::new();
        self.active_tab_id = None;
        self.sending = None;
        self.dirty = false;
        assert(self.tabs().open =~= Seq::<Seq<char>>::empty());
    }

    /// Marks the workspace changed: dirty, and the structural-change event.
    pub fn notify_workspace(&mut self) -> (r: AppEvent)
        ensures
            *final(self) == (AppState { dirty: true, ..*old(self) }),
            r == AppEvent::WorkspaceChanged,
    {
        self.dirty = true;
        AppEvent::WorkspaceChanged
    }

    /// Marks a request edited: dirty, and the edit event (the caller then
    /// schedules a debounced save).
    pub fn notify_edited(&mut self) -> (r: AppEvent)
        ensures
            *final(self) == (AppState { dirty: true, ..*old(self) }),
            r == AppEvent::RequestEdited,
    {
        self.dirty = true;
        AppEvent::RequestEdited
    }

    /// Records the outcome of saving to disk: on success the state is clean
    /// and the persisted event is broadcast; a failure changes nothing.
    pub fn persist(&mut self, saved: Result<(), String>) -> (r: Option<AppEvent>)
        ensures
            saved is Ok ==> *final(self) == (AppState { dirty: false, ..*old(self) }) && r
                == Some(AppEvent::Persisted),
            saved is Err ==> *final(self) == *old(self) && r is None,
    {
        match saved {
            Ok(()) => {
                self.dirty = false;
                Some(AppEvent::Persisted)
            },
            Err(_) => None,
        }
    }
}

} // verus!
