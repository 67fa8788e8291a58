use verve::state::app_state::AppState;
use verve::state::events::AppEvent;
use verve::state::project::Project;
use verve::state::workspace::WorkspaceData;

fn data_with(names: &[&str], active: Option<usize>) -> WorkspaceData {
    let mut d = WorkspaceData::default();
    for n in names {
        d.projects.push(Project::new(n));
    }
    d.active_project_id = active.map(|i| d.projects[i].id.clone());
    d
}

fn ids(s: &AppState) -> Vec<&str> {
    s.open_request_ids.iter().map(|x| x.as_str()).collect()
}

#[test]
fn init_resolves_saved_active_project() {
    let s = AppState::init(Some("ws".to_string()), data_with(&["a", "b", "c"], Some(2)));
    assert_eq!(s.active_project, 2);
    assert_eq!(s.active_project().unwrap().name, "c");
    assert_eq!(s.active_workspace_id.as_deref(), Some("ws"));
    assert!(s.open_request_ids.is_empty());
    assert!(!s.dirty);
}

#[test]
fn init_falls_back_to_first_project() {
    let mut d = data_with(&["a", "b"], None);
    d.active_project_id = Some("gone".to_string());
    let s = AppState::init(None, d);
    assert_eq!(s.active_project, 0);
}

#[test]
fn reload_falls_back_to_last_project_and_resets_tabs() {
    let mut s = AppState::init(None, data_with(&["a"], Some(0)));
    s.open_or_focus_tab("r1");
    s.dirty = true;
    let mut d = data_with(&["x", "y", "z"], None);
    d.active_project_id = Some("gone".to_string());
    s.reload_from_disk(d, Some("other".to_string()));
    assert_eq!(s.active_project, 2);
    assert!(s.open_request_ids.is_empty());
    assert_eq!(s.active_tab_id, None);
    assert_eq!(s.selected_request, None);
    assert!(!s.dirty);
    assert_eq!(s.active_workspace_id.as_deref(), Some("other"));
}

#[test]
fn open_or_focus_appends_once_and_reports_changes() {
    let mut s = AppState::init(None, WorkspaceData::default());
    s.selected_folder = Some("f".to_string());
    assert!(matches!(s.open_or_focus_tab("a"), Some(AppEvent::SelectionChanged)));
    assert!(matches!(s.open_or_focus_tab("b"), Some(AppEvent::SelectionChanged)));
    assert_eq!(ids(&s), vec!["a", "b"]);
    assert_eq!(s.active_tab_id.as_deref(), Some("b"));
    assert_eq!(s.selected_folder, None);
    // Focusing an open but inactive tab reports a change; again, nothing.
    assert!(matches!(s.open_or_focus_tab("a"), Some(AppEvent::SelectionChanged)));
    assert!(s.open_or_focus_tab("a").is_none());
    assert_eq!(ids(&s), vec!["a", "b"]);
    assert_eq!(s.selected_request.as_deref(), Some("a"));
}

#[test]
fn close_active_tab_focuses_previous_neighbour() {
    let mut s = AppState::init(None, WorkspaceData::default());
    for id in ["a", "b", "c"] {
        s.open_or_focus_tab(id);
    }
    s.open_or_focus_tab("b");
    assert!(matches!(s.close_tab("b"), AppEvent::SelectionChanged));
    assert_eq!(ids(&s), vec!["a", "c"]);
    assert_eq!(s.active_tab_id.as_deref(), Some("a"));
    assert_eq!(s.selected_request.as_deref(), Some("a"));
}

#[test]
fn close_first_active_tab_focuses_next() {
    let mut s = AppState::init(None, WorkspaceData::default());
    for id in ["a", "b"] {
        s.open_or_focus_tab(id);
    }
    s.open_or_focus_tab("a");
    s.close_tab("a");
    assert_eq!(ids(&s), vec!["b"]);
    assert_eq!(s.active_tab_id.as_deref(), Some("b"));
}

#[test]
fn close_inactive_tab_keeps_focus_and_last_close_clears() {
    let mut s = AppState::init(None, WorkspaceData::default());
    for id in ["a", "b"] {
        s.open_or_focus_tab(id);
    }
    s.close_tab("a");
    assert_eq!(ids(&s), vec!["b"]);
    assert_eq!(s.active_tab_id.as_deref(), Some("b"));
    s.close_tab("b");
    assert!(s.open_request_ids.is_empty());
    assert_eq!(s.active_tab_id, None);
    assert_eq!(s.selected_request, None);
    // Closing something not open still reports a selection change.
    assert!(matches!(s.close_tab("zzz"), AppEvent::SelectionChanged));
}

#[test]
fn set_active_tab_only_for_open_tabs() {
    let mut s = AppState::init(None, WorkspaceData::default());
    s.open_or_focus_tab("a");
    s.open_or_focus_tab("b");
    assert!(s.set_active_tab("zzz").is_none());
    assert_eq!(s.active_tab_id.as_deref(), Some("b"));
    assert!(s.set_active_tab("b").is_none());
    s.selected_folder = Some("f".to_string());
    assert!(matches!(s.set_active_tab("a"), Some(AppEvent::SelectionChanged)));
    assert_eq!(s.active_tab_id.as_deref(), Some("a"));
    assert_eq!(s.selected_folder, None);
}

#[test]
fn dirty_flag_follows_edits_and_saves() {
    let mut s = AppState::init(None, WorkspaceData::default());
    assert!(matches!(s.notify_edited(), AppEvent::RequestEdited));
    assert!(s.dirty);
    assert!(s.persist(Err("disk full".to_string())).is_none());
    assert!(s.dirty);
    assert!(matches!(s.persist(Ok(())), Some(AppEvent::Persisted)));
    assert!(!s.dirty);
    assert!(matches!(s.notify_workspace(), AppEvent::WorkspaceChanged));
    assert!(s.dirty);
}
