//! Change notifications the application state broadcasts to its panels.

use vstd::prelude::*;

verus! {

/// What changed in the application state.
#[derive(Debug)]
pub enum AppEvent {
    /// Projects, folders or requests changed: persist and refresh the tree.
    WorkspaceChanged,
    /// Another workspace was loaded: panels re-seed completely.
    WorkspaceSwitched,
    /// The selected request changed.
    SelectionChanged,
    /// A request's editable fields changed (debounced persist).
    RequestEdited,
    /// A response arrived for the request with this id.
    ResponseUpdated(String),
    /// The active environment changed.
    EnvironmentChanged,
    /// Toggle the theme.
    ToggleTheme,
    /// Scroll the tree to the active request.
    LocateActive,
    /// Share the API document of the request with this id.
    ShareRequest(String),
    /// A save to disk just completed.
    Persisted,
}

} // verus!
