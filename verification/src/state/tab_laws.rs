//! Closing a request tab in the background: the focused tab and the selected
//! request stay where they were.

use vstd::prelude::*;
use crate::state::app_state::{TabsView, first_index, law_close_tab_keeps_tabs_consistent, spec_close_tab, tabs_consistent};

verus! {

/// Closing a tab that is not the focused one, while some tab stays open,
/// leaves the focused tab, the selected request and the selected folder as
/// they were; only the closed tab leaves the open list.
pub proof fn law_close_background_tab_keeps_focus(t: TabsView, id: Seq<char>)
    requires
        t.active != Some(id),
        spec_close_tab(t, id).open.len() > 0,
    ensures
        spec_close_tab(t, id).active == t.active,
        spec_close_tab(t, id).selected_request == t.selected_request,
        spec_close_tab(t, id).selected_folder == t.selected_folder,
{
}

/// Closing the focused tab while others stay open focuses and selects one
/// of the other tabs that were open; the closed one is no longer open.
pub proof fn law_close_focused_tab_focuses_another(t: TabsView, id: Seq<char>)
    requires
        tabs_consistent(t),
        t.active == Some(id),
        t.open.len() > 1,
    ensures
        spec_close_tab(t, id).active matches Some(x) && x != id && t.open.contains(x),
        spec_close_tab(t, id).selected_request == spec_close_tab(t, id).active,
        spec_close_tab(t, id).open.len() == t.open.len() - 1,
{
    law_close_tab_keeps_tabs_consistent(t, id);
    let pos = choose|k: int| 0 <= k < t.open.len() && t.open[k] == id;
    lemma_first_index_found(t.open, id, pos);
    let p = first_index(t.open, id).unwrap();
    let open = t.open.remove(p);
    let r = spec_close_tab(t, id);
    assert(r.open == open);
    if let Some(x) = r.active {
        let k = choose|k: int| 0 <= k < open.len() && open[k] == x;
        if k < p {
            assert(t.open[k] == x);
        } else {
            assert(t.open[k + 1] == x);
        }
    }
}

proof fn lemma_first_index_found<A>(s: Seq<A>, x: A, i: int)
    requires
        0 <= i < s.len(),
        s[i] == x,
    ensures
        first_index(s, x) matches Some(k) && 0 <= k < s.len() && s[k] == x,
{
    lemma_first_index_sound(s, x);
    if first_index(s, x) is None {
        lemma_first_index_none(s, x, i);
    }
}

proof fn lemma_first_index_sound<A>(s: Seq<A>, x: A)
    ensures
        first_index(s, x) matches Some(k) ==> 0 <= k < s.len() && s[k] == x,
    decreases s.len(),
{
    if s.len() > 0 {
        lemma_first_index_sound(s.drop_last(), x);
        if let Some(k) = first_index(s.drop_last(), x) {
            assert(s[k] == s.drop_last()[k]);
        }
    }
}

proof fn lemma_first_index_none<A>(s: Seq<A>, x: A, i: int)
    requires
        0 <= i < s.len(),
        s[i] == x,
    ensures
        first_index(s, x) is Some,
    decreases s.len(),
{
    if i < s.len() - 1 {
        assert(s.drop_last()[i] == x);
        lemma_first_index_none(s.drop_last(), x, i);
    }
}

} // verus!
