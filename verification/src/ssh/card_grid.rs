//! What the host card grid reads off the panel's state: which hosts have a
//! live session, and the name shown for a bastion a host goes through.

use vstd::prelude::*;
use crate::ssh::host_store::{find_host, spec_find_host};
use crate::ssh::models::{hosts_view, SshHost};
use crate::ssh::session::{SessionStatus, SessionTab, SessionTabs};
use crate::text::str_eq;

verus! {

/// Some tab of `tabs` is connected to host `host_id`.
pub open spec fn spec_host_connected(tabs: Seq<SessionTab>, host_id: Seq<char>) -> bool {
    exists|i: int| 0 <= i < tabs.len() && (#[trigger] tabs[i]).status is Connected && tabs[i].host_id@ == host_id
}

/// The name shown for host `id`: its name, or a placeholder when the host was
/// deleted.
pub open spec fn spec_host_display_name(hosts: Seq<SshHost>, id: Seq<char>) -> Seq<char> {
    match spec_find_host(hosts_view(hosts), id) {
        Some(h) => h.name,
        None => "(已删除)"@,
    }
}

impl SessionTabs {
    /// Whether a tab is connected to this host (its card gets the live dot).
    pub fn host_connected(&self, host_id: &str) -> (r: bool)
        ensures
            r == spec_host_connected(self.sessions@, host_id@),
    {
        let mut i: usize = 0;
        while i < self.sessions.len()
            invariant
                i <= self.sessions@.len(),
                forall|j: int| 0 <= j < i ==> !((#[trigger] self.sessions@[j]).status is Connected
                    && self.sessions@[j].host_id@ == host_id@),
            decreases self.sessions.len() - i,
        {
            let tab = &self.sessions[i];
            let connected = match tab.status {
                SessionStatus::Connected => true,
                _ => false,
            };
            if connected && str_eq(tab.host_id.as_str(), host_id) {
                assert(self.sessions@[i as int] == *tab);
                return true;
            }
            i = i + 1;
        }
        false
    }
}

/// The name shown for host `id` (a bastion on a card): the host's name, or
/// `(已删除)` when no host has that id.
pub fn host_display_name(hosts: &Vec<SshHost>, id: &str) -> (r: String)
    ensures
        r@ == spec_host_display_name(hosts@, id@),
{
    match find_host(hosts, id) {
        Some(h) => h.name,
        None => "(已删除)".to_owned(),
    }
}

} // verus!
