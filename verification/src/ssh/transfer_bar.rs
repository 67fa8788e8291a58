//! What the terminal view shows of a tab's ZMODEM transfer and port forwards:
//! whether the transfer bar is up, its label, and the forwards button label.

use vstd::prelude::*;
use crate::ssh::session::ZmUiState;
use crate::ssh::sftp::{humanize_size, spec_humanize_size};
use crate::ssh::zmodem::ZmRole;
use crate::text::{decimal, push_decimal};

verus! {

/// The transfer bar is up while a transfer runs, and after it ended with
/// success or an error; a cancelled transfer does not show.
pub open spec fn spec_bar_visible(s: ZmUiState) -> bool {
    s.active || (s.done && !s.cancelled) || s.error is Some
}

/// The arrow of a transfer's direction: up for an upload, down for a
/// download.
pub open spec fn role_arrow(role: ZmRole) -> Seq<char> {
    match role {
        ZmRole::SendToRemote => "↑"@,
        ZmRole::ReceiveFromRemote => "↓"@,
    }
}

/// The bar's label: the error, the completion, or the file with its progress
/// as sizes.
pub open spec fn spec_transfer_label(s: ZmUiState) -> Seq<char> {
    match s.error {
        Some(e) => role_arrow(s.role) + " rz/sz 错误: "@ + e@,
        None => if s.done {
            role_arrow(s.role) + " "@ + s.filename@ + " 传输完成"@
        } else {
            role_arrow(s.role) + " "@ + s.filename@ + "  "@ + spec_humanize_size(s.transferred as nat) + " / "@
                + spec_humanize_size(s.total as nat)
        },
    }
}

/// The forwards button's label: the number of running forwards, or the
/// plain title when none runs.
pub open spec fn spec_forwards_label(active_count: nat) -> Seq<char> {
    if active_count > 0 {
        "转发 ("@ + decimal(active_count) + ")"@
    } else {
        "端口转发"@
    }
}

/// Whether the transfer bar is shown for this state.
pub fn bar_visible(s: &ZmUiState) -> (r: bool)
    ensures
        r == spec_bar_visible(*s),
{
    s.active || (s.done && !s.cancelled) || s.error.is_some()
}

/// The transfer bar's label.
pub fn transfer_label(s: &ZmUiState) -> (r: String)
    ensures
        r@ == spec_transfer_label(*s),
{
    let mut out = String::new();
    match s.role {
        ZmRole::SendToRemote => out.append("↑"),
        ZmRole::ReceiveFromRemote => out.append("↓"),
    }
    match &s.error {
        Some(err) => {
            out.append(" rz/sz 错误: ");
            out.append(err.as_str());
        },
        None => {
            out.append(" ");
            out.append(s.filename.as_str());
            if s.done {
                out.append(" 传输完成");
            } else {
                out.append("  ");
                let done_part = humanize_size(s.transferred);
                out.append(done_part.as_str());
                out.append(" / ");
                let total_part = humanize_size(s.total);
                out.append(total_part.as_str());
            }
        },
    }
    out
}

/// The forwards button's label for `active_count` running forwards.
pub fn forwards_label(active_count: usize) -> (r: String)
    ensures
        r@ == spec_forwards_label(active_count as nat),
{
    if active_count > 0 {
        let mut out = String::new();
        out.append("转发 (");
        push_decimal(&mut out, active_count as u64);
        out.append(")");
        out
    } else {
        "端口转发".to_owned()
    }
}

} // verus!
