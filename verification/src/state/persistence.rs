//! The decisions behind the settings files: defaults for missing or invalid
//! saved values, the values written back, and the workspace-index repair.
//! Reading and writing the files themselves happens outside the library.

use vstd::prelude::*;
use crate::state::enums::IfaceColumn;
use crate::state::kv::copy_opt_string;
use crate::state::workspace::{WorkspaceMeta, WorkspacesIndex};
use crate::text::str_contains;
use crate::text::contains_seq;
use crate::state::project::string_views;

verus! {

/// After-send autosave mode for response examples.
#[derive(Debug, Clone, Copy, PartialEq, Eq, Structural)]
pub enum AutoSaveMode {
    /// Do not autosave (default).
    Off,
    /// Autosave successful responses (2xx/3xx) as the success example.
    SaveSuccess,
    /// Autosave failed responses (4xx/5xx/errors) as failure examples.
    SaveFailure,
    /// Autosave both.
    SaveBoth,
}

impl Default for AutoSaveMode {
    fn default() -> (r: Self)
        ensures
            r == AutoSaveMode::Off,
    {
        AutoSaveMode::Off
    }
}

impl AutoSaveMode {
    /// The stored code of a mode.
    pub open spec fn code(self) -> u8 {
        match self {
            AutoSaveMode::Off => 0,
            AutoSaveMode::SaveSuccess => 1,
            AutoSaveMode::SaveFailure => 2,
            AutoSaveMode::SaveBoth => 3,
        }
    }

    /// The mode a stored code denotes; unknown codes mean `Off`.
    pub open spec fn spec_from_u8(v: u8) -> AutoSaveMode {
        if v == 1 {
            AutoSaveMode::SaveSuccess
        } else if v == 2 {
            AutoSaveMode::SaveFailure
        } else if v == 3 {
            AutoSaveMode::SaveBoth
        } else {
            AutoSaveMode::Off
        }
    }

    pub fn from_u8(v: u8) -> (r: Self)
        ensures
            r == Self::spec_from_u8(v),
    {
        match v {
            1 => AutoSaveMode::SaveSuccess,
            2 => AutoSaveMode::SaveFailure,
            3 => AutoSaveMode::SaveBoth,
            _ => AutoSaveMode::Off,
        }
    }

    pub fn to_u8(self) -> (r: u8)
        ensures
            r == self.code(),
    {
        match self {
            AutoSaveMode::Off => 0,
            AutoSaveMode::SaveSuccess => 1,
            AutoSaveMode::SaveFailure => 2,
            AutoSaveMode::SaveBoth => 3,
        }
    }

    /// Whether this mode saves successful responses as the success example.
    pub fn saves_success(self) -> (r: bool)
        ensures
            r == (self == AutoSaveMode::SaveSuccess || self == AutoSaveMode::SaveBoth),
    {
        matches!(self, AutoSaveMode::SaveSuccess | AutoSaveMode::SaveBoth)
    }

    /// Whether this mode saves failed responses as failure examples.
    pub fn saves_failure(self) -> (r: bool)
        ensures
            r == (self == AutoSaveMode::SaveFailure || self == AutoSaveMode::SaveBoth),
    {
        matches!(self, AutoSaveMode::SaveFailure | AutoSaveMode::SaveBoth)
    }

    /// The label shown in settings.
    pub open spec fn spec_label(self) -> Seq<char> {
        match self {
            AutoSaveMode::Off => "不保存（默认）"@,
            AutoSaveMode::SaveSuccess => "自动保存到成功示例"@,
            AutoSaveMode::SaveFailure => "自动保存到失败示例"@,
            AutoSaveMode::SaveBoth => "同时自动保存到成功和失败示例"@,
        }
    }

    pub fn label(self) -> (r: &'static str)
        ensures
            r@ == self.spec_label(),
    {
        match self {
            AutoSaveMode::Off => "不保存（默认）",
            AutoSaveMode::SaveSuccess => "自动保存到成功示例",
            AutoSaveMode::SaveFailure => "自动保存到失败示例",
            AutoSaveMode::SaveBoth => "同时自动保存到成功和失败示例",
        }
    }
}

/// A mode stored and read back is the same mode.
pub proof fn law_autosave_code_round_trip(m: AutoSaveMode)
    ensures
        AutoSaveMode::spec_from_u8(m.code()) == m,
{
}

/// The saved autosave mode, or `Off` when none was saved.
pub fn load_autosave_mode(saved: Option<u8>) -> (r: AutoSaveMode)
    ensures
        r == match saved {
            Some(v) => AutoSaveMode::spec_from_u8(v),
            None => AutoSaveMode::Off,
        },
{
    match saved {
        Some(v) => AutoSaveMode::from_u8(v),
        None => AutoSaveMode::Off,
    }
}

/// The code stored for an autosave mode.
pub fn save_autosave_mode(mode: AutoSaveMode) -> (r: u8)
    ensures
        r == mode.code(),
{
    mode.to_u8()
}

/// Persisted Git integration settings.
#[derive(Debug)]
pub struct GitConfig {
    pub auto_commit: bool,
    pub auto_push: bool,
    pub remote: Option<String>,
    pub username: String,
    pub token: String,
    /// Auto-sync interval in minutes; `None` means the default.
    pub sync_interval_minutes: Option<u32>,
}

impl Default for GitConfig {
    fn default() -> (r: Self)
        ensures
            !r.auto_commit,
            !r.auto_push,
            r.remote is None,
            r.username@.len() == 0,
            r.token@.len() == 0,
            r.sync_interval_minutes is None,
    {
        GitConfig {
            auto_commit: false,
            auto_push: false,
            remote: None,
            username: String::new(),
            token: String::new(),
            sync_interval_minutes: None,
        }
    }
}

impl GitConfig {
    /// A field-by-field copy.
    pub fn duplicate(&self) -> (r: Self)
        ensures
            r == *self,
    {
        GitConfig {
            auto_commit: self.auto_commit,
            auto_push: self.auto_push,
            remote: copy_opt_string(&self.remote),
            username: self.username.clone(),
            token: self.token.clone(),
            sync_interval_minutes: self.sync_interval_minutes,
        }
    }
}

/// Default auto-sync interval: 30 minutes.
pub const DEFAULT_SYNC_INTERVAL_MINUTES: u32 = 30;

/// The saved git config, or the defaults for a fresh install: auto-commit
/// on, auto-push off, no remote, no credentials, default interval.
pub fn load_git_config(saved: Option<&GitConfig>) -> (r: GitConfig)
    ensures
        match saved {
            Some(c) => r == *c,
            None => r.auto_commit && !r.auto_push && r.remote is None && r.username@.len() == 0
                && r.token@.len() == 0 && r.sync_interval_minutes is None,
        },
{
    match saved {
        Some(c) => c.duplicate(),
        None => GitConfig {
            auto_commit: true,
            auto_push: false,
            remote: None,
            username: String::new(),
            token: String::new(),
            sync_interval_minutes: None,
        },
    }
}

/// The configured auto-sync interval in minutes (default 30).
pub fn load_sync_interval_minutes(cfg: &GitConfig) -> (r: u32)
    ensures
        r == match cfg.sync_interval_minutes {
            Some(m) => m,
            None => DEFAULT_SYNC_INTERVAL_MINUTES,
        },
{
    match cfg.sync_interval_minutes {
        Some(m) => m,
        None => DEFAULT_SYNC_INTERVAL_MINUTES,
    }
}

/// Records the auto-sync interval in the git config.
pub fn save_sync_interval_minutes(cfg: &mut GitConfig, minutes: u32)
    ensures
        final(cfg).sync_interval_minutes == Some(minutes),
        final(cfg).auto_commit == old(cfg).auto_commit,
        final(cfg).auto_push == old(cfg).auto_push,
        final(cfg).remote == old(cfg).remote,
        final(cfg).username == old(cfg).username,
        final(cfg).token == old(cfg).token,
{
    cfg.sync_interval_minutes = Some(minutes);
}

/// The columns named by the saved keys (unknown keys dropped), or the
/// default set when nothing valid was saved.
pub open spec fn spec_columns_from(names: Seq<Seq<char>>) -> Seq<IfaceColumn>
    decreases names.len(),
{
    if names.len() == 0 {
        Seq::empty()
    } else {
        match IfaceColumn::spec_parse(names.last()) {
            Some(c) => spec_columns_from(names.drop_last()).push(c),
            None => spec_columns_from(names.drop_last()),
        }
    }
}

/// The user's interface-list columns from the saved column keys, falling back
/// to the defaults when unset or when no saved key is valid.
pub fn load_iface_columns(saved: Option<&Vec<String>>) -> (r: Vec<IfaceColumn>)
    ensures
        r@ == match saved {
            Some(names) => {
                let parsed = spec_columns_from(names@.map_values(|s: String| s@));
                if parsed.len() == 0 {
                    IfaceColumn::spec_defaults()
                } else {
                    parsed
                }
            },
            None => IfaceColumn::spec_defaults(),
        },
{
    match saved {
        Some(names) => {
            let ghost views = names@.map_values(|s: String| s@);
            let mut parsed: Vec<IfaceColumn> = Vec::new();
            let mut i: usize = 0;
            while i < names.len()
                invariant
                    i <= names@.len(),
                    views == names@.map_values(|s: String| s@),
                    parsed@ == spec_columns_from(views.take(i as int)),
                decreases names.len() - i,
            {
                proof {
                    assert(views.take(i + 1).drop_last() =~= views.take(i as int));
                    assert(views.take(i + 1).last() == names@[i as int]@);
                }
                match IfaceColumn::parse(names[i].as_str()) {
                    Some(c) => parsed.push(c),
                    None => {},
                }
                i = i + 1;
            }
            proof {
                assert(views.take(views.len() as int) == views);
            }
            if parsed.len() == 0 {
                IfaceColumn::defaults()
            } else {
                parsed
            }
        },
        None => IfaceColumn::defaults(),
    }
}

/// The keys saved for a list of columns.
pub fn save_iface_columns(cols: &[IfaceColumn]) -> (r: Vec<String>)
    ensures
        r@.map_values(|s: String| s@) == cols@.map_values(|c: IfaceColumn| c.key()),
{
    let mut out: Vec<String> = Vec::new();
    let mut i: usize = 0;
    while i < cols.len()
        invariant
            i <= cols@.len(),
            out@.map_values(|s: String| s@) == cols@.take(i as int).map_values(|c: IfaceColumn| c.key()),
        decreases cols.len() - i,
    {
        let ghost before = out@;
        out.push(cols[i].as_key().to_owned());
        proof {
            assert(out@.map_values(|s: String| s@) =~= before.map_values(|s: String| s@).push(cols@[i as int].key()));
            assert(cols@.take(i + 1).map_values(|c: IfaceColumn| c.key()) =~= cols@.take(i as int).map_values(
                |c: IfaceColumn| c.key(),
            ).push(cols@[i as int].key()));
        }
        i = i + 1;
    }
    assert(cols@.take(cols@.len() as int) == cols@);
    out
}

proof fn lemma_lower_keeps(s: Seq<char>)
    requires
        forall|i: int| 0 <= i < s.len() ==> !('A' <= #[trigger] s[i] && s[i] <= 'Z'),
    ensures
        crate::text::lower(s) == s,
{
    assert(crate::text::lower(s) =~= s);
}

proof fn lemma_key_parse(c: IfaceColumn)
    ensures
        IfaceColumn::spec_parse(c.key()) == Some(c),
{
    reveal_strlit("name");
    reveal_strlit("method");
    reveal_strlit("path");
    reveal_strlit("folder");
    reveal_strlit("createdby");
    reveal_strlit("createdat");
    reveal_strlit("updatedby");
    reveal_strlit("updatedat");
    reveal_strlit("status");
    reveal_strlit("tags");
    lemma_lower_keeps(c.key());
    // The keys differ in their first letter, or else in the eighth.
    assert("name"@[0] == 'n' && "method"@[0] == 'm' && "path"@[0] == 'p');
    assert("folder"@[0] == 'f' && "status"@[0] == 's' && "tags"@[0] == 't');
    assert("createdby"@[0] == 'c' && "createdat"@[0] == 'c');
    assert("updatedby"@[0] == 'u' && "updatedat"@[0] == 'u');
    assert("createdby"@[7] == 'b' && "createdat"@[7] == 'a');
    assert("updatedby"@[7] == 'b' && "updatedat"@[7] == 'a');
}

proof fn lemma_columns_round_trip(cols: Seq<IfaceColumn>)
    ensures
        spec_columns_from(cols.map_values(|c: IfaceColumn| c.key())) == cols,
    decreases cols.len(),
{
    if cols.len() > 0 {
        let ks = cols.map_values(|c: IfaceColumn| c.key());
        assert(ks.drop_last() =~= cols.drop_last().map_values(|c: IfaceColumn| c.key()));
        lemma_columns_round_trip(cols.drop_last());
        lemma_key_parse(cols.last());
        assert(cols.drop_last().push(cols.last()) =~= cols);
    } else {
        assert(cols.map_values(|c: IfaceColumn| c.key()) =~= Seq::<Seq<char>>::empty());
    }
}

/// A non-empty column choice that is saved and loaded back is the same
/// choice, in the same order.
pub proof fn law_iface_columns_round_trip(cols: Seq<IfaceColumn>)
    requires
        cols.len() > 0,
    ensures
        spec_columns_from(cols.map_values(|c: IfaceColumn| c.key())) == cols,
{
    lemma_columns_round_trip(cols);
}

/// The hidden activity-rail views, as a set: the saved names, each once (an
/// explicit empty list means nothing is hidden); when never customized,
/// only `History`.
pub fn load_hidden_rails(saved: Option<&Vec<String>>) -> (r: Vec<String>)
    ensures
        string_views(r@).no_duplicates(),
        forall|x: Seq<char>| #[trigger] string_views(r@).contains(x) <==> match saved {
            Some(v) => string_views(v@).contains(x),
            None => x == "History"@,
        },
{
    match saved {
        Some(v) => {
            let ghost src = string_views(v@);
            let mut out: Vec<String> = Vec::new();
            let mut i: usize = 0;
            while i < v.len()
                invariant
                    i <= v@.len(),
                    src == string_views(v@),
                    string_views(out@).no_duplicates(),
                    forall|x: Seq<char>| #[trigger] string_views(out@).contains(x)
                        <==> src.take(i as int).contains(x),
                decreases v.len() - i,
            {
                let ghost ov = string_views(out@);
                let mut seen = false;
                let mut j: usize = 0;
                while j < out.len()
                    invariant
                        j <= out@.len(),
                        ov == string_views(out@),
                        i < v@.len(),
                        seen <==> exists|k: int| 0 <= k < j && ov[k] == v@[i as int]@,
                    decreases out.len() - j,
                {
                    assert(ov[j as int] == out@[j as int]@);
                    if crate::text::str_eq(out[j].as_str(), v[i].as_str()) {
                        seen = true;
                    }
                    j = j + 1;
                }
                let ghost vi = v@[i as int]@;
                proof {
                    assert(src[i as int] == vi);
                    assert(src.take(i + 1) =~= src.take(i as int).push(vi));
                    if seen {
                        let k = choose|k: int| 0 <= k < out@.len() && ov[k] == vi;
                        assert(ov.contains(vi));
                        assert forall|x: Seq<char>| #[trigger] ov.contains(x) <==> src.take(i + 1).contains(x) by {
                            if x == vi {
                                assert(src.take(i + 1)[i as int] == vi);
                            } else if src.take(i + 1).contains(x) {
                                let t1 = src.take(i + 1);
                                let k2 = choose|k2: int| 0 <= k2 < t1.len() && t1[k2] == x;
                                assert(src.take(i as int)[k2] == x);
                            }
                        }
                    } else {
                        assert(!ov.contains(vi));
                    }
                }
                if !seen {
                    out.push(v[i].clone());
                    proof {
                        assert(string_views(out@) =~= ov.push(vi));
                        assert forall|x: Seq<char>| #[trigger] string_views(out@).contains(x) <==> src.take(i + 1).contains(x) by {
                            if x == vi {
                                assert(src.take(i + 1)[i as int] == vi);
                                assert(string_views(out@)[ov.len() as int] == vi);
                            } else {
                                if src.take(i + 1).contains(x) {
                                    let t1 = src.take(i + 1);
                                let k2 = choose|k2: int| 0 <= k2 < t1.len() && t1[k2] == x;
                                    assert(src.take(i as int)[k2] == x);
                                    assert(ov.contains(x));
                                    let k3 = choose|k3: int| 0 <= k3 < ov.len() && ov[k3] == x;
                                    assert(string_views(out@)[k3] == x);
                                }
                                if string_views(out@).contains(x) {
                                    let ow = string_views(out@);
                                    let k4 = choose|k4: int| 0 <= k4 < ow.len() && ow[k4] == x;
                                    assert(ov[k4] == x);
                                    assert(ov.contains(x));
                                    assert(src.take(i as int).contains(x));
                                    let t0 = src.take(i as int);
                                    let k5 = choose|k5: int| 0 <= k5 < t0.len() && t0[k5] == x;
                                    assert(src.take(i + 1)[k5] == x);
                                }
                            }
                        }
                    }
                }
                i = i + 1;
            }
            proof {
                assert(src.take(v@.len() as int) =~= src);
                assert(src == string_views(v@));
                assert forall|x: Seq<char>| #[trigger] string_views(out@).contains(x) <==> string_views(v@).contains(x) by {
                    assert(string_views(out@).contains(x) <==> src.take(v@.len() as int).contains(x));
                }
            }
            out
        },
        None => {
            let out = vec!["History".to_owned()];
            assert(string_views(out@) =~= seq!["History"@]);
            assert forall|x: Seq<char>| #[trigger] string_views(out@).contains(x) <==> x == "History"@ by {
                if x == "History"@ {
                    assert(string_views(out@)[0] == x);
                }
            }
            out
        },
    }
}

fn copy_strings(v: &Vec<String>) -> (r: Vec<String>)
    ensures
        r@ == v@,
{
    let mut out: Vec<String> = Vec::new();
    let mut i: usize = 0;
    while i < v.len()
        invariant
            i <= v@.len(),
            out@ == v@.take(i as int),
        decreases v.len() - i,
    {
        out.push(v[i].clone());
        assert(v@.take(i + 1) == v@.take(i as int).push(v@[i as int]));
        i = i + 1;
    }
    assert(v@.take(v@.len() as int) == v@);
    out
}

/// Whether the one-time rail reorder has run (never recorded means no).
pub fn rail_shortcut_migrated(saved: Option<bool>) -> (r: bool)
    ensures
        r == (saved == Some(true)),
{
    match saved {
        Some(b) => b,
        None => false,
    }
}

/// Whether marking the rail reorder as done has to rewrite the layout.
pub fn mark_rail_shortcut_migrated(saved: Option<bool>) -> (r: bool)
    ensures
        r == (saved != Some(true)),
{
    !rail_shortcut_migrated(saved)
}

/// Whether an existing `.gitignore` (or a missing one) must be rewritten:
/// it must exclude `workspaces.json`, `layout.local.json` and `shares.json`,
/// and must not exclude the shared `layout.json`.
pub open spec fn spec_gitignore_needs_write(existing: Option<Seq<char>>) -> bool {
    match existing {
        Some(e) => !contains_seq(e, "workspaces.json"@) || !contains_seq(e, "layout.local.json"@)
            || !contains_seq(e, "shares.json"@) || contains_seq(e, "layout.json\n"@),
        None => true,
    }
}

/// The `.gitignore` of the data directory: the cross-branch, machine-local
/// and non-data files stay out of the per-workspace history.
pub const GITIGNORE: &'static str = "workspaces.json\nlayout.local.json\nshares.json\n.verve-askpass.sh\nexports/\nhosts.staging\n.bootstrap_done\n";

pub fn gitignore_needs_write(existing: Option<&str>) -> (r: bool)
    ensures
        r == spec_gitignore_needs_write(match existing {
            Some(e) => Some(e@),
            None => None,
        }),
{
    match existing {
        Some(e) => !str_contains(e, "workspaces.json") || !str_contains(e, "layout.local.json")
            || !str_contains(e, "shares.json") || str_contains(e, "layout.json\n"),
        None => true,
    }
}

/// Whether a list of workspaces holds the default one.
pub open spec fn has_default(s: Seq<WorkspaceMeta>) -> bool {
    exists|i: int| 0 <= i < s.len() && (#[trigger] s[i]).is_default
}

/// Guarantees the built-in default workspace exists (inserting it first when
/// missing). Returns whether the index changed and must be saved.
pub fn ensure_default_workspace(idx: &mut WorkspacesIndex) -> (r: bool)
    ensures
        r == !has_default(old(idx).workspaces@),
        final(idx).active == old(idx).active,
        has_default(final(idx).workspaces@),
        r ==> final(idx).workspaces@.len() == old(idx).workspaces@.len() + 1
            && final(idx).workspaces@.skip(1) == old(idx).workspaces@
            && final(idx).workspaces@[0].id@ == "default"@
            && final(idx).workspaces@[0].branch@ == "main"@,
        !r ==> final(idx).workspaces@ == old(idx).workspaces@,
{
    let mut i: usize = 0;
    while i < idx.workspaces.len()
        invariant
            i <= idx.workspaces@.len(),
            *idx == *old(idx),
            forall|j: int| 0 <= j < i ==> !idx.workspaces@[j].is_default,
        decreases idx.workspaces.len() - i,
    {
        if idx.workspaces[i].is_default {
            return false;
        }
        i = i + 1;
    }
    let ghost before = idx.workspaces@;
    idx.workspaces.insert(0, WorkspaceMeta::default_workspace());
    proof {
        assert(idx.workspaces@[0].is_default);
        assert(idx.workspaces@.skip(1) =~= before);
    }
    true
}

/// Selects the active workspace.
pub fn set_active_workspace(idx: &mut WorkspacesIndex, id: &str)
    ensures
        final(idx).active matches Some(a) && a@ == id@,
        final(idx).workspaces == old(idx).workspaces,
{
    idx.active = Some(id.to_owned());
}

} // verus!
