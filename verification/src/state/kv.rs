//! Key/value rows (params, headers, cookies, variables) and the scoping rules
//! that combine them.

use vstd::prelude::*;
use crate::state::enums::FieldType;
use crate::text::{str_trim, str_to_upper, trim, upper};

verus! {

/// A single key/value pair (query param, header, form field). Empty key rows
/// are ignored when building a request.
#[derive(Debug)]
pub struct KeyValue {
    /// Whether this entry is included in the request.
    pub enabled: bool,
    pub key: String,
    pub value: String,
    /// Only used for `form-data` file parts.
    pub file_path: Option<String>,
    /// Value type (form-data / query). Defaults to plain text.
    pub field_type: FieldType,
    /// Whether this field is required (metadata).
    pub required: bool,
    /// Free-form description.
    pub description: String,
}

/// A copy of an optional string.
pub fn copy_opt_string(s: &Option<String>) -> (r: Option<String>)
    ensures
        r == *s,
{
    match s {
        Some(v) => Some(v.clone()),
        None => None,
    }
}

impl KeyValue {
    /// Whether the row's key is blank (only whitespace).
    pub open spec fn spec_is_empty(self) -> bool {
        trim(self.key@).len() == 0
    }

    /// Whether the row takes part in a request: enabled with a non-blank key.
    pub open spec fn active(self) -> bool {
        self.enabled && !self.spec_is_empty()
    }

    /// The key as matched between scopes: trimmed, ASCII upper-cased.
    pub open spec fn norm_key(self) -> Seq<char> {
        upper(trim(self.key@))
    }

    /// An enabled, required, plain-text row.
    pub fn new(key: &str, value: &str) -> (r: Self)
        ensures
            r.enabled,
            r.key@ == key@,
            r.value@ == value@,
            r.file_path is None,
            r.field_type == FieldType::Text,
            r.required,
            r.description@ == Seq::<char>::empty(),
    {
        KeyValue {
            enabled: true,
            key: key.to_owned(),
            value: value.to_owned(),
            file_path: None,
            field_type: FieldType::Text,
            required: true,
            description: String::new(),
        }
    }

    pub fn is_empty(&self) -> (r: bool)
        ensures
            r == self.spec_is_empty(),
    {
        str_trim(self.key.as_str()).is_empty()
    }

    /// A field-by-field copy.
    pub fn duplicate(&self) -> (r: Self)
        ensures
            r == *self,
    {
        KeyValue {
            enabled: self.enabled,
            key: self.key.clone(),
            value: self.value.clone(),
            file_path: copy_opt_string(&self.file_path),
            field_type: self.field_type,
            required: self.required,
            description: self.description.clone(),
        }
    }
}

impl Default for KeyValue {
    fn default() -> (r: Self)
        ensures
            !r.enabled,
            r.key@ == Seq::<char>::empty(),
            r.value@ == Seq::<char>::empty(),
            r.file_path is None,
            r.field_type == FieldType::Text,
            !r.required,
            r.description@ == Seq::<char>::empty(),
    {
        KeyValue {
            enabled: false,
            key: String::new(),
            value: String::new(),
            file_path: None,
            field_type: FieldType::Text,
            required: false,
            description: String::new(),
        }
    }
}

/// A copy of a list of rows.
pub fn copy_rows(rows: &[KeyValue]) -> (r: Vec<KeyValue>)
    ensures
        r@ == rows@,
{
    let mut out: Vec<KeyValue> = Vec::new();
    let mut i: usize = 0;
    while i < rows.len()
        invariant
            i <= rows@.len(),
            out@ == rows@.take(i as int),
        decreases rows.len() - i,
    {
        out.push(rows[i].duplicate());
        proof {
            assert(rows@.take(i + 1) == rows@.take(i as int).push(rows@[i as int]));
        }
        i = i + 1;
    }
    proof {
        assert(rows@.take(rows@.len() as int) == rows@);
    }
    out
}

/// The active rows of `s`, in order.
pub open spec fn active_rows(s: Seq<KeyValue>) -> Seq<KeyValue>
    decreases s.len(),
{
    if s.len() == 0 {
        Seq::empty()
    } else if s.last().active() {
        active_rows(s.drop_last()).push(s.last())
    } else {
        active_rows(s.drop_last())
    }
}

/// Normalized keys of the active rows of `s`.
pub open spec fn override_keys(s: Seq<KeyValue>) -> Seq<Seq<char>> {
    active_rows(s).map_values(|kv: KeyValue| kv.norm_key())
}

/// Active rows of `global` whose normalized key is not in `keys`.
pub open spec fn surviving_globals(global: Seq<KeyValue>, keys: Seq<Seq<char>>) -> Seq<KeyValue>
    decreases global.len(),
{
    if global.len() == 0 {
        Seq::empty()
    } else {
        let rest = surviving_globals(global.drop_last(), keys);
        let kv = global.last();
        if kv.active() && !keys.contains(kv.norm_key()) {
            rest.push(kv)
        } else {
            rest
        }
    }
}

/// Project-global rows merged with per-request rows: every active global row
/// whose key (trimmed, case-insensitive) is not overridden by an active
/// per-request row, followed by every active per-request row.
pub open spec fn spec_merge_kv(global: Seq<KeyValue>, per_request: Seq<KeyValue>) -> Seq<KeyValue> {
    surviving_globals(global, override_keys(per_request)) + active_rows(per_request)
}

fn norm_key_of(kv: &KeyValue) -> (r: String)
    ensures
        r@ == kv.norm_key(),
{
    str_to_upper(str_trim(kv.key.as_str()))
}

fn contains_string(v: &Vec<String>, s: &String) -> (r: bool)
    ensures
        r == v@.map_values(|x: String| x@).contains(s@),
{
    let mut i: usize = 0;
    while i < v.len()
        invariant
            i <= v@.len(),
            forall|j: int| 0 <= j < i ==> v@[j]@ != s@,
        decreases v.len() - i,
    {
        if v[i] == *s {
            proof {
                assert(v@.map_values(|x: String| x@)[i as int] == s@);
            }
            return true;
        }
        i = i + 1;
    }
    proof {
        let m = v@.map_values(|x: String| x@);
        if m.contains(s@) {
            let k = choose|k: int| 0 <= k < m.len() && m[k] == s@;
            assert(v@[k]@ == s@);
        }
    }
    false
}

/// Merge project-global rows with per-request rows, so that global
/// params/headers/cookies apply to every request while a same-named
/// per-request entry overrides the global one. Matching is case-insensitive on
/// the trimmed key; disabled or empty rows are dropped; globals come first.
pub fn merge_kv(global: &[KeyValue], per_request: &[KeyValue]) -> (r: Vec<KeyValue>)
    ensures
        r@ == spec_merge_kv(global@, per_request@),
{
    let mut overrides: Vec<String> = Vec::new();
    let mut actives: Vec<KeyValue> = Vec::new();
    let mut i: usize = 0;
    while i < per_request.len()
        invariant
            i <= per_request@.len(),
            actives@ == active_rows(per_request@.take(i as int)),
            overrides@.map_values(|x: String| x@) == override_keys(per_request@.take(i as int)),
        decreases per_request.len() - i,
    {
        let kv = &per_request[i];
        proof {
            assert(per_request@.take(i + 1).drop_last() == per_request@.take(i as int));
        }
        if kv.enabled && !kv.is_empty() {
            let k = norm_key_of(kv);
            overrides.push(k);
            actives.push(kv.duplicate());
        }
        proof {
            let t = per_request@.take(i + 1);
            assert(t.last() == per_request@[i as int]);
            let a = active_rows(per_request@.take(i as int));
            if per_request@[i as int].active() {
                assert(active_rows(t) == a.push(per_request@[i as int]));
                assert(a.push(per_request@[i as int]).map_values(|kv: KeyValue| kv.norm_key())
                    =~= a.map_values(|kv: KeyValue| kv.norm_key()).push(per_request@[i as int].norm_key()));
            } else {
                assert(active_rows(t) == a);
            }
            assert(overrides@.map_values(|x: String| x@) =~= override_keys(t));
        }
        i = i + 1;
    }
    proof {
        assert(per_request@.take(per_request@.len() as int) == per_request@);
    }
    let mut out: Vec<KeyValue> = Vec::new();
    let mut j: usize = 0;
    while j < global.len()
        invariant
            j <= global@.len(),
            overrides@.map_values(|x: String| x@) == override_keys(per_request@),
            out@ == surviving_globals(global@.take(j as int), override_keys(per_request@)),
        decreases global.len() - j,
    {
        let kv = &global[j];
        proof {
            assert(global@.take(j + 1).drop_last() == global@.take(j as int));
        }
        if kv.enabled && !kv.is_empty() {
            let k = norm_key_of(kv);
            if !contains_string(&overrides, &k) {
                out.push(kv.duplicate());
            }
        }
        j = j + 1;
    }
    proof {
        assert(global@.take(global@.len() as int) == global@);
    }
    out.append(&mut actives);
    out
}


/// A map of variable names to values, kept as a list of entries with pairwise
/// distinct keys (insertion order). A `HashMap` keyed by `String` gets no
/// usable specification from the verifier (what an insert leaves in it is not
/// known), so the map is this list and its invariant.
#[derive(Debug)]
pub struct VarMap {
    pub entries: Vec<(String, String)>,
}

/// The keys of a list of entries.
pub open spec fn entry_keys(s: Seq<(String, String)>) -> Seq<Seq<char>> {
    s.map_values(|e: (String, String)| e.0@)
}

/// The map denoted by a list of entries (later entries win).
pub open spec fn entries_map(s: Seq<(String, String)>) -> Map<Seq<char>, Seq<char>>
    decreases s.len(),
{
    if s.len() == 0 {
        Map::empty()
    } else {
        entries_map(s.drop_last()).insert(s.last().0@, s.last().1@)
    }
}

impl VarMap {
    /// No two entries share a key.
    pub open spec fn wf(&self) -> bool {
        entry_keys(self.entries@).no_duplicates()
    }

    pub open spec fn view(&self) -> Map<Seq<char>, Seq<char>> {
        entries_map(self.entries@)
    }

    /// An empty map.
    pub fn new() -> (r: Self)
        ensures
            r.wf(),
            r.view() == Map::<Seq<char>, Seq<char>>::empty(),
    {
        let r = VarMap { entries: Vec::new() };
        assert(entry_keys(r.entries@) =~= Seq::<Seq<char>>::empty());
        r
    }

    /// Sets `key` to `value`, replacing an existing entry for `key`.
    pub fn insert(&mut self, key: String, value: String)
        requires
            old(self).wf(),
        ensures
            final(self).wf(),
            final(self).view() == old(self).view().insert(key@, value@),
    {
        let ghost k = key@;
        let ghost v = value@;
        let mut i: usize = 0;
        while i < self.entries.len()
            invariant
                i <= self.entries@.len(),
                *self == *old(self),
                old(self).wf(),
                k == key@,
                forall|j: int| 0 <= j < i ==> self.entries@[j].0@ != k,
            decreases self.entries.len() - i,
        {
            if self.entries[i].0 == key {
                let ghost before = self.entries@;
                self.entries.set(i, (key, value));
                proof {
                    lemma_entries_map_update(before, i as int, self.entries@[i as int]);
                    let ks = entry_keys(self.entries@);
                    assert(ks =~= entry_keys(before).update(i as int, k));
                    assert forall|a: int, b: int| 0 <= a < ks.len() && 0 <= b < ks.len() && a != b implies ks[a] != ks[b] by {
                        assert(entry_keys(before)[a] != entry_keys(before)[b]);
                    }
                }
                return;
            }
            i = i + 1;
        }
        let ghost before = self.entries@;
        self.entries.push((key, value));
        proof {
            let ks = entry_keys(self.entries@);
            assert(self.entries@.drop_last() =~= before);
            assert(ks =~= entry_keys(before).push(k));
            assert forall|a: int, b: int| 0 <= a < ks.len() && 0 <= b < ks.len() && a != b implies ks[a] != ks[b] by {
                if a < before.len() && b < before.len() {
                    assert(entry_keys(before)[a] != entry_keys(before)[b]);
                }
            }
        }
    }

    /// The value stored for `key`, if any.
    pub fn get(&self, key: &str) -> (r: Option<&String>)
        requires
            self.wf(),
        ensures
            match r {
                Some(v) => self.view().contains_key(key@) && self.view()[key@] == v@,
                None => !self.view().contains_key(key@),
            },
    {
        let mut i: usize = 0;
        while i < self.entries.len()
            invariant
                i <= self.entries@.len(),
                self.wf(),
                forall|j: int| 0 <= j < i ==> self.entries@[j].0@ != key@,
            decreases self.entries.len() - i,
        {
            if crate::text::str_eq(self.entries[i].0.as_str(), key) {
                proof {
                    lemma_entries_map_at(self.entries@, i as int);
                }
                return Some(&self.entries[i].1);
            }
            i = i + 1;
        }
        proof {
            lemma_entries_map_absent(self.entries@, key@);
        }
        None
    }
}

impl VarMap {
    /// Drops the entry for `key`, if there is one.
    pub fn remove(&mut self, key: &str)
        requires
            old(self).wf(),
        ensures
            final(self).wf(),
            final(self).view() == old(self).view().remove(key@),
    {
        let mut i: usize = 0;
        while i < self.entries.len()
            invariant
                i <= self.entries@.len(),
                *self == *old(self),
                old(self).wf(),
                forall|j: int| 0 <= j < i ==> self.entries@[j].0@ != key@,
            decreases self.entries.len() - i,
        {
            if crate::text::str_eq(self.entries[i].0.as_str(), key) {
                let ghost before = self.entries@;
                self.entries.remove(i);
                proof {
                    lemma_entries_map_remove(before, i as int);
                    let ks = entry_keys(self.entries@);
                    assert(ks =~= entry_keys(before).remove(i as int));
                    assert forall|a: int, b: int| 0 <= a < ks.len() && 0 <= b < ks.len() && a != b implies ks[a] != ks[b] by {
                        let a2 = if a < i { a } else { a + 1 };
                        let b2 = if b < i { b } else { b + 1 };
                        assert(entry_keys(before)[a2] != entry_keys(before)[b2]);
                    }
                }
                return;
            }
            i = i + 1;
        }
        proof {
            lemma_entries_map_absent(self.entries@, key@);
            assert(self.view().remove(key@) =~= self.view());
        }
    }
}

proof fn lemma_entries_map_remove(s: Seq<(String, String)>, i: int)
    requires
        0 <= i < s.len(),
        entry_keys(s).no_duplicates(),
    ensures
        entries_map(s.remove(i)) == entries_map(s).remove(s[i].0@),
    decreases s.len(),
{
    let d = s.drop_last();
    let k = s[i].0@;
    assert(entry_keys(d) =~= entry_keys(s).drop_last());
    if i == s.len() - 1 {
        assert(s.remove(i) =~= d);
        assert(!entries_map(d).contains_key(k)) by {
            assert forall|j: int| 0 <= j < d.len() implies d[j].0@ != k by {
                assert(entry_keys(s)[j] != entry_keys(s)[i]);
            }
            lemma_entries_map_absent(d, k);
        }
        assert(entries_map(s.remove(i)) =~= entries_map(s).remove(k));
    } else {
        lemma_entries_map_remove(d, i);
        assert(s.remove(i).drop_last() =~= d.remove(i));
        assert(s.remove(i).last() == s.last());
        assert(s.last().0@ != k) by {
            assert(entry_keys(s)[i] != entry_keys(s)[s.len() - 1]);
        }
        assert(entries_map(s.remove(i)) =~= entries_map(s).remove(k));
    }
}

proof fn lemma_entries_map_absent(s: Seq<(String, String)>, k: Seq<char>)
    requires
        forall|j: int| 0 <= j < s.len() ==> s[j].0@ != k,
    ensures
        !entries_map(s).contains_key(k),
    decreases s.len(),
{
    if s.len() > 0 {
        lemma_entries_map_absent(s.drop_last(), k);
    }
}

proof fn lemma_entries_map_at(s: Seq<(String, String)>, i: int)
    requires
        0 <= i < s.len(),
        entry_keys(s).no_duplicates(),
    ensures
        entries_map(s).contains_key(s[i].0@),
        entries_map(s)[s[i].0@] == s[i].1@,
    decreases s.len(),
{
    if i < s.len() - 1 {
        let d = s.drop_last();
        assert(entry_keys(d) =~= entry_keys(s).drop_last());
        assert(entry_keys(s)[i] != entry_keys(s)[s.len() - 1]);
        lemma_entries_map_at(d, i);
    }
}

proof fn lemma_entries_map_update(s: Seq<(String, String)>, i: int, e: (String, String))
    requires
        0 <= i < s.len(),
        entry_keys(s).no_duplicates(),
        e.0@ == s[i].0@,
    ensures
        entries_map(s.update(i, e)) == entries_map(s).insert(e.0@, e.1@),
    decreases s.len(),
{
    let d = s.drop_last();
    assert(entry_keys(d) =~= entry_keys(s).drop_last());
    if i == s.len() - 1 {
        assert(s.update(i, e).drop_last() =~= d);
        assert(!entries_map(d).contains_key(e.0@)) by {
            assert forall|j: int| 0 <= j < d.len() implies d[j].0@ != e.0@ by {
                assert(entry_keys(s)[j] != entry_keys(s)[i]);
            }
            lemma_entries_map_absent(d, e.0@);
        }
        assert(entries_map(s.update(i, e)) =~= entries_map(s).insert(e.0@, e.1@));
    } else {
        lemma_entries_map_update(d, i, e);
        assert(s.update(i, e).drop_last() =~= d.update(i, e));
        assert(s.last().0@ != e.0@) by {
            assert(entry_keys(s)[i] != entry_keys(s)[s.len() - 1]);
        }
        assert(entries_map(s.update(i, e)) =~= entries_map(s).insert(e.0@, e.1@));
    }
}

/// A variable row that takes part in scoping: enabled with a non-blank key.
pub open spec fn var_active(kv: KeyValue) -> bool {
    kv.enabled && trim(kv.key@).len() > 0
}

/// `m` with the active rows of `vars` applied in order (later rows win).
pub open spec fn layer(m: Map<Seq<char>, Seq<char>>, vars: Seq<KeyValue>) -> Map<Seq<char>, Seq<char>>
    decreases vars.len(),
{
    if vars.len() == 0 {
        m
    } else {
        let base = layer(m, vars.drop_last());
        let kv = vars.last();
        if var_active(kv) {
            base.insert(kv.key@, kv.value@)
        } else {
            base
        }
    }
}

/// The effective variables of one request: system < global < environment <
/// folder chain < request.
pub open spec fn spec_effective_variables(
    system: Map<Seq<char>, Seq<char>>,
    global: Seq<KeyValue>,
    env: Seq<KeyValue>,
    folder_vars: Seq<KeyValue>,
    request_vars: Seq<KeyValue>,
) -> Map<Seq<char>, Seq<char>> {
    layer(layer(layer(layer(system, global), env), folder_vars), request_vars)
}

fn apply_layer(map: &mut VarMap, vars: &[KeyValue])
    requires
        old(map).wf(),
    ensures
        final(map).wf(),
        final(map).view() == layer(old(map).view(), vars@),
{
    let ghost m0 = map.view();
    let mut i: usize = 0;
    while i < vars.len()
        invariant
            i <= vars@.len(),
            map.wf(),
            map.view() == layer(m0, vars@.take(i as int)),
        decreases vars.len() - i,
    {
        let kv = &vars[i];
        proof {
            assert(vars@.take(i + 1).drop_last() == vars@.take(i as int));
            assert(vars@.take(i + 1).last() == vars@[i as int]);
        }
        if kv.enabled && !str_trim(kv.key.as_str()).is_empty() {
            map.insert(kv.key.clone(), kv.value.clone());
        }
        i = i + 1;
    }
    proof {
        assert(vars@.take(vars@.len() as int) == vars@);
    }
}

/// The effective variables for a single request, applying the scope
/// priority system < global < environment < folder chain < request.
/// `folder_vars` is the already-flattened variables of the request's ancestor
/// folders (root → parent).
pub fn effective_variables(
    system: &VarMap,
    global: &[KeyValue],
    env: &[KeyValue],
    folder_vars: &[KeyValue],
    request_vars: &[KeyValue],
) -> (r: VarMap)
    requires
        system.wf(),
    ensures
        r.wf(),
        r.view() == spec_effective_variables(system.view(), global@, env@, folder_vars@, request_vars@),
{
    let mut map = VarMap::new();
    let mut i: usize = 0;
    while i < system.entries.len()
        invariant
            i <= system.entries@.len(),
            system.wf(),
            map.wf(),
            map.view() == entries_map(system.entries@.take(i as int)),
        decreases system.entries.len() - i,
    {
        proof {
            assert(system.entries@.take(i + 1).drop_last() == system.entries@.take(i as int));
        }
        map.insert(system.entries[i].0.clone(), system.entries[i].1.clone());
        i = i + 1;
    }
    proof {
        assert(system.entries@.take(system.entries@.len() as int) == system.entries@);
    }
    apply_layer(&mut map, global);
    apply_layer(&mut map, env);
    apply_layer(&mut map, folder_vars);
    apply_layer(&mut map, request_vars);
    map
}

/// The value the last active row for `k` in `vars` sets, if any.
pub open spec fn last_value(vars: Seq<KeyValue>, k: Seq<char>) -> Option<Seq<char>>
    decreases vars.len(),
{
    if vars.len() == 0 {
        None
    } else if var_active(vars.last()) && vars.last().key@ == k {
        Some(vars.last().value@)
    } else {
        last_value(vars.drop_last(), k)
    }
}

proof fn lemma_layer_value(m: Map<Seq<char>, Seq<char>>, vars: Seq<KeyValue>, k: Seq<char>)
    ensures
        last_value(vars, k) matches Some(v) ==> layer(m, vars).contains_key(k) && layer(m, vars)[k] == v,
        last_value(vars, k) is None ==> (layer(m, vars).contains_key(k) == m.contains_key(k)
            && (m.contains_key(k) ==> layer(m, vars)[k] == m[k])),
    decreases vars.len(),
{
    if vars.len() > 0 {
        lemma_layer_value(m, vars.drop_last(), k);
    }
}

/// Scope priority: a variable defined (enabled, non-blank key) at the request
/// level wins over every other scope; otherwise the folder chain wins over
/// the environment, the environment over the globals, and the globals over
/// the system variables. Within one scope the last row wins.
pub proof fn law_variable_scope_priority(
    system: Map<Seq<char>, Seq<char>>,
    global: Seq<KeyValue>,
    env: Seq<KeyValue>,
    folder_vars: Seq<KeyValue>,
    request_vars: Seq<KeyValue>,
    k: Seq<char>,
)
    ensures
        ({
            let eff = spec_effective_variables(system, global, env, folder_vars, request_vars);
            let expected = match last_value(request_vars, k) {
                Some(v) => Some(v),
                None => match last_value(folder_vars, k) {
                    Some(v) => Some(v),
                    None => match last_value(env, k) {
                        Some(v) => Some(v),
                        None => match last_value(global, k) {
                            Some(v) => Some(v),
                            None => if system.contains_key(k) {
                                Some(system[k])
                            } else {
                                None
                            },
                        },
                    },
                },
            };
            match expected {
                Some(v) => eff.contains_key(k) && eff[k] == v,
                None => !eff.contains_key(k),
            }
        }),
{
    let m1 = layer(system, global);
    let m2 = layer(m1, env);
    let m3 = layer(m2, folder_vars);
    lemma_layer_value(system, global, k);
    lemma_layer_value(m1, env, k);
    lemma_layer_value(m2, folder_vars, k);
    lemma_layer_value(m3, request_vars, k);
}

} // verus!
