//! Secrets in the vault map, keyed `"{host_id}:{kind}"` (for instance
//! `abc123:password` or `abc123:key_passphrase`). Host records never hold
//! secrets.

use vstd::prelude::*;
use crate::ssh::vault::SecretMap;

verus! {

/// The vault lookup key of a secret.
pub open spec fn spec_keyring_key(host_id: Seq<char>, kind: Seq<char>) -> Seq<char> {
    host_id + ":"@ + kind
}

/// The vault lookup key of a secret: `"{host_id}:{kind}"`.
pub fn keyring_key(host_id: &str, kind: &str) -> (r: String)
    ensures
        r@ == spec_keyring_key(host_id@, kind@),
{
    let mut k = host_id.to_owned();
    k.append(":");
    k.append(kind);
    k
}

/// Stores (or overwrites) the secret of `host_id` / `kind`.
pub fn store_secret(map: &mut SecretMap, host_id: &str, kind: &str, secret: &str)
    requires
        old(map).wf(),
    ensures
        final(map).wf(),
        final(map).view() == old(map).view().insert(spec_keyring_key(host_id@, kind@), secret@),
{
    map.insert(keyring_key(host_id, kind), secret.to_owned());
}

/// The secret of `host_id` / `kind`, if one is stored.
pub fn load_secret(map: &SecretMap, host_id: &str, kind: &str) -> (r: Option<String>)
    requires
        map.wf(),
    ensures
        match r {
            Some(s) => map.view().contains_key(spec_keyring_key(host_id@, kind@)) && s@ == map.view()[spec_keyring_key(host_id@, kind@)],
            None => !map.view().contains_key(spec_keyring_key(host_id@, kind@)),
        },
{
    let k = keyring_key(host_id, kind);
    match map.get(k.as_str()) {
        Some(s) => Some(s.clone()),
        None => None,
    }
}

/// Deletes the secret of `host_id` / `kind`; nothing happens when none is
/// stored.
pub fn delete_secret(map: &mut SecretMap, host_id: &str, kind: &str)
    requires
        old(map).wf(),
    ensures
        final(map).wf(),
        final(map).view() == old(map).view().remove(spec_keyring_key(host_id@, kind@)),
{
    let k = keyring_key(host_id, kind);
    map.remove(k.as_str());
}

/// A stored secret is what a load of the same host and kind returns, and the
/// secrets of every other key are unchanged.
pub proof fn law_store_then_load(
    m: Map<Seq<char>, Seq<char>>,
    host_id: Seq<char>,
    kind: Seq<char>,
    secret: Seq<char>,
    other: Seq<char>,
)
    requires
        other != spec_keyring_key(host_id, kind),
    ensures
        m.insert(spec_keyring_key(host_id, kind), secret).contains_key(spec_keyring_key(host_id, kind)),
        m.insert(spec_keyring_key(host_id, kind), secret)[spec_keyring_key(host_id, kind)] == secret,
        m.insert(spec_keyring_key(host_id, kind), secret).contains_key(other) == m.contains_key(other),
        m.contains_key(other) ==> m.insert(spec_keyring_key(host_id, kind), secret)[other] == m[other],
{
}

/// After a delete, a load of the same host and kind finds nothing.
pub proof fn law_delete_then_load(m: Map<Seq<char>, Seq<char>>, host_id: Seq<char>, kind: Seq<char>)
    ensures
        !m.remove(spec_keyring_key(host_id, kind)).contains_key(spec_keyring_key(host_id, kind)),
{
}

} // verus!
