use verve::ssh::credentials::{delete_secret, keyring_key, load_secret, store_secret};
use verve::ssh::vault::SecretMap;

#[test]
fn store_load_delete_round_trip() {
    let mut map = SecretMap::new();
    store_secret(&mut map, "host1", "password", "s3cret");
    assert_eq!(load_secret(&map, "host1", "password").as_deref(), Some("s3cret"));
    store_secret(&mut map, "host1", "password", "new_pw");
    assert_eq!(load_secret(&map, "host1", "password").as_deref(), Some("new_pw"));
    delete_secret(&mut map, "host1", "password");
    assert!(load_secret(&map, "host1", "password").is_none());
}

#[test]
fn missing_secret_returns_none() {
    let map = SecretMap::new();
    assert!(load_secret(&map, "nope", "password").is_none());
}

#[test]
fn keys_are_host_colon_kind() {
    assert_eq!(keyring_key("abc123", "password"), "abc123:password");
    assert_eq!(keyring_key("abc123", "key_passphrase"), "abc123:key_passphrase");
}

#[test]
fn secrets_of_other_kinds_are_kept() {
    let mut map = SecretMap::new();
    store_secret(&mut map, "h", "password", "p");
    store_secret(&mut map, "h", "key_passphrase", "k");
    delete_secret(&mut map, "h", "password");
    assert_eq!(load_secret(&map, "h", "key_passphrase").as_deref(), Some("k"));
    delete_secret(&mut map, "h", "password");
    assert_eq!(map.entries.len(), 1);
}
