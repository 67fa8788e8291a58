use aes_gcm::aead::rand_core::RngCore;
use verve::ssh::vault::{
    decrypt, device_key_from_bytes, device_key_path, encrypt, frame_vault_file, parse_vault_file, vault_nonce_ok,
    vault_path,
};
use zeroize::Zeroize;

fn random_key() -> [u8; 32] {
    let mut key = [0u8; 32];
    aes_gcm::aead::OsRng.fill_bytes(&mut key);
    key
}

#[test]
fn encrypt_decrypt_round_trip() {
    let mut key = random_key();
    let data = b"{\"host1:password\":\"s3cret\",\"host2:password\":\"hunter2\"}";
    let encrypted = encrypt(&key, data).unwrap();
    assert!(vault_nonce_ok(&encrypted));
    let decrypted = decrypt(&key, &encrypted).unwrap();
    assert_eq!(decrypted.as_slice(), data);
    key.zeroize();
}

#[test]
fn wrong_key_fails() {
    let mut key = random_key();
    let encrypted = encrypt(&key, b"secret data").unwrap();
    let mut wrong_key = random_key();
    let result = decrypt(&wrong_key, &encrypted);
    assert_eq!(result.unwrap_err(), "解密失败：设备密钥不匹配或数据已损坏");
    key.zeroize();
    wrong_key.zeroize();
}

#[test]
fn each_encryption_uses_a_fresh_nonce() {
    let key = random_key();
    let a = encrypt(&key, b"same").unwrap();
    let b = encrypt(&key, b"same").unwrap();
    assert_ne!(a, b);
    // 8-byte length + 12-byte nonce + 8-byte length + 4 plaintext + 16 tag.
    assert_eq!(a.len(), 8 + 12 + 8 + 4 + 16);
}

#[test]
fn frame_matches_bincode_layout() {
    let nonce = vec![1u8, 2, 3];
    let ct = vec![9u8, 8];
    let framed = frame_vault_file(&nonce, &ct);
    assert_eq!(framed, bincode::serialize(&(nonce.clone(), ct.clone())).unwrap());
    assert_eq!(parse_vault_file(&framed), Some((nonce, ct)));
}

#[test]
fn truncated_file_is_a_framing_error() {
    let key = random_key();
    let encrypted = encrypt(&key, b"abc").unwrap();
    let cut = &encrypted[..encrypted.len() - 1];
    assert_eq!(decrypt(&key, cut).unwrap_err(), "deserialize vault: io error: unexpected end of file");
    assert_eq!(decrypt(&key, b"").unwrap_err(), "deserialize vault: io error: unexpected end of file");
    // Trailing bytes after the ciphertext are ignored, as bincode does.
    let mut longer = encrypted.clone();
    longer.push(0);
    assert_eq!(decrypt(&key, &longer).unwrap(), b"abc");
}

#[test]
fn odd_nonce_length_is_flagged() {
    let framed = frame_vault_file(&[0u8; 5], &[1u8; 20]);
    assert!(!vault_nonce_ok(&framed));
    assert!(vault_nonce_ok(b"short"));
}

#[test]
fn device_key_must_have_key_length() {
    assert!(device_key_from_bytes(&[7u8; 31]).is_none());
    assert_eq!(device_key_from_bytes(&[7u8; 32]), Some([7u8; 32]));
}

#[test]
fn vault_file_paths() {
    assert_eq!(vault_path(Some("/home/u/.verve")).as_deref(), Some("/home/u/.verve/ssh_vault.bin"));
    assert_eq!(vault_path(Some("/home/u/.verve/")).as_deref(), Some("/home/u/.verve/ssh_vault.bin"));
    assert_eq!(device_key_path(Some("/d")).as_deref(), Some("/d/device.key"));
    assert_eq!(vault_path(None), None);
}
