//! The encrypted credential vault: AES-256-GCM under a per-device key, a
//! fresh random nonce per encryption, and the on-disk framing of nonce and
//! ciphertext (each a little-endian `u64` length followed by the bytes, the
//! layout bincode gives a struct of two byte vectors).

use vstd::prelude::*;
use aes_gcm::aead::{Aead, KeyInit};
use aes_gcm::aead::rand_core::RngCore;
use crate::state::kv::VarMap;

verus! {

/// The AES-256 key length.
pub const KEY_LEN: usize = 32;

/// The AES-GCM nonce length.
pub const NONCE_LEN: usize = 12;

/// Vault lookup key → secret.
pub type SecretMap = VarMap;

/// The ciphertext-with-tag that AES-256-GCM produces for `plaintext` under
/// `key` and `nonce`, with no associated data.
pub uninterp spec fn gcm_seal(key: Seq<u8>, nonce: Seq<u8>, plaintext: Seq<u8>) -> Seq<u8>;

/// What AES-256-GCM decryption of `ciphertext` (tag appended) under `key`
/// and `nonce` yields: the plaintext, or nothing when authentication fails.
pub uninterp spec fn gcm_open(key: Seq<u8>, nonce: Seq<u8>, ciphertext: Seq<u8>) -> Option<Seq<u8>>;

/// Calls `Aes256Gcm::new` on the key and `Aead::encrypt` with the nonce and
/// no associated data. It succeeds exactly for plaintexts of at most 2^36
/// bytes (aes-gcm's `P_MAX`); the result is the ciphertext with the 16-byte
/// tag appended, and decrypting it under the same key and nonce gives the
/// plaintext back.
#[verifier::external_body]
fn gcm_encrypt(key: &[u8; 32], nonce: &[u8; 12], plaintext: &[u8]) -> (r: Option<Vec<u8>>)
    ensures
        r is Some <==> plaintext@.len() <= 0x10_0000_0000,
        r matches Some(c) ==> c@ == gcm_seal(key@, nonce@, plaintext@),
        r matches Some(c) ==> c@.len() == plaintext@.len() + 16,
        r matches Some(c) ==> gcm_open(key@, nonce@, c@) == Some(plaintext@),
{
    let cipher = aes_gcm::Aes256Gcm::new(key.into());
    cipher.encrypt(nonce.into(), plaintext).ok()
}

/// Calls `Aes256Gcm::new` on the key and `Aead::decrypt` with the nonce and
/// no associated data: the plaintext, or `None` when the tag does not
/// authenticate.
#[verifier::external_body]
fn gcm_decrypt(key: &[u8; 32], nonce: &[u8; 12], ciphertext: &[u8]) -> (r: Option<Vec<u8>>)
    ensures
        match r {
            Some(p) => gcm_open(key@, nonce@, ciphertext@) == Some(p@),
            None => gcm_open(key@, nonce@, ciphertext@) is None,
        },
{
    let cipher = aes_gcm::Aes256Gcm::new(key.into());
    cipher.decrypt(nonce.into(), ciphertext).ok()
}

/// Calls `RngCore::fill_bytes` of the operating-system generator
/// (`aead::OsRng`) on a 12-byte buffer. The bytes are random; nothing is
/// stated of them.
#[verifier::external_body]
fn random_nonce() -> (r: [u8; 12]) {
    let mut n = [0u8; 12];
    aes_gcm::aead::OsRng.fill_bytes(&mut n);
    n
}

pub open spec fn pow256(k: nat) -> nat
    decreases k,
{
    if k == 0 {
        1
    } else {
        256 * pow256((k - 1) as nat)
    }
}

/// The number that little-endian bytes encode.
pub open spec fn le_value(s: Seq<u8>) -> nat
    decreases s.len(),
{
    if s.len() == 0 {
        0
    } else {
        s[0] as nat + 256 * le_value(s.drop_first())
    }
}

/// The `k` low bytes of `x`, least significant first.
pub open spec fn le_bytes(x: nat, k: nat) -> Seq<u8>
    decreases k,
{
    if k == 0 {
        Seq::empty()
    } else {
        seq![(x % 256) as u8] + le_bytes(x / 256, (k - 1) as nat)
    }
}

/// The vault file for a nonce and a ciphertext.
pub open spec fn vault_frame(nonce: Seq<u8>, ciphertext: Seq<u8>) -> Seq<u8> {
    le_bytes(nonce.len(), 8) + nonce + le_bytes(ciphertext.len(), 8) + ciphertext
}

/// The nonce and the ciphertext a vault file holds: each a `u64` length and
/// that many bytes; bytes after the ciphertext are ignored. `None` when the
/// file ends early.
pub open spec fn parse_vault_frame(d: Seq<u8>) -> Option<(Seq<u8>, Seq<u8>)> {
    if d.len() < 8 {
        None
    } else {
        let n1 = le_value(d.take(8)) as int;
        if d.len() < 8 + n1 {
            None
        } else {
            let rest = d.skip(8 + n1);
            if rest.len() < 8 {
                None
            } else {
                let n2 = le_value(rest.take(8)) as int;
                if rest.len() < 8 + n2 {
                    None
                } else {
                    Some((d.subrange(8, 8 + n1), rest.subrange(8, 8 + n2)))
                }
            }
        }
    }
}

/// How bincode words an input that ends early.
pub open spec fn bincode_eof_message() -> Seq<char> {
    "io error: unexpected end of file"@
}

/// The error for a vault file that does not parse: bincode's message, as
/// given on 64-bit targets.
pub open spec fn frame_error_message() -> Seq<char> {
    "deserialize vault: "@ + bincode_eof_message()
}

pub open spec fn decrypt_error_message() -> Seq<char> {
    "解密失败：设备密钥不匹配或数据已损坏"@
}

pub open spec fn encrypt_error_message() -> Seq<char> {
    "AES-GCM encrypt: aead::Error"@
}

/// The nonce a vault file holds has the AES-GCM length (or the file does
/// not parse at all).
pub open spec fn frame_nonce_ok(d: Seq<u8>) -> bool {
    parse_vault_frame(d) matches Some((n, _)) ==> n.len() == 12
}

/// What decrypting a vault file gives: its plaintext, or the framing or the
/// authentication error message.
pub open spec fn spec_decrypt(key: Seq<u8>, d: Seq<u8>) -> Result<Seq<u8>, Seq<char>> {
    match parse_vault_frame(d) {
        None => Err(frame_error_message()),
        Some((n, c)) => match gcm_open(key, n, c) {
            Some(p) => Ok(p),
            None => Err(decrypt_error_message()),
        },
    }
}

proof fn lemma_le_roundtrip(x: nat, k: nat)
    requires
        x < pow256(k),
    ensures
        le_bytes(x, k).len() == k,
        le_value(le_bytes(x, k)) == x,
    decreases k,
{
    if k > 0 {
        assert(x / 256 < pow256((k - 1) as nat)) by (nonlinear_arith)
            requires
                x < 256 * pow256((k - 1) as nat),
        ;
        lemma_le_roundtrip(x / 256, (k - 1) as nat);
        let s = le_bytes(x, k);
        assert(s.drop_first() =~= le_bytes(x / 256, (k - 1) as nat));
    }
}

/// A framed vault file parses back into the nonce and ciphertext it was
/// made of.
pub proof fn law_vault_frame_round_trip(nonce: Seq<u8>, ciphertext: Seq<u8>)
    requires
        nonce.len() < pow256(8),
        ciphertext.len() < pow256(8),
    ensures
        parse_vault_frame(vault_frame(nonce, ciphertext)) == Some((nonce, ciphertext)),
{
    lemma_le_roundtrip(nonce.len(), 8);
    lemma_le_roundtrip(ciphertext.len(), 8);
    let d = vault_frame(nonce, ciphertext);
    let n1 = nonce.len() as int;
    assert(d.take(8) =~= le_bytes(nonce.len(), 8));
    let rest = d.skip(8 + n1);
    assert(rest =~= le_bytes(ciphertext.len(), 8) + ciphertext);
    assert(rest.take(8) =~= le_bytes(ciphertext.len(), 8));
    assert(d.subrange(8, 8 + n1) =~= nonce);
    assert(rest.subrange(8, 8 + ciphertext.len() as int) =~= ciphertext);
}

proof fn lemma_pow256_8()
    ensures
        pow256(8) == 0x1_0000_0000_0000_0000,
{
    reveal_with_fuel(pow256, 9);
}

/// Calls `bincode::serialize` on the pair (nonce, ciphertext). With
/// bincode's default options (fixed-width little-endian integers, no size
/// limit) a byte slice is its `u64` length followed by its bytes, and
/// writing into a `Vec` cannot fail, so the call always succeeds with the
/// two framed one after the other. The error, never produced for these
/// types, is given by its `Display`.
#[verifier::external_body]
fn bincode_frame(nonce: &[u8], ciphertext: &[u8]) -> (r: Result<Vec<u8>, String>)
    ensures
        r is Ok,
        r matches Ok(v) ==> v@ == vault_frame(nonce@, ciphertext@),
{
    bincode::serialize(&(nonce, ciphertext)).map_err(|e| e.to_string())
}

/// Calls `bincode::deserialize` for a pair of byte vectors: each a `u64`
/// little-endian length and that many bytes, trailing bytes allowed. It
/// fails exactly when the input ends early; on 64-bit targets the error's
/// `Display` is then bincode's wording of the end of input. (On a 32-bit
/// target a length over `usize::MAX` is reported with another wording,
/// which is not stated.)
#[verifier::external_body]
fn bincode_unframe(d: &[u8]) -> (r: Result<(Vec<u8>, Vec<u8>), String>)
    ensures
        match r {
            Ok((n, c)) => parse_vault_frame(d@) == Some((n@, c@)),
            Err(e) => parse_vault_frame(d@) is None && (usize::BITS == 64 ==> e@ == bincode_eof_message()),
        },
{
    bincode::deserialize::<(Vec<u8>, Vec<u8>)>(d).map_err(|e| e.to_string())
}

/// Splits a vault file into its nonce and ciphertext (bincode's decoding).
pub fn parse_vault_file(d: &[u8]) -> (r: Option<(Vec<u8>, Vec<u8>)>)
    ensures
        match r {
            Some((n, c)) => parse_vault_frame(d@) == Some((n@, c@)),
            None => parse_vault_frame(d@) is None,
        },
{
    match bincode_unframe(d) {
        Ok(p) => Some(p),
        Err(_) => None,
    }
}

/// The vault file bytes for a nonce and a ciphertext (bincode's encoding).
pub fn frame_vault_file(nonce: &[u8], ciphertext: &[u8]) -> (r: Vec<u8>)
    ensures
        r@ == vault_frame(nonce@, ciphertext@),
{
    match bincode_frame(nonce, ciphertext) {
        Ok(v) => v,
        Err(_) => Vec::new(),
    }
}

/// Whether a vault file's nonce has the AES-GCM length (decryption requires
/// it).
pub fn vault_nonce_ok(d: &[u8]) -> (r: bool)
    ensures
        r == frame_nonce_ok(d@),
{
    match parse_vault_file(d) {
        Some((n, _)) => n.len() == NONCE_LEN,
        None => true,
    }
}

/// Encrypts `plaintext` under `key` with a fresh random nonce and frames
/// nonce and ciphertext as a vault file. Decrypting the result with the same
/// key gives the plaintext back. Fails only for plaintexts over 2^36 bytes.
pub fn encrypt(key: &[u8; 32], plaintext: &[u8]) -> (r: Result<Vec<u8>, String>)
    ensures
        r is Ok <==> plaintext@.len() <= 0x10_0000_0000,
        r matches Ok(v) ==> spec_decrypt(key@, v@) == Ok::<Seq<u8>, Seq<char>>(plaintext@),
        r matches Ok(v) ==> exists|n: Seq<u8>| n.len() == 12 && v@ == vault_frame(n, gcm_seal(key@, n, plaintext@)),
        r matches Err(e) ==> e@ == encrypt_error_message(),
{
    let nonce = random_nonce();
    let ct = match gcm_encrypt(key, &nonce, plaintext) {
        Some(c) => c,
        None => {
            return Err("AES-GCM encrypt: aead::Error".to_owned());
        },
    };
    let out = frame_vault_file(&nonce, ct.as_slice());
    proof {
        lemma_pow256_8();
        law_vault_frame_round_trip(nonce@, ct@);
    }
    Ok(out)
}

/// Decrypts a vault file with `key`: the plaintext, the framing error for a
/// file that ends early, or the authentication error for a wrong key or
/// damaged data.
pub fn decrypt(key: &[u8; 32], data: &[u8]) -> (r: Result<Vec<u8>, String>)
    requires
        frame_nonce_ok(data@),
    ensures
        parse_vault_frame(data@) is Some ==> match r {
            Ok(p) => spec_decrypt(key@, data@) == Ok::<Seq<u8>, Seq<char>>(p@),
            Err(e) => spec_decrypt(key@, data@) == Err::<Seq<u8>, Seq<char>>(e@),
        },
        parse_vault_frame(data@) is None ==> (r matches Err(e) && (usize::BITS == 64 ==> e@
            == frame_error_message())),
{
    let (nonce, ct) = match bincode_unframe(data) {
        Ok(p) => p,
        Err(e) => {
            let mut m = "deserialize vault: ".to_owned();
            m.append(e.as_str());
            return Err(m);
        },
    };
    let mut n: [u8; 12] = [0u8; 12];
    let mut i: usize = 0;
    while i < 12
        invariant
            i <= 12,
            nonce@.len() == 12,
            forall|j: int| 0 <= j < i ==> n@[j] == nonce@[j],
        decreases 12 - i,
    {
        n[i] = nonce[i];
        i = i + 1;
    }
    assert(n@ =~= nonce@);
    match gcm_decrypt(key, &n, ct.as_slice()) {
        Some(p) => Ok(p),
        None => Err("解密失败：设备密钥不匹配或数据已损坏".to_owned()),
    }
}

/// `name` inside the directory `base`, joined as a Unix `Path::join` does:
/// an absolute `name` stands alone, an empty `base` gives `name`, and one
/// `/` separates them unless `base` already ends with one.
pub open spec fn spec_path_join(base: Seq<char>, name: Seq<char>) -> Seq<char> {
    if name.len() > 0 && name[0] == '/' {
        name
    } else if base.len() == 0 {
        name
    } else if base.last() == '/' {
        base + name
    } else {
        base + "/"@ + name
    }
}

fn path_join(base: &str, name: &str) -> (r: String)
    ensures
        r@ == spec_path_join(base@, name@),
{
    let n = crate::text::chars_of(name);
    if n.len() > 0 && n[0] == '/' {
        return name.to_owned();
    }
    let b = crate::text::chars_of(base);
    if b.len() == 0 {
        return name.to_owned();
    }
    let mut out = base.to_owned();
    if b[b.len() - 1] != '/' {
        out.append("/");
    }
    out.append(name);
    out
}

/// The vault file inside the data directory (none without one).
pub fn vault_path(data_dir: Option<&str>) -> (r: Option<String>)
    ensures
        match data_dir {
            Some(d) => r matches Some(p) && p@ == spec_path_join(d@, "ssh_vault.bin"@),
            None => r is None,
        },
{
    match data_dir {
        Some(d) => Some(path_join(d, "ssh_vault.bin")),
        None => None,
    }
}

/// The device key file inside the data directory (none without one).
pub fn device_key_path(data_dir: Option<&str>) -> (r: Option<String>)
    ensures
        match data_dir {
            Some(d) => r matches Some(p) && p@ == spec_path_join(d@, "device.key"@),
            None => r is None,
        },
{
    match data_dir {
        Some(d) => Some(path_join(d, "device.key")),
        None => None,
    }
}

/// A stored device key: usable only when it has exactly the key length
/// (anything else is treated as corrupt and regenerated).
pub fn device_key_from_bytes(bytes: &[u8]) -> (r: Option<[u8; 32]>)
    ensures
        r is Some <==> bytes@.len() == 32,
        r matches Some(k) ==> k@ == bytes@,
{
    if bytes.len() != KEY_LEN {
        return None;
    }
    let mut k: [u8; 32] = [0u8; 32];
    let mut i: usize = 0;
    while i < 32
        invariant
            i <= 32,
            bytes@.len() == 32,
            forall|j: int| 0 <= j < i ==> k@[j] == bytes@[j],
        decreases 32 - i,
    {
        k[i] = bytes[i];
        i = i + 1;
    }
    assert(k@ =~= bytes@);
    Some(k)
}

} // verus!
