# verve

The core of an API client with an SSH workspace, written in Verus: the
request tree of a project and its moves, variables and environments, the
saved workspace, and on the SSH side the host list, connection planning,
keyboard-interactive (MFA) exchange, session tabs, terminal grid and
selection, log highlighting, SFTP listing and upload planning, the ZMODEM
transfer driven through `zmodem2`, and the encrypted credential vault.

Layout:

- `src/` — the verified library. Each public function states what it
  returns or changes; laws that relate several functions are public proof
  functions (`law_*`). Calls into outside crates (`zmodem2`, `aes-gcm`,
  `bincode`, `serde_json`, `regex`, `chrono`, `uuid`, `sparkid`) go through
  small trusted wrappers whose doc comments say what is assumed of them.
- `tests/` — tests of the library on concrete values.
- `app/` — the file-system side (paths, loading and saving, the vault file,
  the directory walk of an upload), ordinary Rust around the library.
