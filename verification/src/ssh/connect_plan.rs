//! How a connection is made, decided before any byte goes out: the route
//! (direct, or through the bastion chain) and the login steps for the host's
//! authentication type; and how a shell channel's messages reach the terminal.

use vstd::prelude::*;
use crate::ssh::client::{SshError, SshOutput};
use crate::ssh::credentials::{load_secret, spec_keyring_key};
use crate::ssh::host_store::{jump_chain, spec_extend_chain, spec_jump_chain};
use crate::ssh::models::{hosts_view, SshAuthType, SshHost, SshHostView};
use crate::ssh::vault::SecretMap;
use crate::text::{decimal, push_decimal};

verus! {

/// How to reach a host.
#[derive(Debug)]
pub enum ConnectRoute {
    /// Dial `addr` (`host:port`); the server key is checked against
    /// `host`/`port`.
    Direct { addr: String, host: String, port: u16 },
    /// Dial the bastion at `bastion_addr` and log in to it, open a tunnel to
    /// `target_host:target_port`, and log in to the target through it.
    ViaBastion { bastion: SshHost, bastion_addr: String, target_host: String, target_port: u16 },
}

/// `host:port`.
pub open spec fn address(host: Seq<char>, port: u16) -> Seq<char> {
    host + ":"@ + decimal(port as nat)
}

fn address_of(host: &str, port: u16) -> (r: String)
    ensures
        r@ == address(host@, port),
{
    let mut s = host.to_owned();
    s.append(":");
    push_decimal(&mut s, port as u64);
    s
}

/// The route to `h` among the saved `hosts`: direct when it has no bastion,
/// else through the outermost bastion of its chain to the target's override
/// address (or its address). A broken chain is a configuration error.
pub open spec fn spec_connect_route(hosts: Seq<SshHostView>, h: SshHostView, r: Result<ConnectRoute, SshError>) -> bool {
    match spec_jump_chain(hosts, h) {
        Err(e) => r matches Err(err) && err.message@ == "跳板机配置错误: "@ + e && !err.retryable,
        Ok(chain) => if chain.len() == 1 {
            r matches Ok(ConnectRoute::Direct { addr, host, port }) && addr@ == address(h.host, h.port) && host@
                == h.host && port == h.port
        } else {
            let target = chain.last();
            let target_host = match target.bastion_target_override {
                Some(o) => o,
                None => target.host,
            };
            r matches Ok(ConnectRoute::ViaBastion { bastion, bastion_addr, target_host: th, target_port }) && bastion@
                == chain[0] && bastion_addr@ == address(chain[0].host, chain[0].port) && th@ == target_host
                && target_port == target.port
        },
    }
}

proof fn lemma_chain_nonempty(s: Seq<SshHostView>, chain: Seq<SshHostView>)
    ensures
        spec_extend_chain(s, chain) matches Ok(c) ==> c.len() >= 1,
    decreases 9 - chain.len(),
{
    if !(chain.len() == 0 || chain.len() > 8) {
        if let Some(b) = chain[0].bastion_id {
            if !crate::ssh::host_store::chain_has_id(chain, b) {
                if let Some(bh) = crate::ssh::host_store::spec_find_host(s, b) {
                    if chain.len() + 1 <= 8 {
                        lemma_chain_nonempty(s, seq![bh] + chain);
                    }
                }
            }
        }
    }
}

pub fn connect_route(hosts: &Vec<SshHost>, host: &SshHost) -> (r: Result<ConnectRoute, SshError>)
    ensures
        spec_connect_route(hosts_view(hosts@), host@, r),
{
    let chain = match jump_chain(hosts, host) {
        Ok(c) => c,
        Err(e) => {
            let mut m = "跳板机配置错误: ".to_owned();
            m.append(e.as_str());
            return Err(SshError { message: m, retryable: false });
        },
    };
    if chain.len() == 1 {
        return Ok(
            ConnectRoute::Direct {
                addr: address_of(host.host.as_str(), host.port),
                host: host.host.clone(),
                port: host.port,
            },
        );
    }
    proof {
        assert(hosts_view(chain@).len() == chain@.len());
        lemma_chain_nonempty(hosts_view(hosts@), seq![host@]);
    }
    let last = chain.len() - 1;
    let target_host = match &chain[last].bastion_target_override {
        Some(o) => o.clone(),
        None => chain[last].host.clone(),
    };
    let target_port = chain[last].port;
    let bastion_addr = address_of(chain[0].host.as_str(), chain[0].port);
    let bastion = chain[0].duplicate();
    Ok(ConnectRoute::ViaBastion { bastion, bastion_addr, target_host, target_port })
}

/// The login steps for a host's authentication type.
#[derive(Debug)]
pub enum AuthStep {
    /// Send the stored password (empty when none is stored); when rejected,
    /// try a keyboard-interactive round if a verification-code prompt is
    /// available.
    Password { password: String },
    /// Log in with the private key at `key_path`, unlocked with the stored
    /// passphrase if there is one.
    PrivateKey { key_path: String, passphrase: Option<String> },
    /// Send the stored password first when there is a non-empty one (its
    /// result does not matter), then answer the keyboard-interactive
    /// challenges.
    KeyboardInteractive { password_first: Option<String> },
}

pub open spec fn stored(vault: Map<Seq<char>, Seq<char>>, id: Seq<char>, kind: Seq<char>) -> Option<Seq<char>> {
    if vault.contains_key(spec_keyring_key(id, kind)) {
        Some(vault[spec_keyring_key(id, kind)])
    } else {
        None
    }
}

/// The login plan for `h` with the secrets in `vault`; agent authentication
/// and a key login without a key path are configuration errors.
pub open spec fn spec_auth_plan(h: SshHostView, vault: Map<Seq<char>, Seq<char>>, r: Result<AuthStep, SshError>) -> bool {
    match h.auth_type {
        SshAuthType::Password => r matches Ok(AuthStep::Password { password }) && password@ == match stored(
            vault,
            h.id,
            "password"@,
        ) {
            Some(p) => p,
            None => Seq::empty(),
        },
        SshAuthType::PrivateKey => match h.key_path {
            None => r matches Err(e) && e.message@ == "未配置密钥路径"@ && !e.retryable,
            Some(k) => r matches Ok(AuthStep::PrivateKey { key_path, passphrase }) && key_path@ == k && match stored(
                vault,
                h.id,
                "key_passphrase"@,
            ) {
                Some(p) => passphrase matches Some(q) && q@ == p,
                None => passphrase is None,
            },
        },
        SshAuthType::Agent => r matches Err(e) && e.message@ == "Agent 认证暂不支持"@ && !e.retryable,
        SshAuthType::KeyboardInteractive => r matches Ok(AuthStep::KeyboardInteractive { password_first })
            && match stored(vault, h.id, "password"@) {
            Some(p) => if p.len() > 0 {
                password_first matches Some(q) && q@ == p
            } else {
                password_first is None
            },
            None => password_first is None,
        },
    }
}

pub fn auth_plan(host: &SshHost, vault: &SecretMap) -> (r: Result<AuthStep, SshError>)
    requires
        vault.wf(),
    ensures
        spec_auth_plan(host@, vault.view(), r),
{
    match host.auth_type {
        SshAuthType::Password => {
            let password = match load_secret(vault, host.id.as_str(), "password") {
                Some(p) => p,
                None => String::new(),
            };
            Ok(AuthStep::Password { password })
        },
        SshAuthType::PrivateKey => match &host.key_path {
            None => Err(SshError { message: "未配置密钥路径".to_owned(), retryable: false }),
            Some(k) => {
                let passphrase = load_secret(vault, host.id.as_str(), "key_passphrase");
                Ok(AuthStep::PrivateKey { key_path: k.clone(), passphrase })
            },
        },
        SshAuthType::Agent => Err(SshError { message: "Agent 认证暂不支持".to_owned(), retryable: false }),
        SshAuthType::KeyboardInteractive => {
            let password_first = match load_secret(vault, host.id.as_str(), "password") {
                Some(p) => if p.as_str().is_empty() {
                    None
                } else {
                    Some(p)
                },
                None => None,
            };
            Ok(AuthStep::KeyboardInteractive { password_first })
        },
    }
}

/// The error for a private key that could not be loaded.
pub fn key_load_error(key_path: &str, error: &str) -> (r: SshError)
    ensures
        r.message@ == "加载私钥失败（路径 "@ + key_path@ + "）: "@ + error@,
        !r.retryable,
{
    let mut m = "加载私钥失败（路径 ".to_owned();
    m.append(key_path);
    m.append("）: ");
    m.append(error);
    SshError { message: m, retryable: false }
}

/// The error for a key the server refused.
pub fn key_rejected_error() -> (r: SshError)
    ensures
        r.message@ == "认证失败：密钥被服务器拒绝，请检查用户名或私钥是否正确"@,
        !r.retryable,
{
    SshError { message: "认证失败：密钥被服务器拒绝，请检查用户名或私钥是否正确".to_owned(), retryable: false }
}

/// The terminal type requested for the remote PTY: the emulator is xterm
/// compatible, whatever the local `$TERM` says.
pub fn remote_term_type() -> (r: &'static str)
    ensures
        r@ == "xterm-256color"@,
{
    "xterm-256color"
}

/// A message on a shell channel.
#[derive(Debug)]
pub enum ChannelEvent {
    Data(Vec<u8>),
    /// Data on an extended stream (stderr).
    ExtendedData(Vec<u8>),
    ExitStatus(u32),
    Eof,
    /// The channel went away.
    Gone,
    /// Anything else (window adjustments, requests).
    Other,
}

/// What a channel message gives the terminal, and whether the session ends:
/// output of either stream is shown, an exit status ends it with that code,
/// end of file or a vanished channel end it without one.
pub open spec fn spec_shell_output(ev: ChannelEvent) -> (Option<SshOutput>, bool) {
    match ev {
        ChannelEvent::Data(d) => (Some(SshOutput::Data(d)), false),
        ChannelEvent::ExtendedData(d) => (Some(SshOutput::Data(d)), false),
        ChannelEvent::ExitStatus(code) => (Some(SshOutput::Closed(Some(code))), true),
        ChannelEvent::Eof => (Some(SshOutput::Closed(None)), true),
        ChannelEvent::Gone => (Some(SshOutput::Closed(None)), true),
        ChannelEvent::Other => (None, false),
    }
}

pub fn shell_output(ev: ChannelEvent) -> (r: (Option<SshOutput>, bool))
    ensures
        r == spec_shell_output(ev),
{
    match ev {
        ChannelEvent::Data(d) => (Some(SshOutput::Data(d)), false),
        ChannelEvent::ExtendedData(d) => (Some(SshOutput::Data(d)), false),
        ChannelEvent::ExitStatus(code) => (Some(SshOutput::Closed(Some(code))), true),
        ChannelEvent::Eof => (Some(SshOutput::Closed(None)), true),
        ChannelEvent::Gone => (Some(SshOutput::Closed(None)), true),
        ChannelEvent::Other => (None, false),
    }
}

} // verus!
