//! SSH host configuration records. The secrets (passwords, key passphrases)
//! are not part of a host record: they live in the encrypted vault.

use vstd::prelude::*;
use crate::state::ids::new_id;
use crate::state::project::opt_view;

verus! {

/// Authentication method for an SSH connection.
#[derive(Debug, Clone, Copy, PartialEq, Eq, Structural)]
pub enum SshAuthType {
    /// Password authentication.
    Password,
    /// Public-key authentication (file path + optional passphrase).
    PrivateKey,
    /// SSH agent.
    Agent,
    /// Keyboard-interactive authentication, the mechanism used by MFA/2FA:
    /// the server sends prompts and the client answers each one.
    KeyboardInteractive,
}

impl Default for SshAuthType {
    fn default() -> (r: Self)
        ensures
            r == SshAuthType::Password,
    {
        SshAuthType::Password
    }
}

impl SshAuthType {
    pub open spec fn spec_label(self) -> Seq<char> {
        match self {
            SshAuthType::Password => "密码"@,
            SshAuthType::PrivateKey => "密钥"@,
            SshAuthType::Agent => "Agent"@,
            SshAuthType::KeyboardInteractive => "键盘交互(MFA)"@,
        }
    }

    pub fn label(&self) -> (r: &'static str)
        ensures
            r@ == self.spec_label(),
    {
        match self {
            SshAuthType::Password => "密码",
            SshAuthType::PrivateKey => "密钥",
            SshAuthType::Agent => "Agent",
            SshAuthType::KeyboardInteractive => "键盘交互(MFA)",
        }
    }

    /// Every method, in selector order.
    pub fn all() -> (r: &'static [SshAuthType])
        ensures
            r@ == seq![
                SshAuthType::Password,
                SshAuthType::PrivateKey,
                SshAuthType::Agent,
                SshAuthType::KeyboardInteractive,
            ],
    {
        &[
            SshAuthType::Password,
            SshAuthType::PrivateKey,
            SshAuthType::Agent,
            SshAuthType::KeyboardInteractive,
        ]
    }
}

/// The role of a host in the connection topology.
#[derive(Debug, Clone, Copy, PartialEq, Eq, Structural)]
pub enum SshHostType {
    /// A directly reachable host.
    Direct,
    /// A bastion / jump host that acts as a gateway for internal hosts.
    Bastion,
}

impl Default for SshHostType {
    fn default() -> (r: Self)
        ensures
            r == SshHostType::Direct,
    {
        SshHostType::Direct
    }
}

impl SshHostType {
    pub open spec fn spec_label(self) -> Seq<char> {
        match self {
            SshHostType::Direct => "直连"@,
            SshHostType::Bastion => "跳板机"@,
        }
    }

    pub fn label(&self) -> (r: &'static str)
        ensures
            r@ == self.spec_label(),
    {
        match self {
            SshHostType::Direct => "直连",
            SshHostType::Bastion => "跳板机",
        }
    }
}

/// Direction of an SSH port forward.
#[derive(Debug, Clone, Copy, PartialEq, Eq, Structural)]
pub enum ForwardDirection {
    /// Listen locally, forward over SSH to the remote target.
    Local,
    /// Listen on the server, forward back over SSH to a local target.
    Remote,
}

impl ForwardDirection {
    pub open spec fn spec_label(self) -> Seq<char> {
        match self {
            ForwardDirection::Local => "本地转发 (Local)"@,
            ForwardDirection::Remote => "远程转发 (Remote)"@,
        }
    }

    pub fn label(&self) -> (r: &'static str)
        ensures
            r@ == self.spec_label(),
    {
        match self {
            ForwardDirection::Local => "本地转发 (Local)",
            ForwardDirection::Remote => "远程转发 (Remote)",
        }
    }
}

/// A configured port-forward rule (persisted on the host record).
#[derive(Debug, Clone)]
pub struct PortForward {
    pub id: String,
    pub direction: ForwardDirection,
    /// Local bind address (usually `127.0.0.1`).
    pub local_host: String,
    pub local_port: u16,
    /// Target host as reachable from the SSH server.
    pub remote_host: String,
    pub remote_port: u16,
    /// Start the forward when the connection opens.
    pub auto_start: bool,
}

impl PortForward {
    /// A local forward `127.0.0.1:8080 -> 127.0.0.1:80` with a fresh id, not
    /// auto-started.
    pub fn new() -> (r: Self)
        ensures
            r.id@.len() == 21,
            r.direction == ForwardDirection::Local,
            r.local_host@ == "127.0.0.1"@,
            r.local_port == 8080,
            r.remote_host@ == "127.0.0.1"@,
            r.remote_port == 80,
            !r.auto_start,
    {
        PortForward {
            id: new_id(),
            direction: ForwardDirection::Local,
            local_host: "127.0.0.1".to_owned(),
            local_port: 8080,
            remote_host: "127.0.0.1".to_owned(),
            remote_port: 80,
            auto_start: false,
        }
    }

    /// A field-by-field copy.
    pub fn duplicate(&self) -> (r: Self)
        ensures
            r == *self,
    {
        PortForward {
            id: self.id.clone(),
            direction: self.direction,
            local_host: self.local_host.clone(),
            local_port: self.local_port,
            remote_host: self.remote_host.clone(),
            remote_port: self.remote_port,
            auto_start: self.auto_start,
        }
    }
}

impl Default for PortForward {
    fn default() -> (r: Self)
        ensures
            r.id@.len() == 21,
            r.direction == ForwardDirection::Local,
            r.local_host@ == "127.0.0.1"@,
            r.local_port == 8080,
            r.remote_host@ == "127.0.0.1"@,
            r.remote_port == 80,
            !r.auto_start,
    {
        PortForward::new()
    }
}

/// Calls `std::time::SystemTime::now()` and takes the whole seconds since the
/// Unix epoch (0 for a clock set before it). The value depends on the clock;
/// nothing is stated of it.
#[verifier::external_body]
fn unix_now_secs() -> (r: i64) {
    std::time::SystemTime::now()
        .duration_since(std::time::UNIX_EPOCH)
        .map(|d| d.as_secs() as i64)
        .unwrap_or(0)
}

/// One SSH host entry: everything needed to connect but the secret.
#[derive(Debug, Clone)]
pub struct SshHost {
    pub id: String,
    /// Display name.
    pub name: String,
    /// Hostname or IP address.
    pub host: String,
    pub port: u16,
    pub username: String,
    pub auth_type: SshAuthType,
    /// Private key file (key authentication only).
    pub key_path: Option<String>,
    pub host_type: SshHostType,
    /// For a host reached through a bastion: that bastion's id.
    pub bastion_id: Option<String>,
    /// The address the bastion dials, when not `host:port`.
    pub bastion_target_override: Option<String>,
    /// Color tag for visual grouping.
    pub color: Option<String>,
    /// Configured port forwards (configuration only, not runtime state).
    pub port_forwards: Vec<PortForward>,
    /// Creation time, Unix seconds.
    pub created_at: i64,
}

/// The value of a host record: its fields, strings taken as char sequences.
pub struct SshHostView {
    pub id: Seq<char>,
    pub name: Seq<char>,
    pub host: Seq<char>,
    pub port: u16,
    pub username: Seq<char>,
    pub auth_type: SshAuthType,
    pub key_path: Option<Seq<char>>,
    pub host_type: SshHostType,
    pub bastion_id: Option<Seq<char>>,
    pub bastion_target_override: Option<Seq<char>>,
    pub color: Option<Seq<char>>,
    pub port_forwards: Seq<PortForward>,
    pub created_at: i64,
}

impl SshHostView {
    pub open spec fn is_bastion(self) -> bool {
        self.host_type == SshHostType::Bastion
    }

    pub open spec fn has_bastion(self) -> bool {
        self.bastion_id is Some
    }
}

impl View for SshHost {
    type V = SshHostView;

    open spec fn view(&self) -> SshHostView {
        SshHostView {
            id: self.id@,
            name: self.name@,
            host: self.host@,
            port: self.port,
            username: self.username@,
            auth_type: self.auth_type,
            key_path: opt_view(self.key_path),
            host_type: self.host_type,
            bastion_id: opt_view(self.bastion_id),
            bastion_target_override: opt_view(self.bastion_target_override),
            color: opt_view(self.color),
            port_forwards: self.port_forwards@,
            created_at: self.created_at,
        }
    }
}

/// The values of a list of host records.
pub open spec fn hosts_view(s: Seq<SshHost>) -> Seq<SshHostView> {
    s.map_values(|h: SshHost| h@)
}

/// A copy of a list of port forwards.
fn copy_forwards(v: &Vec<PortForward>) -> (r: Vec<PortForward>)
    ensures
        r@ == v@,
{
    let mut out: Vec<PortForward> = Vec::new();
    let mut i: usize = 0;
    while i < v.len()
        invariant
            i <= v@.len(),
            out@ == v@.take(i as int),
        decreases v.len() - i,
    {
        out.push(v[i].duplicate());
        assert(v@.take(i + 1) == v@.take(i as int).push(v@[i as int]));
        i = i + 1;
    }
    assert(v@.take(v@.len() as int) == v@);
    out
}

fn copy_opt(s: &Option<String>) -> (r: Option<String>)
    ensures
        r == *s,
{
    match s {
        Some(v) => Some(v.clone()),
        None => None,
    }
}

impl SshHost {
    /// The list summary: `<username> ssh`, with `user` for a blank username.
    pub open spec fn spec_address_summary(self) -> Seq<char> {
        (if self.username@.len() == 0 { "user"@ } else { self.username@ }) + " ssh"@
    }

    pub open spec fn spec_is_bastion(self) -> bool {
        self.host_type == SshHostType::Bastion
    }

    pub open spec fn spec_has_bastion(self) -> bool {
        self.bastion_id is Some
    }

    /// A direct host on port 22 with password authentication, a fresh id, no
    /// username, bastion, color or forwards, stamped with the current time.
    pub fn new(name: &str, host: &str) -> (r: Self)
        ensures
            r.id@.len() == 21,
            r.name@ == name@,
            r.host@ == host@,
            r.port == 22,
            r.username@ == Seq::<char>::empty(),
            r.auth_type == SshAuthType::Password,
            r.key_path is None,
            r.host_type == SshHostType::Direct,
            r.bastion_id is None,
            r.bastion_target_override is None,
            r.color is None,
            r.port_forwards@.len() == 0,
    {
        SshHost {
            id: new_id(),
            name: name.to_owned(),
            host: host.to_owned(),
            port: 22,
            username: String::new(),
            auth_type: SshAuthType::Password,
            key_path: None,
            host_type: SshHostType::Direct,
            bastion_id: None,
            bastion_target_override: None,
            color: None,
            port_forwards: Vec::new(),
            created_at: unix_now_secs(),
        }
    }

    pub fn address_summary(&self) -> (r: String)
        ensures
            r@ == self.spec_address_summary(),
    {
        let mut out = if self.username.as_str().is_empty() {
            "user".to_owned()
        } else {
            self.username.clone()
        };
        out.append(" ssh");
        out
    }

    pub fn is_bastion(&self) -> (r: bool)
        ensures
            r == self.spec_is_bastion(),
    {
        self.host_type == SshHostType::Bastion
    }

    pub fn has_bastion(&self) -> (r: bool)
        ensures
            r == self.spec_has_bastion(),
    {
        self.bastion_id.is_some()
    }

    /// A field-by-field copy.
    pub fn duplicate(&self) -> (r: Self)
        ensures
            r@ == self@,
    {
        SshHost {
            id: self.id.clone(),
            name: self.name.clone(),
            host: self.host.clone(),
            port: self.port,
            username: self.username.clone(),
            auth_type: self.auth_type,
            key_path: copy_opt(&self.key_path),
            host_type: self.host_type,
            bastion_id: copy_opt(&self.bastion_id),
            bastion_target_override: copy_opt(&self.bastion_target_override),
            color: copy_opt(&self.color),
            port_forwards: copy_forwards(&self.port_forwards),
            created_at: self.created_at,
        }
    }
}

} // verus!
