//! The connection layer's plain values: what a session reports, resize
//! requests, and the classification of connection failures into a message
//! and a retry hint.

use vstd::prelude::*;
use crate::text::{chars_of, str_eq, str_trim, trim};

verus! {

/// What a session reports to the terminal.
#[derive(Debug)]
pub enum SshOutput {
    /// Output of the remote shell.
    Data(Vec<u8>),
    /// The session ended, with the exit code when known.
    Closed(Option<u32>),
    /// A connection error; `retryable` is false for configuration problems
    /// (credentials, port, host key) that retrying will not fix.
    Error { message: String, retryable: bool },
}

/// A terminal resize sent to the session task.
#[derive(Debug, Clone, Copy, PartialEq, Eq, Structural)]
pub struct ResizeCmd {
    pub cols: u32,
    pub rows: u32,
}

/// A classified connection error: a message for the user and whether
/// retrying can help.
#[derive(Debug)]
pub struct SshError {
    pub message: String,
    pub retryable: bool,
}

/// The kind of an I/O failure while dialing, as the classification reads it.
#[derive(Debug)]
pub enum IoFailure {
    ConnectionRefused,
    NetworkUnreachable,
    HostUnreachable,
    TimedOut,
    NotFound,
    PermissionDenied,
    /// Any other kind, with its description.
    Other { text: String },
}

/// A failure of the SSH layer, as the classification reads it.
#[derive(Debug)]
pub enum ConnectFailure {
    /// The server's host key does not match the saved one.
    UnknownKey,
    Io(IoFailure),
    /// A connection, keepalive or inactivity timeout.
    Timeout,
    /// The peer hung up or disconnected.
    Closed,
    /// Any other failure, with its description.
    Other { text: String },
}

pub open spec fn host_key_message() -> Seq<char> {
    "服务器主机密钥与本地已保存的不一致，可能存在中间人攻击，已拒绝连接"@
}

pub open spec fn local_network_message() -> Seq<char> {
    "无法访问本地网络主机。这通常是 macOS「本地网络」隐私权限未授予：\n请打开 系统设置 → 隐私与安全性 → 本地网络，允许 Verve 访问，然后重试。\n（若列表中无 Verve，请使用打包后的 .app 重新启动以触发授权弹窗）"@
}

/// The message and retry hint of an I/O failure while dialing `where_`.
/// `target_local` tells whether the target is a local-network address and
/// `macos` whether this runs on macOS, where a blocked local-network
/// permission shows as an unreachable network.
pub open spec fn spec_io_error(io: IoFailure, where_: Seq<char>, target_local: bool, macos: bool) -> (
    Seq<char>,
    bool,
) {
    match io {
        IoFailure::ConnectionRefused => (
            "连接被拒绝：目标端口上没有服务，请确认端口号是否正确、SSH 服务是否已启动"@,
            false,
        ),
        IoFailure::NetworkUnreachable | IoFailure::HostUnreachable => if target_local && macos {
            (local_network_message(), true)
        } else {
            ("网络不可达，请检查主机地址或网络连接"@, true)
        },
        IoFailure::TimedOut => ("连接超时，请检查主机地址是否正确、网络是否可达"@, true),
        IoFailure::NotFound => ("无法解析主机地址，请检查主机名是否正确"@, false),
        IoFailure::PermissionDenied => (where_ + "被拒绝（权限不足）"@, false),
        IoFailure::Other { text } => (where_ + "失败: "@ + text@, true),
    }
}

/// The message and retry hint of a failure of the SSH layer.
pub open spec fn spec_ssh_error(f: ConnectFailure, where_: Seq<char>, target_local: bool, macos: bool) -> (
    Seq<char>,
    bool,
) {
    match f {
        ConnectFailure::UnknownKey => (host_key_message(), false),
        ConnectFailure::Io(io) => spec_io_error(io, where_, target_local, macos),
        ConnectFailure::Timeout => (where_ + "超时，请检查网络或主机地址是否可达"@, true),
        ConnectFailure::Closed => (where_ + "被对端关闭"@, true),
        ConnectFailure::Other { text } => (where_ + "失败: "@ + text@, true),
    }
}

fn concat2(a: &str, b: &str) -> (r: String)
    ensures
        r@ == a@ + b@,
{
    let mut s = a.to_owned();
    s.append(b);
    s
}

fn concat3(a: &str, b: &str, c: &str) -> (r: String)
    ensures
        r@ == a@ + b@ + c@,
{
    let mut s = a.to_owned();
    s.append(b);
    s.append(c);
    s
}

impl SshError {
    pub fn new(message: &str, retryable: bool) -> (r: Self)
        ensures
            r.message@ == message@,
            r.retryable == retryable,
    {
        SshError { message: message.to_owned(), retryable }
    }

    /// Classifies an I/O failure while dialing.
    pub fn from_io(io: &IoFailure, where_: &str, target_local: bool, macos: bool) -> (r: Self)
        ensures
            (r.message@, r.retryable) == spec_io_error(*io, where_@, target_local, macos),
    {
        match io {
            IoFailure::ConnectionRefused => SshError::new(
                "连接被拒绝：目标端口上没有服务，请确认端口号是否正确、SSH 服务是否已启动",
                false,
            ),
            IoFailure::NetworkUnreachable | IoFailure::HostUnreachable => {
                if target_local && macos {
                    SshError::new(
                        "无法访问本地网络主机。这通常是 macOS「本地网络」隐私权限未授予：\n请打开 系统设置 → 隐私与安全性 → 本地网络，允许 Verve 访问，然后重试。\n（若列表中无 Verve，请使用打包后的 .app 重新启动以触发授权弹窗）",
                        true,
                    )
                } else {
                    SshError::new("网络不可达，请检查主机地址或网络连接", true)
                }
            },
            IoFailure::TimedOut => SshError::new("连接超时，请检查主机地址是否正确、网络是否可达", true),
            IoFailure::NotFound => SshError::new("无法解析主机地址，请检查主机名是否正确", false),
            IoFailure::PermissionDenied => SshError {
                message: concat2(where_, "被拒绝（权限不足）"),
                retryable: false,
            },
            IoFailure::Other { text } => SshError {
                message: concat3(where_, "失败: ", text.as_str()),
                retryable: true,
            },
        }
    }

    /// Classifies a failure of the SSH layer; `where_` names the step
    /// (connecting, the bastion, …).
    pub fn from_failure(f: &ConnectFailure, where_: &str, target_local: bool, macos: bool) -> (r: Self)
        ensures
            (r.message@, r.retryable) == spec_ssh_error(*f, where_@, target_local, macos),
    {
        match f {
            ConnectFailure::UnknownKey => SshError::new(
                "服务器主机密钥与本地已保存的不一致，可能存在中间人攻击，已拒绝连接",
                false,
            ),
            ConnectFailure::Io(io) => SshError::from_io(io, where_, target_local, macos),
            ConnectFailure::Timeout => SshError {
                message: concat2(where_, "超时，请检查网络或主机地址是否可达"),
                retryable: true,
            },
            ConnectFailure::Closed => SshError { message: concat2(where_, "被对端关闭"), retryable: true },
            ConnectFailure::Other { text } => SshError {
                message: concat3(where_, "失败: ", text.as_str()),
                retryable: true,
            },
        }
    }

    /// The message (what `Display` shows for the error).
    pub fn to_string(&self) -> (r: String)
        ensures
            r@ == self.message@,
    {
        self.message.clone()
    }
}

/// An IP address literal.
#[derive(Debug, Clone, Copy)]
pub enum IpLiteral {
    V4([u8; 4]),
    /// The eight 16-bit groups.
    V6([u16; 8]),
}

/// The part of a host that is tried as an address literal: the host trimmed
/// of whitespace and of trailing `%`, up to the first `%` (an IPv6 zone id).
pub open spec fn local_candidate(host: Seq<char>) -> Seq<char> {
    let t = trim_end_percent(trim(host));
    match first_percent(t) {
        Some(i) => t.take(i),
        None => t,
    }
}

pub open spec fn trim_end_percent(s: Seq<char>) -> Seq<char>
    decreases s.len(),
{
    if s.len() > 0 && s.last() == '%' {
        trim_end_percent(s.drop_last())
    } else {
        s
    }
}

pub open spec fn first_percent(s: Seq<char>) -> Option<int> {
    if exists|i: int| 0 <= i < s.len() && s[i] == '%' {
        Some(choose|i: int| 0 <= i < s.len() && s[i] == '%' && forall|j: int| 0 <= j < i ==> s[j] != '%')
    } else {
        None
    }
}

/// The address range checks: IPv4 loopback (127/8), private (10/8,
/// 172.16/12, 192.168/16), link-local (169.254/16) and broadcast; IPv6
/// loopback (::1) and unicast link-local (fe80::/10).
pub open spec fn ip_is_local(ip: IpLiteral) -> bool {
    match ip {
        IpLiteral::V4(o) => o[0] == 127 || o[0] == 10 || (o[0] == 172 && 16 <= o[1] && o[1] <= 31) || (
        o[0] == 192 && o[1] == 168) || (o[0] == 169 && o[1] == 254) || (o[0] == 255 && o[1] == 255
            && o[2] == 255 && o[3] == 255),
        IpLiteral::V6(g) => (g[0] == 0 && g[1] == 0 && g[2] == 0 && g[3] == 0 && g[4] == 0 && g[5] == 0
            && g[6] == 0 && g[7] == 1) || (g[0] & 0xffc0u16) == 0xfe80u16,
    }
}

pub open spec fn ends_with(s: Seq<char>, suffix: Seq<char>) -> bool {
    s.len() >= suffix.len() && s.skip(s.len() - suffix.len()) == suffix
}

/// Whether the candidate part of a host names the local network: the names
/// `localhost`, `127.0.0.1`, `::1`; a local address literal (`ip` is the
/// candidate parsed as one, if it is one); or an mDNS `.local` name.
pub open spec fn spec_is_local_network(candidate: Seq<char>, ip: Option<IpLiteral>) -> bool {
    if candidate == "localhost"@ || candidate == "127.0.0.1"@ || candidate == "::1"@ {
        true
    } else {
        match ip {
            Some(a) => ip_is_local(a),
            None => ends_with(candidate, ".local"@) || candidate == "local"@,
        }
    }
}

/// The part of a host to parse as an address literal (see
/// `local_candidate`).
pub fn local_network_candidate(host: &str) -> (r: String)
    ensures
        r@ == local_candidate(host@),
{
    let t = chars_of(str_trim(host));
    let mut n: usize = t.len();
    assert(t@.take(n as int) =~= t@);
    while n > 0 && t[n - 1] == '%'
        invariant
            n <= t@.len(),
            trim_end_percent(t@) == trim_end_percent(t@.take(n as int)),
        decreases n,
    {
        assert(t@.take(n as int).drop_last() =~= t@.take(n - 1));
        n = n - 1;
    }
    let ghost u = t@.take(n as int);
    assert(trim_end_percent(u) == u);
    assert(u == trim_end_percent(trim(host@)));
    let mut out: Vec<char> = Vec::new();
    let mut i: usize = 0;
    while i < n
        invariant
            n <= t@.len(),
            u == t@.take(n as int),
            u == trim_end_percent(trim(host@)),
            i <= n,
            out@ == u.take(i as int),
            forall|j: int| 0 <= j < i ==> u[j] != '%',
        decreases n - i,
    {
        if t[i] == '%' {
            proof {
                assert(u[i as int] == '%');
                let c = choose|k: int| 0 <= k < u.len() && u[k] == '%' && forall|j: int| 0 <= j < k ==> u[j] != '%';
                assert(c == i) by {
                    if c < i {
                        assert(u[c] != '%');
                    } else if c > i {
                        assert(u[i as int] != '%');
                    }
                }
            }
            return crate::text::string_from_chars(out.as_slice());
        }
        out.push(t[i]);
        assert(u.take(i + 1) =~= u.take(i as int).push(u[i as int]));
        i = i + 1;
    }
    assert(u.take(n as int) =~= u);
    crate::text::string_from_chars(out.as_slice())
}

/// Whether a host is on the local network (where macOS needs the Local
/// Network permission). `candidate` is `local_network_candidate(host)` and
/// `ip` that candidate parsed as an address literal, when it is one.
/// Host names other than `localhost` and `.local` names are not classified.
pub fn is_local_network_host(candidate: &str, ip: Option<IpLiteral>) -> (r: bool)
    ensures
        r == spec_is_local_network(candidate@, ip),
{
    if str_eq(candidate, "localhost") || str_eq(candidate, "127.0.0.1") || str_eq(candidate, "::1") {
        return true;
    }
    match ip {
        Some(IpLiteral::V4(o)) => {
            o[0] == 127 || o[0] == 10 || (o[0] == 172 && 16 <= o[1] && o[1] <= 31) || (o[0] == 192 && o[1]
                == 168) || (o[0] == 169 && o[1] == 254) || (o[0] == 255 && o[1] == 255 && o[2] == 255 && o[3]
                == 255)
        },
        Some(IpLiteral::V6(g)) => {
            (g[0] == 0 && g[1] == 0 && g[2] == 0 && g[3] == 0 && g[4] == 0 && g[5] == 0 && g[6] == 0 && g[7]
                == 1) || (g[0] & 0xffc0u16) == 0xfe80u16
        },
        None => {
            let c = chars_of(candidate);
            let suffix = chars_of(".local");
            proof {
                reveal_strlit(".local");
            }
            let mut ends = false;
            let cl = c.len();
            if cl >= 6 {
                let base = cl - 6;
                let mut k: usize = 0;
                ends = true;
                while k < 6
                    invariant
                        k <= 6,
                        suffix@ == ".local"@,
                        suffix@.len() == 6,
                        cl == c@.len(),
                        cl >= 6,
                        base == cl - 6,
                        ends == forall|j: int| 0 <= j < k ==> c@[base + j] == suffix@[j],
                    decreases 6 - k,
                {
                    if c[base + k] != suffix[k] {
                        ends = false;
                    }
                    k = k + 1;
                }
                proof {
                    if ends {
                        assert(c@.skip(base as int) =~= suffix@);
                    } else {
                        let j = choose|j: int| 0 <= j < 6 && c@[base + j] != suffix@[j];
                        assert(c@.skip(base as int)[j] != suffix@[j]);
                    }
                }
            }
            ends || str_eq(candidate, "local")
        },
    }
}

} // verus!
