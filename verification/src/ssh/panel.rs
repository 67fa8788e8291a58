//! What the SSH panel decides beside drawing: prompt and status texts, the
//! host picker's search, the port-forward form, and duplicating a host or a
//! session tab.

use vstd::prelude::*;
use crate::ssh::credentials::{load_secret, spec_keyring_key, store_secret};
use crate::ssh::host_store::{find_host, spec_find_host, spec_upsert, upsert_host};
use crate::ssh::models::{hosts_view, PortForward, SshAuthType, SshHost, SshHostType, SshHostView};
use crate::ssh::session::SessionTabs;
use crate::ssh::vault::SecretMap;
use crate::state::ids::new_id;
use crate::text::{
    chars_of, contains_seq, decimal, push_decimal, str_contains, str_to_lowercase, str_trim,
    string_from_chars, trim, unicode_lowercase,
};

verus! {

/// A prompt elided to `max` chars: unchanged when it fits, else its first
/// `max - 1` chars (none when `max` is 0) and `…`.
pub open spec fn spec_truncate_prompt(s: Seq<char>, max: nat) -> Seq<char> {
    if s.len() <= max {
        s
    } else {
        s.take(if max > 0 { max - 1 } else { 0 }) + seq!['…']
    }
}

/// Elides a server-supplied prompt to `max` chars (counted in chars, so
/// multi-byte text is never cut inside a char).
pub fn truncate_prompt(s: &str, max: usize) -> (r: String)
    ensures
        r@ == spec_truncate_prompt(s@, max as nat),
{
    let chars = chars_of(s);
    if chars.len() <= max {
        return s.to_owned();
    }
    let keep: usize = if max > 0 { max - 1 } else { 0 };
    let mut head: Vec<char> = Vec::new();
    let mut i: usize = 0;
    while i < keep
        invariant
            keep < chars@.len(),
            i <= keep,
            head@ == chars@.take(i as int),
        decreases keep - i,
    {
        head.push(chars[i]);
        assert(chars@.take(i + 1) =~= chars@.take(i as int).push(chars@[i as int]));
        i = i + 1;
    }
    head.push('…');
    string_from_chars(head.as_slice())
}

/// The short status-bar label of a detailed connection error message.
pub open spec fn spec_error_short_label(m: Seq<char>) -> Seq<char> {
    if contains_seq(m, "认证失败"@) {
        "认证失败"@
    } else if contains_seq(m, "连接被拒绝"@) {
        "端口不通"@
    } else if contains_seq(m, "超时"@) {
        "连接超时"@
    } else if contains_seq(m, "主机密钥"@) {
        "主机密钥异常"@
    } else if contains_seq(m, "无法解析主机"@) || contains_seq(m, "网络不可达"@) {
        "主机不可达"@
    } else if contains_seq(m, "跳板机"@) {
        "跳板机错误"@
    } else {
        "连接失败"@
    }
}

pub fn ssh_error_short_label(message: &str) -> (r: String)
    ensures
        r@ == spec_error_short_label(message@),
{
    if str_contains(message, "认证失败") {
        "认证失败".to_owned()
    } else if str_contains(message, "连接被拒绝") {
        "端口不通".to_owned()
    } else if str_contains(message, "超时") {
        "连接超时".to_owned()
    } else if str_contains(message, "主机密钥") {
        "主机密钥异常".to_owned()
    } else if str_contains(message, "无法解析主机") || str_contains(message, "网络不可达") {
        "主机不可达".to_owned()
    } else if str_contains(message, "跳板机") {
        "跳板机错误".to_owned()
    } else {
        "连接失败".to_owned()
    }
}

/// The host picker lists a host when the lower-cased search is empty or occurs
/// in its lower-cased name, its lower-cased address or its port in decimal.
pub open spec fn spec_host_matches(name_l: Seq<char>, host_l: Seq<char>, port: u16, query_l: Seq<char>) -> bool {
    query_l.len() == 0 || contains_seq(name_l, query_l) || contains_seq(host_l, query_l) || contains_seq(
        decimal(port as nat),
        query_l,
    )
}

/// Whether the picker lists a host, given its lower-cased name and address and
/// the lower-cased search.
pub fn host_matches(name_l: &str, host_l: &str, port: u16, query_l: &str) -> (r: bool)
    ensures
        r == spec_host_matches(name_l@, host_l@, port, query_l@),
{
    if query_l.is_empty() {
        return true;
    }
    let mut port_text = String::new();
    push_decimal(&mut port_text, port as u64);
    assert(port_text@ =~= decimal(port as nat));
    str_contains(name_l, query_l) || str_contains(host_l, query_l) || str_contains(port_text.as_str(), query_l)
}

/// The positions, in order, of the hosts among the first `n` that the picker
/// lists for search `query`.
pub open spec fn picker_positions(hosts: Seq<SshHost>, query: Seq<char>, n: int) -> Seq<usize>
    decreases n,
{
    if n <= 0 {
        Seq::empty()
    } else {
        let prev = picker_positions(hosts, query, n - 1);
        let h = hosts[n - 1];
        if spec_host_matches(
            unicode_lowercase(h.name@),
            unicode_lowercase(h.host@),
            h.port,
            unicode_lowercase(query),
        ) {
            prev.push((n - 1) as usize)
        } else {
            prev
        }
    }
}

/// The hosts the picker lists for `query`, by position: a case-insensitive
/// search over name and address, plus the port.
pub fn host_picker_matches(hosts: &Vec<SshHost>, query: &str) -> (r: Vec<usize>)
    ensures
        r@ == picker_positions(hosts@, query@, hosts@.len() as int),
{
    let query_l = str_to_lowercase(query);
    let mut out: Vec<usize> = Vec::new();
    let mut i: usize = 0;
    while i < hosts.len()
        invariant
            i <= hosts@.len(),
            query_l@ == unicode_lowercase(query@),
            out@ == picker_positions(hosts@, query@, i as int),
        decreases hosts.len() - i,
    {
        let name_l = str_to_lowercase(hosts[i].name.as_str());
        let host_l = str_to_lowercase(hosts[i].host.as_str());
        if host_matches(name_l.as_str(), host_l.as_str(), hosts[i].port, query_l.as_str()) {
            out.push(i);
        }
        i = i + 1;
    }
    out
}

pub open spec fn is_digit(c: char) -> bool {
    '0' <= c && c <= '9'
}

/// The value of a run of decimal digits.
pub open spec fn digits_value(s: Seq<char>) -> nat
    decreases s.len(),
{
    if s.len() == 0 {
        0
    } else {
        digits_value(s.drop_last()) * 10 + ((s.last() as u32) - ('0' as u32)) as nat
    }
}

/// What `str::parse::<u16>` accepts: an optional `+`, then one or more ASCII
/// digits whose value fits in 16 bits.
pub open spec fn unsigned_digits(s: Seq<char>) -> Seq<char> {
    if s.len() > 0 && s[0] == '+' {
        s.drop_first()
    } else {
        s
    }
}

pub open spec fn all_digits(d: Seq<char>) -> bool {
    forall|i: int| 0 <= i < d.len() ==> is_digit(#[trigger] d[i])
}

pub open spec fn spec_parse_u16(s: Seq<char>) -> Option<u16> {
    let d = unsigned_digits(s);
    if d.len() > 0 && all_digits(d) && digits_value(d) <= 65535 {
        Some(digits_value(d) as u16)
    } else {
        None
    }
}

proof fn lemma_digits_value_grows(s: Seq<char>, n: int)
    requires
        0 <= n <= s.len(),
        forall|i: int| 0 <= i < s.len() ==> is_digit(#[trigger] s[i]),
    ensures
        digits_value(s.take(n)) <= digits_value(s),
    decreases s.len() - n,
{
    if n < s.len() {
        lemma_digits_value_grows(s, n + 1);
        assert(s.take(n + 1).drop_last() =~= s.take(n));
    } else {
        assert(s.take(n) =~= s);
    }
}

/// A port number as `str::parse::<u16>` reads it.
pub fn parse_u16(s: &str) -> (r: Option<u16>)
    ensures
        r == spec_parse_u16(s@),
{
    let cs = chars_of(s);
    let start: usize = if cs.len() > 0 && cs[0] == '+' { 1 } else { 0 };
    let ghost d = unsigned_digits(s@);
    assert(d =~= cs@.subrange(start as int, cs@.len() as int));
    if start >= cs.len() {
        return None;
    }
    let mut v: u32 = 0;
    let mut i: usize = start;
    while i < cs.len()
        invariant
            start <= i <= cs@.len(),
            start < cs@.len(),
            cs@ == s@,
            d == unsigned_digits(s@),
            d =~= cs@.subrange(start as int, cs@.len() as int),
            forall|j: int| 0 <= j < i - start ==> is_digit(#[trigger] d[j]),
            v as nat == digits_value(d.take(i - start)),
            v <= 65535,
        decreases cs.len() - i,
    {
        let c = cs[i];
        let ghost k = i - start;
        assert(c == d[k]);
        if !('0' <= c && c <= '9') {
            assert(!is_digit(d[k]));
            assert(!all_digits(d));
            return None;
        }
        assert(d.take(k + 1).drop_last() =~= d.take(k));
        assert(d.take(k + 1).last() == c);
        assert(digits_value(d.take(k + 1)) == digits_value(d.take(k)) * 10 + ((c as u32) - ('0' as u32)) as nat);
        v = v * 10 + ((c as u32) - ('0' as u32));
        i = i + 1;
        if v > 65535 {
            proof {
                if all_digits(d) {
                    lemma_digits_value_grows(d, i - start);
                }
            }
            return None;
        }
    }
    assert(d.take(d.len() as int) =~= d);
    Some(v as u16)
}

/// The port-forward form: local port, remote host and remote port, each
/// trimmed. The first problem found is reported: the local port, then the
/// remote port, then an empty remote host.
pub open spec fn spec_forward_form(lp: Seq<char>, rh: Seq<char>, rp: Seq<char>) -> Result<
    (u16, Seq<char>, u16),
    Seq<char>,
> {
    match spec_parse_u16(trim(lp)) {
        None => Err("本地端口无效"@),
        Some(l) => match spec_parse_u16(trim(rp)) {
            None => Err("远端端口无效"@),
            Some(p) => if trim(rh).len() == 0 {
                Err("远端 host 不能为空"@)
            } else {
                Ok((l, trim(rh), p))
            },
        },
    }
}

/// A new forward from the form (a fresh id, local bind `127.0.0.1`, not
/// auto-started), or the message explaining what is wrong with it.
pub fn forward_from_form(local_port: &str, remote_host: &str, remote_port: &str) -> (r: Result<
    PortForward,
    String,
>)
    ensures
        match spec_forward_form(local_port@, remote_host@, remote_port@) {
            Ok((l, h, p)) => r matches Ok(f) && f.local_port == l && f.remote_host@ == h && f.remote_port == p
                && f.local_host@ == "127.0.0.1"@ && f.direction == crate::ssh::models::ForwardDirection::Local
                && !f.auto_start && f.id@.len() == 21,
            Err(m) => r matches Err(e) && e@ == m,
        },
{
    let lp = parse_u16(str_trim(local_port));
    let rh = str_trim(remote_host);
    let rp = parse_u16(str_trim(remote_port));
    match lp {
        None => Err("本地端口无效".to_owned()),
        Some(l) => match rp {
            None => Err("远端端口无效".to_owned()),
            Some(p) => {
                if rh.is_empty() {
                    Err("远端 host 不能为空".to_owned())
                } else {
                    let mut f = PortForward::new();
                    f.local_port = l;
                    f.remote_host = rh.to_owned();
                    f.remote_port = p;
                    Ok(f)
                }
            },
        },
    }
}

/// `d` duplicates host `src`: a fresh id, the name with the suffix ` 副本`,
/// every forward under a fresh id, everything else but the creation time
/// copied.
pub open spec fn is_host_duplicate(d: SshHostView, src: SshHostView) -> bool {
    &&& d.id.len() == 21
    &&& d.name == src.name + " 副本"@
    &&& d.host == src.host
    &&& d.port == src.port
    &&& d.username == src.username
    &&& d.auth_type == src.auth_type
    &&& d.key_path == src.key_path
    &&& d.host_type == src.host_type
    &&& d.bastion_id == src.bastion_id
    &&& d.bastion_target_override == src.bastion_target_override
    &&& d.color == src.color
    &&& d.port_forwards.len() == src.port_forwards.len()
    &&& forall|i: int|
        0 <= i < d.port_forwards.len() ==> (#[trigger] d.port_forwards[i]).id@.len() == 21 && d.port_forwards[i]
            == (PortForward { id: d.port_forwards[i].id, ..src.port_forwards[i] })
}

fn copy_opt_text(s: &Option<String>) -> (r: Option<String>)
    ensures
        r == *s,
{
    match s {
        Some(v) => Some(v.clone()),
        None => None,
    }
}

/// A duplicate of host `src` (see `is_host_duplicate`), stamped now.
pub fn duplicate_host_record(src: &SshHost) -> (r: SshHost)
    ensures
        is_host_duplicate(r@, src@),
{
    let mut name = src.name.clone();
    name.append(" 副本");
    let mut dup = SshHost::new(name.as_str(), src.host.as_str());
    dup.id = new_id();
    dup.port = src.port;
    dup.username = src.username.clone();
    dup.auth_type = src.auth_type;
    dup.key_path = copy_opt_text(&src.key_path);
    dup.host_type = src.host_type;
    dup.bastion_id = copy_opt_text(&src.bastion_id);
    dup.bastion_target_override = copy_opt_text(&src.bastion_target_override);
    dup.color = copy_opt_text(&src.color);
    let mut forwards: Vec<PortForward> = Vec::new();
    let mut i: usize = 0;
    while i < src.port_forwards.len()
        invariant
            i <= src.port_forwards@.len(),
            forwards@.len() == i,
            forall|j: int|
                0 <= j < i ==> (#[trigger] forwards@[j]).id@.len() == 21 && forwards@[j] == (PortForward {
                    id: forwards@[j].id,
                    ..src.port_forwards@[j]
                }),
        decreases src.port_forwards.len() - i,
    {
        let pf = &src.port_forwards[i];
        forwards.push(
            PortForward {
                id: new_id(),
                direction: pf.direction,
                local_host: pf.local_host.clone(),
                local_port: pf.local_port,
                remote_host: pf.remote_host.clone(),
                remote_port: pf.remote_port,
                auto_start: pf.auto_start,
            },
        );
        i = i + 1;
    }
    dup.port_forwards = forwards;
    dup
}

/// The vault after copying the secret of `kind` from host `from` to host
/// `to`, when `from` has one.
pub open spec fn copy_secret(m: Map<Seq<char>, Seq<char>>, from: Seq<char>, to: Seq<char>, kind: Seq<char>) -> Map<
    Seq<char>,
    Seq<char>,
> {
    if m.contains_key(spec_keyring_key(from, kind)) {
        m.insert(spec_keyring_key(to, kind), m[spec_keyring_key(from, kind)])
    } else {
        m
    }
}

/// The vault after copying both kinds of secret, the password first.
pub open spec fn copy_host_secrets_spec(m: Map<Seq<char>, Seq<char>>, from: Seq<char>, to: Seq<char>) -> Map<
    Seq<char>,
    Seq<char>,
> {
    copy_secret(copy_secret(m, from, to, "password"@), from, to, "key_passphrase"@)
}

/// Copies the stored password and key passphrase of host `from`, those it
/// has, to host `to`.
pub fn copy_host_secrets(vault: &mut SecretMap, from: &str, to: &str)
    requires
        old(vault).wf(),
    ensures
        final(vault).wf(),
        final(vault).view() == copy_host_secrets_spec(old(vault).view(), from@, to@),
{
    if let Some(secret) = load_secret(vault, from, "password") {
        store_secret(vault, to, "password", secret.as_str());
    }
    if let Some(secret) = load_secret(vault, from, "key_passphrase") {
        store_secret(vault, to, "key_passphrase", secret.as_str());
    }
}

/// Duplicates host `id`: a copy under a fresh id (see `is_host_duplicate`)
/// is added to the list, with the secrets of the original copied to it. The
/// new id is returned; nothing changes when no host has that id.
pub fn duplicate_host(hosts: &mut Vec<SshHost>, vault: &mut SecretMap, id: &str) -> (r: Option<String>)
    requires
        old(vault).wf(),
    ensures
        final(vault).wf(),
        match spec_find_host(hosts_view(old(hosts)@), id@) {
            None => r is None && final(hosts)@ == old(hosts)@ && final(vault).view() == old(vault).view(),
            Some(src) => r matches Some(new_id) && (exists|d: SshHostView|
                #[trigger] is_host_duplicate(d, src) && d.id == new_id@ && hosts_view(final(hosts)@)
                    == spec_upsert(hosts_view(old(hosts)@), d)) && final(vault).view() == copy_host_secrets_spec(
                old(vault).view(),
                id@,
                new_id@,
            ),
        },
{
    let src = match find_host(hosts, id) {
        Some(h) => h,
        None => return None,
    };
    let dup = duplicate_host_record(&src);
    let new_id = dup.id.clone();
    copy_host_secrets(vault, id, new_id.as_str());
    let ghost d = dup@;
    assert(is_host_duplicate(d, src@));
    upsert_host(hosts, dup);
    Some(new_id)
}

/// How a session tab is duplicated.
#[derive(Debug)]
pub enum DuplicatePlan {
    /// A local-shell tab gets a fresh local shell.
    LocalShell,
    /// Open a second shell on the tab's authenticated connection (no second
    /// login or verification code), for this host.
    ReuseConnection(SshHost),
    /// Connect afresh to this host.
    FreshConnect(SshHost),
    /// Nothing to do: no such tab, or its host is gone.
    Nothing,
}

/// The host record standing in for a host that is no longer saved: the tab's
/// id and name, defaults otherwise.
pub open spec fn is_stand_in_host(h: SshHostView, id: Seq<char>, name: Seq<char>) -> bool {
    &&& h.id == id
    &&& h.name == name
    &&& h.host == Seq::<char>::empty()
    &&& h.port == 22
    &&& h.username == Seq::<char>::empty()
    &&& h.auth_type == SshAuthType::Password
    &&& h.key_path is None
    &&& h.host_type == SshHostType::Direct
    &&& h.bastion_id is None
    &&& h.bastion_target_override is None
    &&& h.color is None
    &&& h.port_forwards.len() == 0
}

/// The plan for duplicating tab `idx`: a local tab duplicates into a local
/// shell; a tab with a live connection reuses it (with the saved host, or a
/// stand-in when it is gone); otherwise the saved host is connected afresh.
pub open spec fn spec_plan_duplicate(tabs: SessionTabs, idx: int, hosts: Seq<SshHostView>, r: DuplicatePlan) -> bool {
    if idx < 0 || idx >= tabs.sessions@.len() {
        r is Nothing
    } else {
        let t = tabs.sessions@[idx];
        if t.local {
            r is LocalShell
        } else if t.connected {
            r matches DuplicatePlan::ReuseConnection(h) && match spec_find_host(hosts, t.host_id@) {
                Some(v) => h@ == v,
                None => is_stand_in_host(h@, t.host_id@, t.host_name@),
            }
        } else {
            match spec_find_host(hosts, t.host_id@) {
                Some(v) => r matches DuplicatePlan::FreshConnect(h) && h@ == v,
                None => r is Nothing,
            }
        }
    }
}

pub fn plan_duplicate(tabs: &SessionTabs, idx: usize, hosts: &Vec<SshHost>) -> (r: DuplicatePlan)
    ensures
        spec_plan_duplicate(*tabs, idx as int, hosts_view(hosts@), r),
{
    if idx >= tabs.sessions.len() {
        return DuplicatePlan::Nothing;
    }
    let t = &tabs.sessions[idx];
    if t.is_local() {
        return DuplicatePlan::LocalShell;
    }
    let found = find_host(hosts, t.host_id.as_str());
    if t.connected {
        let h = match found {
            Some(h) => h,
            None => {
                let mut h = SshHost::new(t.host_name.as_str(), "");
                h.id = t.host_id.clone();
                proof {
                    reveal_strlit("");
                }
                assert(h@.host =~= Seq::<char>::empty());
                h
            },
        };
        DuplicatePlan::ReuseConnection(h)
    } else {
        match found {
            Some(h) => DuplicatePlan::FreshConnect(h),
            None => DuplicatePlan::Nothing,
        }
    }
}

} // verus!
