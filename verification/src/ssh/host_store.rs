//! Operations on the saved list of SSH hosts: insert-or-replace, removal
//! (which also drops dangling bastion references), lookup, the bastion jump
//! chain and the topology filters. Reading and writing the list file is the
//! caller's business; these functions work on the list itself.

use vstd::prelude::*;
use crate::ssh::models::{hosts_view, SshHost, SshHostView};
use crate::text::str_eq;

verus! {

/// `k` is the first position of a host with that id.
pub open spec fn is_first_with_id(s: Seq<SshHostView>, id: Seq<char>, k: int) -> bool {
    &&& 0 <= k < s.len()
    &&& s[k].id == id
    &&& forall|j: int| 0 <= j < k ==> (#[trigger] s[j]).id != id
}

/// The first host with that id, if any.
pub open spec fn spec_find_host(s: Seq<SshHostView>, id: Seq<char>) -> Option<SshHostView> {
    if exists|k: int| is_first_with_id(s, id, k) {
        Some(s[choose|k: int| is_first_with_id(s, id, k)])
    } else {
        None
    }
}

/// The list after inserting `h`, or replacing the first host with its id.
pub open spec fn spec_upsert(s: Seq<SshHostView>, h: SshHostView) -> Seq<SshHostView> {
    if exists|k: int| is_first_with_id(s, h.id, k) {
        s.update(choose|k: int| is_first_with_id(s, h.id, k), h)
    } else {
        s.push(h)
    }
}

/// A host that referenced the removed bastion no longer does.
pub open spec fn unlink(v: SshHostView, id: Seq<char>) -> SshHostView {
    if v.bastion_id == Some(id) {
        SshHostView { bastion_id: None, ..v }
    } else {
        v
    }
}

/// The list after removing every host with that id; the remaining hosts lose
/// their bastion reference to it.
pub open spec fn spec_remove(s: Seq<SshHostView>, id: Seq<char>) -> Seq<SshHostView>
    decreases s.len(),
{
    if s.len() == 0 {
        s
    } else {
        let rest = spec_remove(s.drop_last(), id);
        if s.last().id == id {
            rest
        } else {
            rest.push(unlink(s.last(), id))
        }
    }
}

proof fn lemma_first_unique(s: Seq<SshHostView>, id: Seq<char>, a: int, b: int)
    requires
        is_first_with_id(s, id, a),
        is_first_with_id(s, id, b),
    ensures
        a == b,
{
    if a < b {
        assert(s[a].id == id);
    } else if b < a {
        assert(s[b].id == id);
    }
}

/// Some host carries the id exactly when a first one does.
proof fn lemma_first_exists(s: Seq<SshHostView>, id: Seq<char>, k: int)
    requires
        0 <= k < s.len(),
        s[k].id == id,
    ensures
        exists|f: int| is_first_with_id(s, id, f),
    decreases k,
{
    if exists|j: int| 0 <= j < k && (#[trigger] s[j]).id == id {
        let j = choose|j: int| 0 <= j < k && (#[trigger] s[j]).id == id;
        lemma_first_exists(s, id, j);
    } else {
        assert(is_first_with_id(s, id, k));
    }
}

/// Position of the first host with that id, scanning the whole list.
pub(crate) fn position_of(hosts: &Vec<SshHost>, id: &str) -> (r: Option<usize>)
    ensures
        match r {
            Some(k) => is_first_with_id(hosts_view(hosts@), id@, k as int),
            None => !exists|k: int| is_first_with_id(hosts_view(hosts@), id@, k),
        },
{
    let ghost s = hosts_view(hosts@);
    let mut i: usize = 0;
    while i < hosts.len()
        invariant
            i <= hosts@.len(),
            s == hosts_view(hosts@),
            forall|j: int| 0 <= j < i ==> (#[trigger] s[j]).id != id@,
        decreases hosts.len() - i,
    {
        if str_eq(hosts[i].id.as_str(), id) {
            assert(is_first_with_id(s, id@, i as int));
            return Some(i);
        }
        i = i + 1;
    }
    None
}

/// Insert `host`, or replace the host with the same id in place.
pub fn upsert_host(hosts: &mut Vec<SshHost>, host: SshHost)
    ensures
        hosts_view(final(hosts)@) == spec_upsert(hosts_view(old(hosts)@), host@),
{
    let ghost s = hosts_view(hosts@);
    let ghost h = host@;
    match position_of(hosts, host.id.as_str()) {
        Some(k) => {
            proof {
                let c = choose|c: int| is_first_with_id(s, h.id, c);
                lemma_first_unique(s, h.id, c, k as int);
            }
            hosts.set(k, host);
            assert(hosts_view(hosts@) =~= s.update(k as int, h));
        },
        None => {
            hosts.push(host);
            assert(hosts_view(hosts@) =~= s.push(h));
        },
    }
}

fn references(v: &Option<String>, id: &str) -> (r: bool)
    ensures
        r == (crate::state::project::opt_view(*v) == Some(id@)),
{
    match v {
        Some(b) => str_eq(b.as_str(), id),
        None => false,
    }
}

/// Remove every host with that id and clear the bastion reference of the
/// hosts that tunnelled through it.
pub fn remove_host(hosts: &mut Vec<SshHost>, id: &str)
    ensures
        hosts_view(final(hosts)@) == spec_remove(hosts_view(old(hosts)@), id@),
{
    let ghost s = hosts_view(hosts@);
    let ghost n = hosts@.len();
    let mut kept: Vec<SshHost> = Vec::new();
    while hosts.len() > 0
        invariant
            n == s.len(),
            hosts@.len() <= n,
            hosts_view(hosts@) == s.skip(n - hosts@.len()),
            hosts_view(kept@) == spec_remove(s.take(n - hosts@.len()), id@),
        decreases hosts.len(),
    {
        let ghost done = n - hosts@.len();
        let ghost before = hosts@;
        let mut h = hosts.remove(0);
        assert(hosts@ =~= before.subrange(1, before.len() as int));
        assert(s.take(done + 1).drop_last() =~= s.take(done));
        assert(s[done] == h@) by {
            assert(s.skip(done)[0] == s[done]);
        }
        if !str_eq(h.id.as_str(), id) {
            if references(&h.bastion_id, id) {
                h.bastion_id = None;
            }
            kept.push(h);
            assert(hosts_view(kept@) =~= spec_remove(s.take(done), id@).push(unlink(s[done], id@)));
        }
        assert forall|j: int| 0 <= j < hosts@.len() implies hosts_view(hosts@)[j] == s.skip(n - hosts@.len())[j] by {
            assert(hosts@[j] == before[j + 1]);
            assert(hosts_view(before)[j + 1] == s.skip(done)[j + 1]);
        }
        assert(hosts_view(hosts@) =~= s.skip(n - hosts@.len()));
    }
    assert(s.take(n as int) =~= s);
    *hosts = kept;
}

/// The first host with that id, copied.
pub fn find_host(hosts: &Vec<SshHost>, id: &str) -> (r: Option<SshHost>)
    ensures
        match r {
            Some(h) => spec_find_host(hosts_view(hosts@), id@) == Some(h@),
            None => spec_find_host(hosts_view(hosts@), id@) is None,
        },
{
    match position_of(hosts, id) {
        Some(k) => {
            proof {
                let s = hosts_view(hosts@);
                let c = choose|c: int| is_first_with_id(s, id@, c);
                lemma_first_unique(s, id@, c, k as int);
            }
            Some(hosts[k].duplicate())
        },
        None => None,
    }
}

/// A host written by `upsert_host` is what a lookup of its id then finds.
pub proof fn law_upsert_then_find(s: Seq<SshHostView>, h: SshHostView)
    ensures
        spec_find_host(spec_upsert(s, h), h.id) == Some(h),
{
    let u = spec_upsert(s, h);
    if exists|k: int| is_first_with_id(s, h.id, k) {
        let k = choose|k: int| is_first_with_id(s, h.id, k);
        assert(is_first_with_id(u, h.id, k));
        let c = choose|c: int| is_first_with_id(u, h.id, c);
        lemma_first_unique(u, h.id, c, k);
    } else {
        let n = s.len() as int;
        assert forall|j: int| 0 <= j < n implies (#[trigger] u[j]).id != h.id by {
            if s[j].id == h.id {
                lemma_first_exists(s, h.id, j);
            }
        }
        assert(is_first_with_id(u, h.id, n));
        let c = choose|c: int| is_first_with_id(u, h.id, c);
        lemma_first_unique(u, h.id, c, n);
    }
}

/// `upsert_host` changes nothing of what a lookup of any other id finds.
pub proof fn law_upsert_keeps_other_hosts(s: Seq<SshHostView>, h: SshHostView, id: Seq<char>)
    requires
        id != h.id,
    ensures
        spec_find_host(spec_upsert(s, h), id) == spec_find_host(s, id),
{
    let u = spec_upsert(s, h);
    assert forall|k: int| is_first_with_id(s, id, k) implies is_first_with_id(u, id, k) by {
        assert forall|j: int| 0 <= j < k implies (#[trigger] u[j]).id != id by {
            assert(s[j].id != id);
        }
    }
    assert forall|k: int| is_first_with_id(u, id, k) implies is_first_with_id(s, id, k) by {
        assert(u[k].id == id);
        assert forall|j: int| 0 <= j < k implies (#[trigger] s[j]).id != id by {
            assert(u[j].id != id);
        }
    }
    if exists|k: int| is_first_with_id(s, id, k) {
        let a = choose|k: int| is_first_with_id(s, id, k);
        let b = choose|k: int| is_first_with_id(u, id, k);
        lemma_first_unique(s, id, a, b);
    }
}

proof fn lemma_remove_clears(s: Seq<SshHostView>, id: Seq<char>)
    ensures
        forall|j: int|
            0 <= j < spec_remove(s, id).len() ==> (#[trigger] spec_remove(s, id)[j]).id != id
                && spec_remove(s, id)[j].bastion_id != Some(id),
    decreases s.len(),
{
    if s.len() > 0 {
        lemma_remove_clears(s.drop_last(), id);
    }
}

/// After `remove_host` no host carries the removed id, and none names it as
/// its bastion.
pub proof fn law_remove_leaves_no_reference(s: Seq<SshHostView>, id: Seq<char>)
    ensures
        spec_find_host(spec_remove(s, id), id) is None,
        forall|j: int|
            0 <= j < spec_remove(s, id).len() ==> (#[trigger] spec_remove(s, id)[j]).bastion_id
                != Some(id),
{
    lemma_remove_clears(s, id);
}

/// What a finished jump chain is made of, for a partial one.
pub open spec fn chain_shape(s: Seq<SshHostView>, chain: Seq<SshHostView>, h: SshHostView) -> bool {
    &&& 1 <= chain.len() <= 8
    &&& chain.last() == h
    &&& forall|i: int|
        0 <= i < chain.len() - 1 ==> (#[trigger] chain[i + 1]).bastion_id == Some(chain[i].id)
    &&& forall|i: int|
        0 <= i < chain.len() - 1 ==> spec_find_host(s, (#[trigger] chain[i]).id) == Some(chain[i])
    &&& forall|i: int, j: int|
        0 <= i < j < chain.len() ==> (#[trigger] chain[i]).id != (#[trigger] chain[j]).id
}

proof fn lemma_found_has_id(s: Seq<SshHostView>, id: Seq<char>)
    requires
        spec_find_host(s, id) is Some,
    ensures
        spec_find_host(s, id).unwrap().id == id,
{
}

proof fn lemma_extend_shape(s: Seq<SshHostView>, chain: Seq<SshHostView>, h: SshHostView)
    requires
        chain_shape(s, chain, h),
        spec_extend_chain(s, chain) is Ok,
    ensures
        chain_shape(s, spec_extend_chain(s, chain)->Ok_0, h),
        spec_extend_chain(s, chain)->Ok_0[0].bastion_id is None,
    decreases 9 - chain.len(),
{
    if let Some(b) = chain[0].bastion_id {
        assert(!(chain.len() == 0 || chain.len() > 8));
        assert(!chain_has_id(chain, b));
        assert(spec_find_host(s, b) is Some);
        let bh = spec_find_host(s, b).unwrap();
        lemma_found_has_id(s, b);
        assert(bh.id == b);
        let next = seq![bh] + chain;
        assert(next[0] == bh);
        assert forall|i: int| 0 <= i < next.len() - 1 implies (#[trigger] next[i + 1]).bastion_id
            == Some(next[i].id) by {
            if i > 0 {
                let k = i - 1;
                assert(chain[k + 1].bastion_id == Some(chain[k].id));
                assert(next[i + 1] == chain[i] && next[i] == chain[i - 1]);
            } else {
                assert(next[1] == chain[0]);
            }
        }
        assert forall|i: int| 0 <= i < next.len() - 1 implies spec_find_host(s, (#[trigger] next[i]).id)
            == Some(next[i]) by {
            if i > 0 {
                assert(next[i] == chain[i - 1]);
            }
        }
        assert forall|i: int, j: int| 0 <= i < j < next.len() implies (#[trigger] next[i]).id
            != (#[trigger] next[j]).id by {
            if i == 0 {
                assert(next[j] == chain[j - 1]);
            } else {
                assert(next[i] == chain[i - 1] && next[j] == chain[j - 1]);
            }
        }
        assert(next.last() == chain.last());
        lemma_extend_shape(s, next, h);
    }
}

/// A jump chain that can be built starts at a host without a bastion, ends
/// at the requested host, links each host to the one before it through its
/// bastion id, takes every bastion from the host list, names no host twice
/// and has at most eight hosts.
pub proof fn law_jump_chain_shape(s: Seq<SshHostView>, h: SshHostView)
    requires
        spec_jump_chain(s, h) is Ok,
    ensures
        chain_shape(s, spec_jump_chain(s, h)->Ok_0, h),
        spec_jump_chain(s, h)->Ok_0[0].bastion_id is None,
{
    lemma_extend_shape(s, seq![h], h);
}

/// Jump chains longer than this are refused.
pub const MAX_JUMP_DEPTH: usize = 8;

pub open spec fn cycle_message(id: Seq<char>) -> Seq<char> {
    "跳板机循环检测："@ + id
}

pub open spec fn missing_message(id: Seq<char>) -> Seq<char> {
    "找不到跳板机配置："@ + id
}

pub open spec fn depth_message() -> Seq<char> {
    "跳板机层级超过最大深度（8）"@
}

/// Some host of the chain already carries that id.
pub open spec fn chain_has_id(chain: Seq<SshHostView>, id: Seq<char>) -> bool {
    exists|j: int| 0 <= j < chain.len() && (#[trigger] chain[j]).id == id
}

/// Extends a partial jump chain (outermost host first) through the bastion of
/// its outermost host until one without a bastion is reached. A bastion id
/// already on the chain is a cycle; an id that no host carries is missing; a
/// chain that would grow past the depth limit is refused.
pub open spec fn spec_extend_chain(s: Seq<SshHostView>, chain: Seq<SshHostView>) -> Result<
    Seq<SshHostView>,
    Seq<char>,
>
    decreases 9 - chain.len(),
{
    if chain.len() == 0 || chain.len() > 8 {
        Err(depth_message())
    } else {
        match chain[0].bastion_id {
            None => Ok(chain),
            Some(b) => if chain_has_id(chain, b) {
                Err(cycle_message(b))
            } else {
                match spec_find_host(s, b) {
                    None => Err(missing_message(b)),
                    Some(bh) => if chain.len() + 1 > 8 {
                        Err(depth_message())
                    } else {
                        spec_extend_chain(s, seq![bh] + chain)
                    },
                }
            },
        }
    }
}

/// The jump chain of a host: its bastions from the outermost one in, then
/// the host itself.
pub open spec fn spec_jump_chain(s: Seq<SshHostView>, h: SshHostView) -> Result<
    Seq<SshHostView>,
    Seq<char>,
> {
    spec_extend_chain(s, seq![h])
}

fn message_with_id(prefix: &str, id: &str) -> (r: String)
    ensures
        r@ == prefix@ + id@,
{
    let mut out = prefix.to_owned();
    out.append(id);
    out
}

fn chain_contains(chain: &Vec<SshHost>, id: &str) -> (r: bool)
    ensures
        r == chain_has_id(hosts_view(chain@), id@),
{
    let ghost c = hosts_view(chain@);
    let mut i: usize = 0;
    while i < chain.len()
        invariant
            i <= chain@.len(),
            c == hosts_view(chain@),
            forall|j: int| 0 <= j < i ==> (#[trigger] c[j]).id != id@,
        decreases chain.len() - i,
    {
        if str_eq(chain[i].id.as_str(), id) {
            assert(c[i as int].id == id@);
            return true;
        }
        i = i + 1;
    }
    false
}

/// The full jump chain from the outermost bastion to `host`, or the reason
/// it cannot be built: a bastion cycle, a bastion that is not in the list,
/// or more than eight hops.
pub fn jump_chain(hosts: &Vec<SshHost>, host: &SshHost) -> (r: Result<Vec<SshHost>, String>)
    ensures
        match r {
            Ok(c) => spec_jump_chain(hosts_view(hosts@), host@) == Ok::<Seq<SshHostView>, Seq<char>>(hosts_view(c@)),
            Err(e) => spec_jump_chain(hosts_view(hosts@), host@) == Err::<Seq<SshHostView>, Seq<char>>(e@),
        },
{
    let ghost s = hosts_view(hosts@);
    let mut chain: Vec<SshHost> = Vec::new();
    chain.push(host.duplicate());
    assert(hosts_view(chain@) =~= seq![host@]);
    loop
        invariant
            s == hosts_view(hosts@),
            1 <= chain@.len() <= 8,
            spec_extend_chain(s, hosts_view(chain@)) == spec_jump_chain(s, host@),
        decreases 8 - chain@.len(),
    {
        let ghost c = hosts_view(chain@);
        assert(c[0] == chain@[0]@);
        let b = match &chain[0].bastion_id {
            None => {
                return Ok(chain);
            },
            Some(b) => b.clone(),
        };
        if chain_contains(&chain, b.as_str()) {
            return Err(message_with_id("跳板机循环检测：", b.as_str()));
        }
        let bastion = match find_host(hosts, b.as_str()) {
            None => {
                return Err(message_with_id("找不到跳板机配置：", b.as_str()));
            },
            Some(bh) => bh,
        };
        let ghost bv = bastion@;
        chain.insert(0, bastion);
        assert(hosts_view(chain@) =~= seq![bv] + c);
        if chain.len() > MAX_JUMP_DEPTH {
            return Err("跳板机层级超过最大深度（8）".to_owned());
        }
    }
}

/// Hosts that tunnel through the given bastion.
pub open spec fn spec_children_of_bastion(s: Seq<SshHostView>, id: Seq<char>) -> Seq<SshHostView> {
    s.filter(|v: SshHostView| v.bastion_id == Some(id))
}

/// Bastion hosts.
pub open spec fn spec_bastions(s: Seq<SshHostView>) -> Seq<SshHostView> {
    s.filter(|v: SshHostView| v.is_bastion())
}

/// Direct hosts with no bastion parent.
pub open spec fn spec_standalone_hosts(s: Seq<SshHostView>) -> Seq<SshHostView> {
    s.filter(|v: SshHostView| !v.is_bastion() && !v.has_bastion())
}

/// A host listed as standalone is neither a bastion nor listed as the child
/// of any bastion.
pub proof fn law_host_groups_disjoint(s: Seq<SshHostView>, v: SshHostView, bastion_id: Seq<char>)
    ensures
        spec_standalone_hosts(s).contains(v) ==> !spec_bastions(s).contains(v)
            && !spec_children_of_bastion(s, bastion_id).contains(v),
{
    let ps = |w: SshHostView| !w.is_bastion() && !w.has_bastion();
    let pb = |w: SshHostView| w.is_bastion();
    let pc = |w: SshHostView| w.bastion_id == Some(bastion_id);
    if spec_standalone_hosts(s).contains(v) {
        let k = choose|k: int| 0 <= k < s.filter(ps).len() && s.filter(ps)[k] == v;
        s.lemma_filter_pred(ps, k);
        if spec_bastions(s).contains(v) {
            let j = choose|j: int| 0 <= j < s.filter(pb).len() && s.filter(pb)[j] == v;
            s.lemma_filter_pred(pb, j);
        }
        if spec_children_of_bastion(s, bastion_id).contains(v) {
            let j = choose|j: int| 0 <= j < s.filter(pc).len() && s.filter(pc)[j] == v;
            s.lemma_filter_pred(pc, j);
        }
    }
}

proof fn lemma_filter_step(s: Seq<SshHostView>, p: spec_fn(SshHostView) -> bool, i: int)
    requires
        0 <= i < s.len(),
    ensures
        s.take(i + 1).filter(p) == (if p(s[i]) {
            s.take(i).filter(p).push(s[i])
        } else {
            s.take(i).filter(p)
        }),
{
    reveal(Seq::filter);
    assert(s.take(i + 1).drop_last() =~= s.take(i));
    assert(s.take(i + 1).last() == s[i]);
}

/// Copies of the hosts that tunnel through the bastion `bastion_id`, in list
/// order.
pub fn children_of_bastion(hosts: &Vec<SshHost>, bastion_id: &str) -> (r: Vec<SshHost>)
    ensures
        hosts_view(r@) == spec_children_of_bastion(hosts_view(hosts@), bastion_id@),
{
    let ghost s = hosts_view(hosts@);
    let ghost p = |v: SshHostView| v.bastion_id == Some(bastion_id@);
    let mut out: Vec<SshHost> = Vec::new();
    let mut i: usize = 0;
    while i < hosts.len()
        invariant
            i <= hosts@.len(),
            s == hosts_view(hosts@),
            p == (|v: SshHostView| v.bastion_id == Some(bastion_id@)),
            hosts_view(out@) == s.take(i as int).filter(p),
        decreases hosts.len() - i,
    {
        proof {
            lemma_filter_step(s, p, i as int);
        }
        if references(&hosts[i].bastion_id, bastion_id) {
            out.push(hosts[i].duplicate());
            assert(hosts_view(out@) =~= s.take(i as int).filter(p).push(s[i as int]));
        }
        i = i + 1;
    }
    assert(s.take(s.len() as int) =~= s);
    out
}

/// Copies of the bastion hosts, in list order.
pub fn bastions(hosts: &Vec<SshHost>) -> (r: Vec<SshHost>)
    ensures
        hosts_view(r@) == spec_bastions(hosts_view(hosts@)),
{
    let ghost s = hosts_view(hosts@);
    let ghost p = |v: SshHostView| v.is_bastion();
    let mut out: Vec<SshHost> = Vec::new();
    let mut i: usize = 0;
    while i < hosts.len()
        invariant
            i <= hosts@.len(),
            s == hosts_view(hosts@),
            p == (|v: SshHostView| v.is_bastion()),
            hosts_view(out@) == s.take(i as int).filter(p),
        decreases hosts.len() - i,
    {
        proof {
            lemma_filter_step(s, p, i as int);
        }
        if hosts[i].is_bastion() {
            out.push(hosts[i].duplicate());
            assert(hosts_view(out@) =~= s.take(i as int).filter(p).push(s[i as int]));
        }
        i = i + 1;
    }
    assert(s.take(s.len() as int) =~= s);
    out
}

/// Copies of the direct hosts without a bastion parent, in list order.
pub fn standalone_hosts(hosts: &Vec<SshHost>) -> (r: Vec<SshHost>)
    ensures
        hosts_view(r@) == spec_standalone_hosts(hosts_view(hosts@)),
{
    let ghost s = hosts_view(hosts@);
    let ghost p = |v: SshHostView| !v.is_bastion() && !v.has_bastion();
    let mut out: Vec<SshHost> = Vec::new();
    let mut i: usize = 0;
    while i < hosts.len()
        invariant
            i <= hosts@.len(),
            s == hosts_view(hosts@),
            p == (|v: SshHostView| !v.is_bastion() && !v.has_bastion()),
            hosts_view(out@) == s.take(i as int).filter(p),
        decreases hosts.len() - i,
    {
        proof {
            lemma_filter_step(s, p, i as int);
        }
        if !hosts[i].is_bastion() && !hosts[i].has_bastion() {
            out.push(hosts[i].duplicate());
            assert(hosts_view(out@) =~= s.take(i as int).filter(p).push(s[i as int]));
        }
        i = i + 1;
    }
    assert(s.take(s.len() as int) =~= s);
    out
}

} // verus!
