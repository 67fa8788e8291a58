use verve::ssh::host_store::{
    bastions, children_of_bastion, find_host, jump_chain, remove_host, standalone_hosts, upsert_host,
};
use verve::ssh::models::{SshHost, SshHostType};

fn bastion(name: &str) -> SshHost {
    let mut b = SshHost::new(name, "10.0.0.1");
    b.host_type = SshHostType::Bastion;
    b
}

#[test]
fn round_trip_via_temp_dir() {
    let mut hosts: Vec<SshHost> = Vec::new();
    let mut h = SshHost::new("Test", "10.0.0.1");
    h.username = "root".into();
    let id = h.id.clone();
    upsert_host(&mut hosts, h.duplicate());
    assert_eq!(hosts.len(), 1);
    assert_eq!(hosts[0].name, "Test");
    assert_eq!(hosts[0].username, "root");
    remove_host(&mut hosts, &id);
    assert!(hosts.is_empty());
}

#[test]
fn jump_chain_direct() {
    let mut hosts = Vec::new();
    let target = SshHost::new("Target", "10.0.0.2");
    let target_id = target.id.clone();
    upsert_host(&mut hosts, target);
    let found = find_host(&hosts, &target_id).unwrap();
    let chain = jump_chain(&hosts, &found).unwrap();
    assert_eq!(chain.len(), 1);
}

#[test]
fn jump_chain_with_bastion() {
    let mut hosts = Vec::new();
    let b = bastion("Bastion");
    let bastion_id = b.id.clone();
    upsert_host(&mut hosts, b);
    let mut target = SshHost::new("Target", "10.0.0.2");
    target.bastion_id = Some(bastion_id.clone());
    let target_id = target.id.clone();
    upsert_host(&mut hosts, target);
    let chain = jump_chain(&hosts, &find_host(&hosts, &target_id).unwrap()).unwrap();
    assert_eq!(chain.len(), 2);
    assert_eq!(chain[0].name, "Bastion");
    assert_eq!(chain[1].name, "Target");
}

#[test]
fn upsert_replaces_in_place() {
    let mut hosts = Vec::new();
    let a = SshHost::new("A", "a");
    let b = SshHost::new("B", "b");
    let a_id = a.id.clone();
    let mut a2 = a.duplicate();
    upsert_host(&mut hosts, a);
    upsert_host(&mut hosts, b);
    a2.name = "A2".into();
    upsert_host(&mut hosts, a2);
    assert_eq!(hosts.len(), 2);
    assert_eq!(hosts[0].name, "A2");
    assert_eq!(hosts[1].name, "B");
    assert_eq!(find_host(&hosts, &a_id).unwrap().name, "A2");
    assert!(find_host(&hosts, "nope").is_none());
}

#[test]
fn remove_clears_bastion_references() {
    let mut hosts = Vec::new();
    let b = bastion("B");
    let b_id = b.id.clone();
    let mut child = SshHost::new("C", "c");
    child.bastion_id = Some(b_id.clone());
    let mut other_child = SshHost::new("D", "d");
    other_child.bastion_id = Some("elsewhere".into());
    upsert_host(&mut hosts, b);
    upsert_host(&mut hosts, child);
    upsert_host(&mut hosts, other_child);
    remove_host(&mut hosts, &b_id);
    assert_eq!(hosts.len(), 2);
    assert!(hosts[0].bastion_id.is_none());
    assert_eq!(hosts[1].bastion_id.as_deref(), Some("elsewhere"));
    remove_host(&mut hosts, "missing");
    assert_eq!(hosts.len(), 2);
}

#[test]
fn jump_chain_reports_missing_bastion() {
    let mut h = SshHost::new("T", "t");
    h.bastion_id = Some("ghost".into());
    let hosts = vec![h.duplicate()];
    assert_eq!(jump_chain(&hosts, &h).unwrap_err(), "找不到跳板机配置：ghost");
}

#[test]
fn jump_chain_reports_cycle() {
    let mut a = bastion("A");
    let mut b = bastion("B");
    a.bastion_id = Some(b.id.clone());
    b.bastion_id = Some(a.id.clone());
    let a_id = a.id.clone();
    let hosts = vec![a.duplicate(), b.duplicate()];
    assert_eq!(jump_chain(&hosts, &a).unwrap_err(), format!("跳板机循环检测：{}", a_id));
}

#[test]
fn jump_chain_refuses_more_than_eight_hosts() {
    let mut hosts: Vec<SshHost> = Vec::new();
    let mut prev: Option<String> = None;
    for i in 0..9 {
        let mut h = bastion(&format!("H{i}"));
        h.bastion_id = prev.clone();
        prev = Some(h.id.clone());
        hosts.push(h);
    }
    let last = hosts[8].duplicate();
    assert_eq!(jump_chain(&hosts, &last).unwrap_err(), "跳板机层级超过最大深度（8）");
    let eighth = hosts[7].duplicate();
    let chain = jump_chain(&hosts, &eighth).unwrap();
    assert_eq!(chain.len(), 8);
    assert_eq!(chain[0].name, "H0");
    assert_eq!(chain[7].name, "H7");
}

#[test]
fn topology_filters() {
    let b = bastion("B");
    let b_id = b.id.clone();
    let mut c = SshHost::new("C", "c");
    c.bastion_id = Some(b_id.clone());
    let s = SshHost::new("S", "s");
    let hosts = vec![b, c, s];
    let kids = children_of_bastion(&hosts, &b_id);
    assert_eq!(kids.len(), 1);
    assert_eq!(kids[0].name, "C");
    let bs = bastions(&hosts);
    assert_eq!(bs.len(), 1);
    assert_eq!(bs[0].name, "B");
    let alone = standalone_hosts(&hosts);
    assert_eq!(alone.len(), 1);
    assert_eq!(alone[0].name, "S");
}
