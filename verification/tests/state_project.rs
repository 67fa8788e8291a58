use verve::state::enums::RequestMethod;
use verve::state::kv::{effective_variables, merge_kv, KeyValue, VarMap};
use verve::state::project::{Environment, Folder, MoveTarget, Project, StatusCodeEntry};
use verve::state::request::{ApiRequest, ResponseExample};
use verve::state::persistence::load_hidden_rails;
use verve::state::workspace::WorkspaceMeta;

fn req(name: &str) -> ApiRequest {
    ApiRequest::new(name, RequestMethod::Get, "/x")
}

/// root: [r0]; folders: A{ [ra], B{ [rb] } }, C{}
fn sample() -> (Project, Vec<String>) {
    let mut p = Project::new("P");
    let r0 = req("r0");
    let ra = req("ra");
    let rb = req("rb");
    let mut a = Folder::new("A");
    let mut b = Folder::new("B");
    let c = Folder::new("C");
    let ids = vec![r0.id.clone(), ra.id.clone(), rb.id.clone(), a.id.clone(), b.id.clone(), c.id.clone()];
    b.requests.push(rb);
    a.requests.push(ra);
    a.folders.push(b);
    p.requests.push(r0);
    p.folders.push(a);
    p.folders.push(c);
    (p, ids)
}

fn all_names(p: &Project) -> Vec<String> {
    let mut v: Vec<String> = p.iter_all_requests().into_iter().map(|(_, r)| r.name.clone()).collect();
    v.sort();
    v
}

#[test]
fn new_project_defaults() {
    let p = Project::new("Demo");
    assert_eq!(p.name, "Demo");
    assert_eq!(p.id.chars().count(), 21);
    assert!(p.folders.is_empty() && p.requests.is_empty() && !p.archived);
    assert_eq!(p.status_codes.len(), 18);
    assert_eq!(p.status_codes[0].code, 200);
    assert_eq!(p.status_codes[0].name, "OK");
    assert_eq!(p.status_codes[17].description, "网关超时");
    let s = StatusCodeEntry::new(418, "Teapot");
    assert_eq!((s.code, s.name.as_str(), s.description.as_str()), (418, "Teapot", ""));
}

#[test]
fn find_request_returns_folder_chain() {
    let (p, ids) = sample();
    let (chain, r) = p.find_request(&ids[0]).unwrap();
    assert!(chain.is_empty());
    assert_eq!(r.name, "r0");
    let (chain, r) = p.find_request(&ids[2]).unwrap();
    assert_eq!(chain, vec![ids[3].clone(), ids[4].clone()]);
    assert_eq!(r.name, "rb");
    assert!(p.find_request("missing").is_none());
}

#[test]
fn find_folder_and_collect() {
    let (p, ids) = sample();
    let (chain, f) = p.find_folder(&ids[4]).unwrap();
    assert_eq!(chain, vec![ids[3].clone()]);
    let (chain, f_top) = p.find_folder(&ids[3]).unwrap();
    assert!(chain.is_empty());
    assert_eq!(f_top.name, "A");
    assert_eq!(f.name, "B");
    let listed = p.collect_requests_in_folder(&ids[3]);
    assert_eq!(listed, vec![(ids[1].clone(), "ra".to_string()), (ids[2].clone(), "rb".to_string())]);
    assert!(p.collect_requests_in_folder("nope").is_empty());
}

#[test]
fn iter_all_requests_paths() {
    let (p, _) = sample();
    let all: Vec<(String, String)> = p.iter_all_requests().into_iter().map(|(path, r)| (path, r.name.clone())).collect();
    assert_eq!(
        all,
        vec![
            (String::new(), "r0".to_string()),
            ("A".to_string(), "ra".to_string()),
            ("A > B".to_string(), "rb".to_string()),
        ]
    );
}

#[test]
fn folder_variables_chain_stops_at_unknown_id() {
    let (mut p, ids) = sample();
    p.folders[0].variables.push(KeyValue::new("a", "1"));
    p.folders[0].folders[0].variables.push(KeyValue::new("b", "2"));
    let chain = p.folder_variables_chain(&[ids[3].clone(), ids[4].clone()]);
    assert_eq!(chain.len(), 2);
    assert_eq!(chain[0][0].key, "a");
    assert_eq!(chain[1][0].key, "b");
    let partial = p.folder_variables_chain(&[ids[3].clone(), "zzz".to_string(), ids[4].clone()]);
    assert_eq!(partial.len(), 1);
}

#[test]
fn move_request_keeps_every_request() {
    let (mut p, ids) = sample();
    let before = all_names(&p);
    assert!(p.move_request(&ids[2], &MoveTarget::ToRoot));
    assert_eq!(all_names(&p), before);
    assert_eq!(p.requests.last().unwrap().name, "rb");
    assert!(p.move_request(&ids[0], &MoveTarget::IntoFolder(ids[5].clone())));
    assert_eq!(p.folders[1].requests[0].name, "r0");
    assert!(p.move_request(&ids[1], &MoveTarget::BeforeRequest(ids[2].clone())));
    let names: Vec<&str> = p.requests.iter().map(|r| r.name.as_str()).collect();
    assert_eq!(names, vec!["ra", "rb"]);
    assert!(p.move_request(&ids[1], &MoveTarget::AfterRequest(ids[2].clone())));
    let names: Vec<&str> = p.requests.iter().map(|r| r.name.as_str()).collect();
    assert_eq!(names, vec!["rb", "ra"]);
    assert_eq!(all_names(&p), before);
}

#[test]
fn move_request_refusals() {
    let (mut p, ids) = sample();
    assert!(!p.move_request(&ids[0], &MoveTarget::BeforeRequest(ids[0].clone())));
    assert!(!p.move_request("missing", &MoveTarget::ToRoot));
    // An unknown target folder or request changes nothing.
    assert!(!p.move_request(&ids[1], &MoveTarget::IntoFolder("nope".into())));
    assert!(!p.move_request(&ids[1], &MoveTarget::AfterRequest("nope".into())));
    assert_eq!(p.requests.len(), 1);
    assert_eq!(p.folders[0].requests[0].name, "ra");
    assert_eq!(all_names(&p), vec!["r0", "ra", "rb"]);
}

#[test]
fn move_folder_refuses_cycles() {
    let (mut p, ids) = sample();
    assert!(!p.move_folder(&ids[3], &MoveTarget::IntoFolder(ids[4].clone())));
    assert!(!p.move_folder(&ids[3], &MoveTarget::IntoFolder(ids[3].clone())));
    assert_eq!(p.folders.len(), 2);
    assert!(p.move_folder(&ids[4], &MoveTarget::ToRoot));
    assert_eq!(p.folders.len(), 3);
    assert_eq!(p.folders[2].name, "B");
    assert!(p.move_folder(&ids[4], &MoveTarget::IntoFolder(ids[5].clone())));
    assert_eq!(p.folders[1].folders[0].name, "B");
    assert_eq!(all_names(&p), vec!["r0", "ra", "rb"]);
    assert!(!p.move_folder("nope", &MoveTarget::ToRoot));
    // Next to a request is not a place for a folder: nothing changes.
    assert!(!p.move_folder(&ids[4], &MoveTarget::BeforeRequest(ids[0].clone())));
    assert_eq!(p.folders[1].folders[0].name, "B");
    assert_eq!(all_names(&p), vec!["r0", "ra", "rb"]);
}

#[test]
fn active_env_variables_by_id() {
    let mut p = Project::new("P");
    let mut e = Environment::new("dev");
    e.variables.push(KeyValue::new("host", "localhost"));
    let id = e.id.clone();
    p.environments.push(e);
    assert!(p.active_env_variables().is_empty());
    p.active_environment = Some(id);
    assert_eq!(p.active_env_variables()[0].value, "localhost");
    p.active_environment = Some("other".into());
    assert!(p.active_env_variables().is_empty());
}

#[test]
fn merge_kv_overrides_case_insensitively() {
    let mut disabled = KeyValue::new("X-Off", "1");
    disabled.enabled = false;
    let global = vec![KeyValue::new("Accept", "a/b"), KeyValue::new("X-Trace", "g"), disabled, KeyValue::new("  ", "blank")];
    let per = vec![KeyValue::new(" accept ", "json")];
    let merged = merge_kv(&global, &per);
    let pairs: Vec<(&str, &str)> = merged.iter().map(|k| (k.key.as_str(), k.value.as_str())).collect();
    assert_eq!(pairs, vec![("X-Trace", "g"), (" accept ", "json")]);
}

#[test]
fn variable_scope_priority() {
    let mut system = VarMap::new();
    system.insert("mock_server".into(), "sys".into());
    system.insert("host".into(), "sys-host".into());
    let global = vec![KeyValue::new("host", "global"), KeyValue::new("g", "1")];
    let env = vec![KeyValue::new("host", "env")];
    let folder = vec![KeyValue::new("host", "folder")];
    let mut off = KeyValue::new("host", "ignored");
    off.enabled = false;
    let request = vec![off, KeyValue::new("r", "2")];
    let m = effective_variables(&system, &global, &env, &folder, &request);
    assert_eq!(m.get("host").map(|s| s.as_str()), Some("folder"));
    assert_eq!(m.get("mock_server").map(|s| s.as_str()), Some("sys"));
    assert_eq!(m.get("g").map(|s| s.as_str()), Some("1"));
    assert_eq!(m.get("r").map(|s| s.as_str()), Some("2"));
    assert_eq!(m.get("nope"), None);
}

#[test]
fn find_request_mut_edits_in_place() {
    let (mut p, ids) = sample();
    {
        let (chain, r) = p.find_request_mut(&ids[2]).unwrap();
        assert_eq!(chain, vec![ids[3].clone(), ids[4].clone()]);
        assert_eq!(r.name, "rb");
        r.name = "renamed".to_string();
    }
    let (_, r) = p.find_request(&ids[2]).unwrap();
    assert_eq!(r.name, "renamed");
    {
        let (chain, r) = p.find_request_mut(&ids[0]).unwrap();
        assert!(chain.is_empty());
        r.url = "/y".to_string();
    }
    assert_eq!(p.requests[0].url, "/y");
    assert_eq!(p.folders[0].folders[0].requests[0].name, "renamed");
    assert_eq!(p.folders[0].requests[0].name, "ra");
    assert!(p.find_request_mut("missing").is_none());
}

#[test]
fn find_folder_mut_edits_in_place() {
    let (mut p, ids) = sample();
    {
        let (chain, f) = p.find_folder_mut(&ids[4]).unwrap();
        assert_eq!(chain, vec![ids[3].clone()]);
        assert_eq!(f.name, "B");
        f.name = "B2".to_string();
        f.requests.push(req("rc"));
    }
    let (_, f) = p.find_folder(&ids[4]).unwrap();
    assert_eq!(f.name, "B2");
    assert_eq!(f.requests.len(), 2);
    {
        let (chain, f) = p.find_folder_mut(&ids[5]).unwrap();
        assert!(chain.is_empty());
        f.description = "d".to_string();
    }
    assert_eq!(p.folders[1].description, "d");
    assert!(p.find_folder_mut("missing").is_none());
}

#[test]
fn iter_all_requests_mut_edits_every_request() {
    let (mut p, _ids) = sample();
    {
        let entries = p.iter_all_requests_mut();
        let paths: Vec<String> = entries.iter().map(|(path, _)| path.clone()).collect();
        assert_eq!(paths, vec!["".to_string(), "A".to_string(), "A > B".to_string()]);
        for (path, r) in entries {
            r.name = format!("{}@{}", r.name, path);
        }
    }
    let names: Vec<String> = p.iter_all_requests().into_iter().map(|(_, r)| r.name.clone()).collect();
    assert_eq!(names, vec!["r0@".to_string(), "ra@A".to_string(), "rb@A > B".to_string()]);
    assert_eq!(p.folders.len(), 2);
    assert_eq!(p.folders[0].folders.len(), 1);
}

#[test]
fn hidden_rails_are_a_set() {
    let saved = vec!["Ssh".to_string(), "History".to_string(), "Ssh".to_string()];
    let mut hidden = load_hidden_rails(Some(&saved));
    hidden.sort();
    assert_eq!(hidden, vec!["History".to_string(), "Ssh".to_string()]);
    assert_eq!(load_hidden_rails(None), vec!["History".to_string()]);
    assert!(load_hidden_rails(Some(&Vec::new())).is_empty());
}

#[test]
fn new_workspace_branch_is_verve_id() {
    let m = WorkspaceMeta::new("Work");
    assert_eq!(m.name, "Work");
    assert!(!m.is_default);
    assert_eq!(m.branch, format!("verve/{}", m.id));
}

fn example(status: u16, text: &str, body: &str, saved: &str) -> ResponseExample {
    ResponseExample { status, status_text: text.to_string(), body: body.to_string(), saved_at: saved.to_string() }
}

#[test]
fn dedup_key_ignores_text_and_time() {
    let a = example(200, "OK", "{\"a\":1}", "2024-01-01 00:00:00");
    let b = example(200, "Fine", "{\"a\":1}", "2025-05-05 12:00:00");
    assert_eq!(a.dedup_key(), "200:{\"a\":1}");
    assert_eq!(a.dedup_key(), b.dedup_key());
    // A body that starts with digits and a colon cannot make two statuses meet.
    let c = example(20, "", "0:x", "");
    let d = example(200, "", ":x", "");
    assert_ne!(c.dedup_key(), d.dedup_key());
    assert_ne!(example(404, "", "", "").dedup_key(), example(40, "", "4", "").dedup_key());
}

#[test]
fn untouched_borrows_change_nothing() {
    let (mut p, ids) = sample();
    let before: Vec<(String, String)> =
        p.iter_all_requests().into_iter().map(|(path, r)| (path, r.id.clone())).collect();
    {
        let _ = p.find_request_mut(&ids[2]).unwrap();
    }
    {
        let _ = p.find_folder_mut(&ids[4]).unwrap();
    }
    {
        let _ = p.iter_all_requests_mut();
    }
    let after: Vec<(String, String)> =
        p.iter_all_requests().into_iter().map(|(path, r)| (path, r.id.clone())).collect();
    assert_eq!(before, after);
    assert_eq!(p.folders[0].folders[0].name, "B");
}

#[test]
fn found_chain_resolves_in_full() {
    let (mut p, ids) = sample();
    p.folders[0].variables.push(KeyValue::new("a", "1"));
    p.folders[0].folders[0].variables.push(KeyValue::new("b", "2"));
    let (chain, _) = p.find_request(&ids[2]).unwrap();
    let chain: Vec<String> = chain;
    let vars = p.folder_variables_chain(&chain);
    assert_eq!(vars.len(), chain.len());
    assert_eq!(vars[1][0].key, "b");
}

fn folder_ids(fs: &[Folder], out: &mut Vec<String>) {
    for f in fs {
        out.push(f.id.clone());
        folder_ids(&f.folders, out);
    }
}

#[test]
fn move_folder_keeps_every_folder_and_lands_last() {
    let (mut p, ids) = sample();
    let mut before = Vec::new();
    folder_ids(&p.folders, &mut before);
    before.sort();
    assert!(p.move_folder(&ids[5], &MoveTarget::IntoFolder(ids[3].clone())));
    assert_eq!(p.folders[0].folders.last().unwrap().id, ids[5]);
    assert!(!p.move_folder("nope", &MoveTarget::IntoFolder(ids[3].clone())));
    let mut after = Vec::new();
    folder_ids(&p.folders, &mut after);
    after.sort();
    assert_eq!(before, after);
}

#[test]
fn move_request_keeps_folder_shape() {
    let (mut p, ids) = sample();
    assert!(p.move_request(&ids[0], &MoveTarget::AfterRequest(ids[2].clone())));
    let names: Vec<&str> = p.folders[0].folders[0].requests.iter().map(|r| r.name.as_str()).collect();
    assert_eq!(names, vec!["rb", "r0"]);
    assert!(p.move_request(&ids[1], &MoveTarget::IntoFolder(ids[4].clone())));
    assert_eq!(p.folders[0].folders[0].requests.last().unwrap().name, "ra");
    let mut shape = Vec::new();
    folder_ids(&p.folders, &mut shape);
    assert_eq!(shape, vec![ids[3].clone(), ids[4].clone(), ids[5].clone()]);
}
