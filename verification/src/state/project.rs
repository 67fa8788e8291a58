//! Projects: the folder/request tree, environments, and the tree operations
//! (lookup, listing, variable scoping, drag-and-drop moves).

use vstd::prelude::*;
use vstd::multiset::Multiset;
use crate::state::ids::{new_id, now_minutes, random_hex32};
use crate::state::kv::KeyValue;
use crate::state::request::ApiRequest;
use crate::text::{chars_of, str_eq, string_push};

verus! {

broadcast use vstd::seq_lib::group_seq_properties;

/// A folder groups requests (and nested folders).
#[derive(Debug)]
pub struct Folder {
    pub id: String,
    pub name: String,
    /// Folder description shown in the folder detail view.
    pub description: String,
    /// Folder-level query parameters inherited by child requests.
    pub params: Vec<KeyValue>,
    /// Folder-level headers inherited by child requests.
    pub headers: Vec<KeyValue>,
    pub folders: Vec<Folder>,
    pub requests: Vec<ApiRequest>,
    /// Folder-level variables.
    pub variables: Vec<KeyValue>,
    /// Base URL prefix for this folder's requests.
    pub base_url: Option<String>,
}

/// The mathematical value of a folder: its fields, with nested folders taken
/// by their own models.
pub struct FolderModel {
    pub id: Seq<char>,
    pub name: Seq<char>,
    pub description: Seq<char>,
    pub params: Seq<KeyValue>,
    pub headers: Seq<KeyValue>,
    pub folders: Seq<FolderModel>,
    pub requests: Seq<ApiRequest>,
    pub variables: Seq<KeyValue>,
    pub base_url: Option<Seq<char>>,
}

pub open spec fn opt_view(s: Option<String>) -> Option<Seq<char>> {
    match s {
        Some(v) => Some(v@),
        None => None,
    }
}

pub open spec fn folder_model(f: Folder) -> FolderModel
    decreases f,
{
    FolderModel {
        id: f.id@,
        name: f.name@,
        description: f.description@,
        params: f.params@,
        headers: f.headers@,
        folders: forest_model(f.folders@),
        requests: f.requests@,
        variables: f.variables@,
        base_url: opt_view(f.base_url),
    }
}

pub open spec fn forest_model(fs: Seq<Folder>) -> Seq<FolderModel>
    decreases fs,
{
    if fs.len() == 0 {
        Seq::empty()
    } else {
        forest_model(fs.drop_last()).push(folder_model(fs.last()))
    }
}

impl View for Folder {
    type V = FolderModel;

    open spec fn view(&self) -> FolderModel {
        folder_model(*self)
    }
}

pub proof fn lemma_forest_model(fs: Seq<Folder>)
    ensures
        forest_model(fs).len() == fs.len(),
        forall|i: int| 0 <= i < fs.len() ==> #[trigger] forest_model(fs)[i] == folder_model(fs[i]),
    decreases fs.len(),
{
    if fs.len() > 0 {
        lemma_forest_model(fs.drop_last());
    }
}

pub proof fn lemma_forest_model_take(fs: Seq<Folder>, i: int)
    requires
        0 <= i <= fs.len(),
    ensures
        forest_model(fs.take(i)) == forest_model(fs).take(i),
{
    lemma_forest_model(fs);
    lemma_forest_model(fs.take(i));
    assert(forest_model(fs.take(i)) =~= forest_model(fs).take(i));
}


/// Every request of a folder subtree in display order: the folder's own
/// requests, then each subfolder's subtree in turn.
pub open spec fn subtree_requests(f: FolderModel) -> Seq<ApiRequest>
    decreases f,
{
    f.requests + forest_requests(f.folders)
}

/// Every request of a list of folder subtrees, in order.
pub open spec fn forest_requests(fs: Seq<FolderModel>) -> Seq<ApiRequest>
    decreases fs,
{
    if fs.len() == 0 {
        Seq::empty()
    } else {
        forest_requests(fs.drop_last()) + subtree_requests(fs.last())
    }
}

/// Index of the first request with the given id.
pub open spec fn first_request(s: Seq<ApiRequest>, id: Seq<char>) -> Option<int>
    decreases s.len(),
{
    if s.len() == 0 {
        None
    } else {
        match first_request(s.drop_last(), id) {
            Some(k) => Some(k),
            None => if s.last().id@ == id {
                Some(s.len() - 1)
            } else {
                None
            },
        }
    }
}

/// The first request with id `id` in a folder subtree (own requests before
/// subfolders), with the ids of the folders from this one down to its owner.
pub open spec fn find_request_in(f: FolderModel, id: Seq<char>) -> Option<(Seq<Seq<char>>, ApiRequest)>
    decreases f,
{
    match first_request(f.requests, id) {
        Some(k) => Some((seq![f.id], f.requests[k])),
        None => match find_request_in_forest(f.folders, id) {
            Some((c, r)) => Some((seq![f.id] + c, r)),
            None => None,
        },
    }
}

/// The first match of [`find_request_in`] over a list of folders, in order.
pub open spec fn find_request_in_forest(fs: Seq<FolderModel>, id: Seq<char>) -> Option<(Seq<Seq<char>>, ApiRequest)>
    decreases fs,
{
    if fs.len() == 0 {
        None
    } else {
        match find_request_in_forest(fs.drop_last(), id) {
            Some(x) => Some(x),
            None => find_request_in(fs.last(), id),
        }
    }
}

/// The first folder with id `id` in a subtree (pre-order), with the ids of
/// its ancestors within the subtree, from this folder down to its parent.
pub open spec fn find_folder_in(f: FolderModel, id: Seq<char>) -> Option<(Seq<Seq<char>>, FolderModel)>
    decreases f,
{
    if f.id == id {
        Some((Seq::empty(), f))
    } else {
        match find_folder_in_forest(f.folders, id) {
            Some((c, x)) => Some((seq![f.id] + c, x)),
            None => None,
        }
    }
}

/// The first match of [`find_folder_in`] over a list of folders, in order.
pub open spec fn find_folder_in_forest(fs: Seq<FolderModel>, id: Seq<char>) -> Option<(Seq<Seq<char>>, FolderModel)>
    decreases fs,
{
    if fs.len() == 0 {
        None
    } else {
        match find_folder_in_forest(fs.drop_last(), id) {
            Some(x) => Some(x),
            None => find_folder_in(fs.last(), id),
        }
    }
}

/// The ids of the strings in a list.
pub open spec fn string_views(v: Seq<String>) -> Seq<Seq<char>> {
    v.map_values(|s: String| s@)
}

pub(crate) fn first_request_exec(reqs: &Vec<ApiRequest>, id: &str) -> (r: Option<usize>)
    ensures
        r matches Some(k) ==> first_request(reqs@, id@) == Some(k as int) && k < reqs@.len()
            && reqs@[k as int].id@ == id@,
        r is None ==> first_request(reqs@, id@) is None,
{
    let mut i: usize = 0;
    while i < reqs.len()
        invariant
            i <= reqs@.len(),
            first_request(reqs@.take(i as int), id@) is None,
        decreases reqs.len() - i,
    {
        proof {
            assert(reqs@.take(i + 1).drop_last() == reqs@.take(i as int));
        }
        if str_eq(reqs[i].id.as_str(), id) {
            proof {
                lemma_first_request_prefix(reqs@, id@, i as int + 1);
            }
            return Some(i);
        }
        i = i + 1;
    }
    proof {
        assert(reqs@.take(reqs@.len() as int) == reqs@);
    }
    None
}

/// A match found in a prefix is the first match of the whole sequence.
proof fn lemma_first_request_prefix(s: Seq<ApiRequest>, id: Seq<char>, n: int)
    requires
        0 <= n <= s.len(),
        first_request(s.take(n), id) is Some,
    ensures
        first_request(s, id) == first_request(s.take(n), id),
    decreases s.len() - n,
{
    if n < s.len() {
        assert(s.take(n + 1).drop_last() == s.take(n));
        lemma_first_request_prefix(s, id, n + 1);
    } else {
        assert(s.take(n) == s);
    }
}


/// A match found in a prefix of the folder list is the match of the whole list.
pub(crate) proof fn lemma_find_request_forest_prefix(ms: Seq<FolderModel>, id: Seq<char>, n: int)
    requires
        0 <= n <= ms.len(),
        find_request_in_forest(ms.take(n), id) is Some,
    ensures
        find_request_in_forest(ms, id) == find_request_in_forest(ms.take(n), id),
    decreases ms.len() - n,
{
    if n < ms.len() {
        assert(ms.take(n + 1).drop_last() == ms.take(n));
        lemma_find_request_forest_prefix(ms, id, n + 1);
    } else {
        assert(ms.take(n) == ms);
    }
}

/// A match found in a prefix of the folder list is the match of the whole list.
pub(crate) proof fn lemma_find_folder_forest_prefix(ms: Seq<FolderModel>, id: Seq<char>, n: int)
    requires
        0 <= n <= ms.len(),
        find_folder_in_forest(ms.take(n), id) is Some,
    ensures
        find_folder_in_forest(ms, id) == find_folder_in_forest(ms.take(n), id),
    decreases ms.len() - n,
{
    if n < ms.len() {
        assert(ms.take(n + 1).drop_last() == ms.take(n));
        lemma_find_folder_forest_prefix(ms, id, n + 1);
    } else {
        assert(ms.take(n) == ms);
    }
}

/// The chain `[head] + tail` as owned strings.
pub(crate) fn prepend_id(head: &String, tail: Vec<String>) -> (r: Vec<String>)
    ensures
        string_views(r@) == seq![head@] + string_views(tail@),
{
    let ghost t = tail@;
    let mut c: Vec<String> = Vec::new();
    c.push(head.clone());
    let mut tail = tail;
    c.append(&mut tail);
    assert(string_views(c@) =~= seq![head@] + string_views(t));
    c
}

pub(crate) fn find_request_in_folders<'a>(fs: &'a Vec<Folder>, id: &str) -> (r: Option<(Vec<String>, &'a ApiRequest)>)
    ensures
        match r {
            Some((c, q)) => find_request_in_forest(forest_model(fs@), id@) == Some((string_views(c@), *q)),
            None => find_request_in_forest(forest_model(fs@), id@) is None,
        },
    decreases fs@,
{
    let mut i: usize = 0;
    while i < fs.len()
        invariant
            i <= fs@.len(),
            find_request_in_forest(forest_model(fs@.take(i as int)), id@) is None,
        decreases fs.len() - i,
    {
        let f = &fs[i];
        proof {
            assert(fs@.take(i + 1).drop_last() == fs@.take(i as int));
            assert(fs@.take(i + 1).last() == fs@[i as int]);
            lemma_forest_model_take(fs@, i + 1);
            lemma_forest_model(fs@);
            let ms = forest_model(fs@.take(i + 1));
            assert(ms == forest_model(fs@.take(i as int)).push(folder_model(fs@[i as int])));
            assert(ms.drop_last() =~= forest_model(fs@.take(i as int)));
            assert(find_request_in_forest(ms, id@) == find_request_in(folder_model(fs@[i as int]), id@));
        }
        match first_request_exec(&f.requests, id) {
            Some(k) => {
                let c = prepend_id(&f.id, Vec::new());
                proof {
                    assert(string_views(c@) =~= seq![f.id@]);
                    lemma_find_request_forest_prefix(forest_model(fs@), id@, i + 1);
                }
                return Some((c, &f.requests[k]));
            },
            None => {},
        }
        proof {
            assert(decreases_to!(fs@ => fs@[i as int]));
            assert(decreases_to!(fs@[i as int] => fs@[i as int].folders));
            assert(decreases_to!(fs@[i as int].folders => fs@[i as int].folders@));
        }
        match find_request_in_folders(&f.folders, id) {
            Some((sub, q)) => {
                let c = prepend_id(&f.id, sub);
                proof {
                    lemma_find_request_forest_prefix(forest_model(fs@), id@, i + 1);
                }
                return Some((c, q));
            },
            None => {},
        }
        i = i + 1;
    }
    proof {
        assert(fs@.take(fs@.len() as int) == fs@);
    }
    None
}


pub(crate) fn find_folder_in_folders<'a>(fs: &'a Vec<Folder>, id: &str) -> (r: Option<(Vec<String>, &'a Folder)>)
    ensures
        match r {
            Some((c, f)) => find_folder_in_forest(forest_model(fs@), id@) == Some((string_views(c@), f@)),
            None => find_folder_in_forest(forest_model(fs@), id@) is None,
        },
    decreases fs@,
{
    let mut i: usize = 0;
    while i < fs.len()
        invariant
            i <= fs@.len(),
            find_folder_in_forest(forest_model(fs@.take(i as int)), id@) is None,
        decreases fs.len() - i,
    {
        let f = &fs[i];
        proof {
            assert(fs@.take(i + 1).drop_last() == fs@.take(i as int));
            assert(fs@.take(i + 1).last() == fs@[i as int]);
            lemma_forest_model_take(fs@, i + 1);
            lemma_forest_model(fs@);
            let ms = forest_model(fs@.take(i + 1));
            assert(ms == forest_model(fs@.take(i as int)).push(folder_model(fs@[i as int])));
            assert(ms.drop_last() =~= forest_model(fs@.take(i as int)));
            assert(find_folder_in_forest(ms, id@) == find_folder_in(folder_model(fs@[i as int]), id@));
        }
        if str_eq(f.id.as_str(), id) {
            let c: Vec<String> = Vec::new();
            proof {
                assert(string_views(c@) =~= Seq::<Seq<char>>::empty());
                lemma_find_folder_forest_prefix(forest_model(fs@), id@, i + 1);
            }
            return Some((c, f));
        }
        proof {
            assert(decreases_to!(fs@ => fs@[i as int]));
            assert(decreases_to!(fs@[i as int] => fs@[i as int].folders));
            assert(decreases_to!(fs@[i as int].folders => fs@[i as int].folders@));
        }
        match find_folder_in_folders(&f.folders, id) {
            Some((sub, x)) => {
                let c = prepend_id(&f.id, sub);
                proof {
                    lemma_find_folder_forest_prefix(forest_model(fs@), id@, i + 1);
                }
                return Some((c, x));
            },
            None => {},
        }
        i = i + 1;
    }
    proof {
        assert(fs@.take(fs@.len() as int) == fs@);
    }
    None
}

/// The `(id, name)` pairs of a list of requests.
pub open spec fn id_name_pairs(s: Seq<ApiRequest>) -> Seq<(Seq<char>, Seq<char>)> {
    s.map_values(|r: ApiRequest| (r.id@, r.name@))
}

/// The views of a list of owned `(id, name)` pairs.
pub open spec fn pair_views(v: Seq<(String, String)>) -> Seq<(Seq<char>, Seq<char>)> {
    v.map_values(|p: (String, String)| (p.0@, p.1@))
}

fn push_id_names(out: &mut Vec<(String, String)>, reqs: &Vec<ApiRequest>)
    ensures
        pair_views(final(out)@) == pair_views(old(out)@) + id_name_pairs(reqs@),
{
    let ghost start = pair_views(out@);
    let mut i: usize = 0;
    while i < reqs.len()
        invariant
            i <= reqs@.len(),
            pair_views(out@) == start + id_name_pairs(reqs@.take(i as int)),
        decreases reqs.len() - i,
    {
        let ghost before = out@;
        let pair = (reqs[i].id.clone(), reqs[i].name.clone());
        out.push(pair);
        proof {
            assert(pair_views(out@) =~= pair_views(before).push((reqs@[i as int].id@, reqs@[i as int].name@)));
            assert(id_name_pairs(reqs@.take(i + 1)) =~= id_name_pairs(reqs@.take(i as int)).push(
                (reqs@[i as int].id@, reqs@[i as int].name@),
            ));
            assert(pair_views(out@) =~= start + id_name_pairs(reqs@.take(i + 1)));
        }
        i = i + 1;
    }
    assert(reqs@.take(reqs@.len() as int) == reqs@);
}

fn collect_subtree_requests(f: &Folder, out: &mut Vec<(String, String)>)
    ensures
        pair_views(final(out)@) == pair_views(old(out)@) + id_name_pairs(subtree_requests(f@)),
    decreases f,
{
    let ghost start = pair_views(out@);
    push_id_names(out, &f.requests);
    let mut i: usize = 0;
    while i < f.folders.len()
        invariant
            i <= f.folders@.len(),
            pair_views(out@) == start + id_name_pairs(f.requests@) + id_name_pairs(
                forest_requests(forest_model(f.folders@.take(i as int))),
            ),
        decreases f.folders.len() - i,
    {
        proof {
            assert(decreases_to!(f => f.folders));
            assert(decreases_to!(f.folders => f.folders@));
            assert(decreases_to!(f.folders@ => f.folders@[i as int]));
            let fs = f.folders@;
            assert(fs.take(i + 1).drop_last() == fs.take(i as int));
            let ms = forest_model(fs.take(i + 1));
            assert(ms == forest_model(fs.take(i as int)).push(folder_model(fs[i as int])));
            assert(ms.drop_last() =~= forest_model(fs.take(i as int)));
            assert(forest_requests(ms) == forest_requests(forest_model(fs.take(i as int)))
                + subtree_requests(folder_model(fs[i as int])));
        }
        collect_subtree_requests(&f.folders[i], out);
        proof {
            let fs = f.folders@;
            let a = forest_requests(forest_model(fs.take(i as int)));
            let b = subtree_requests(folder_model(fs[i as int]));
            assert(id_name_pairs(a + b) =~= id_name_pairs(a) + id_name_pairs(b));
        }
        i = i + 1;
    }
    proof {
        assert(f.folders@.take(f.folders@.len() as int) == f.folders@);
        let a = f.requests@;
        let b = forest_requests(forest_model(f.folders@));
        assert(id_name_pairs(a + b) =~= id_name_pairs(a) + id_name_pairs(b));
    }
}


impl Folder {
    /// An empty folder with a fresh id.
    pub fn new(name: &str) -> (r: Self)
        ensures
            r.id@.len() == 21,
            r.name@ == name@,
            r.description@.len() == 0,
            r.params@.len() == 0,
            r.headers@.len() == 0,
            r.folders@.len() == 0,
            r.requests@.len() == 0,
            r.variables@.len() == 0,
            r.base_url is None,
    {
        Folder {
            id: new_id(),
            name: name.to_owned(),
            description: String::new(),
            params: Vec::new(),
            headers: Vec::new(),
            folders: Vec::new(),
            requests: Vec::new(),
            variables: Vec::new(),
            base_url: None,
        }
    }
}

/// An environment: a named set of variables.
#[derive(Debug)]
pub struct Environment {
    pub id: String,
    pub name: String,
    pub variables: Vec<KeyValue>,
}

impl Environment {
    /// An empty environment with a fresh id.
    pub fn new(name: &str) -> (r: Self)
        ensures
            r.id@.len() == 21,
            r.name@ == name@,
            r.variables@.len() == 0,
    {
        Environment { id: new_id(), name: name.to_owned(), variables: Vec::new() }
    }
}

/// A merge request in the project-management surface.
#[derive(Debug)]
pub struct MergeRequest {
    pub id: String,
    pub title: String,
    /// Branch the changes come from.
    pub source_branch: String,
    /// Branch the changes merge into.
    pub target_branch: String,
    /// Lifecycle state: "open", "merged", "closed".
    pub state: String,
    /// Author display name.
    pub author: String,
    /// Creation timestamp.
    pub created_at: String,
}

impl MergeRequest {
    /// An open merge request by `me`, stamped now.
    pub fn new(title: &str, source: &str, target: &str) -> (r: Self)
        ensures
            r.id@.len() == 21,
            r.title@ == title@,
            r.source_branch@ == source@,
            r.target_branch@ == target@,
            r.state@ == "open"@,
            r.author@ == "me"@,
    {
        MergeRequest {
            id: new_id(),
            title: title.to_owned(),
            source_branch: source.to_owned(),
            target_branch: target.to_owned(),
            state: "open".to_owned(),
            author: "me".to_owned(),
            created_at: now_minutes(),
        }
    }
}

/// A shared status-code dictionary entry.
#[derive(Debug)]
pub struct StatusCodeEntry {
    pub code: u16,
    pub name: String,
    pub description: String,
}

/// The built-in status-code dictionary seeded into new projects.
pub open spec fn default_status_codes() -> Seq<(u16, Seq<char>, Seq<char>)> {
    seq![
            (200u16, "OK"@, "请求成功"@),
            (201u16, "Created"@, "资源创建成功"@),
            (204u16, "No Content"@, "成功但无返回内容"@),
            (301u16, "Moved Permanently"@, "永久重定向"@),
            (302u16, "Found"@, "临时重定向"@),
            (304u16, "Not Modified"@, "资源未修改，可使用缓存"@),
            (400u16, "Bad Request"@, "请求参数错误"@),
            (401u16, "Unauthorized"@, "未授权，缺少或无效的认证"@),
            (403u16, "Forbidden"@, "禁止访问"@),
            (404u16, "Not Found"@, "资源不存在"@),
            (405u16, "Method Not Allowed"@, "请求方法不被允许"@),
            (409u16, "Conflict"@, "资源冲突"@),
            (422u16, "Unprocessable Entity"@, "语义错误，无法处理"@),
            (429u16, "Too Many Requests"@, "请求过于频繁，已限流"@),
            (500u16, "Internal Server Error"@, "服务器内部错误"@),
            (502u16, "Bad Gateway"@, "网关错误"@),
            (503u16, "Service Unavailable"@, "服务暂不可用"@),
            (504u16, "Gateway Timeout"@, "网关超时"@),
    ]
}

/// The `(code, name, description)` values of a list of entries.
pub open spec fn status_code_views(v: Seq<StatusCodeEntry>) -> Seq<(u16, Seq<char>, Seq<char>)> {
    v.map_values(|e: StatusCodeEntry| (e.code, e.name@, e.description@))
}

impl StatusCodeEntry {
    pub fn new(code: u16, name: &str) -> (r: Self)
        ensures
            r.code == code,
            r.name@ == name@,
            r.description@.len() == 0,
    {
        StatusCodeEntry { code, name: name.to_owned(), description: String::new() }
    }

    /// A small built-in dictionary seeded for new projects.
    pub fn defaults() -> (r: Vec<Self>)
        ensures
            status_code_views(r@) == default_status_codes(),
    {
        let mut v: Vec<StatusCodeEntry> = Vec::new();
        v.push(StatusCodeEntry { code: 200, name: "OK".to_owned(), description: "请求成功".to_owned() });
        v.push(StatusCodeEntry { code: 201, name: "Created".to_owned(), description: "资源创建成功".to_owned() });
        v.push(StatusCodeEntry { code: 204, name: "No Content".to_owned(), description: "成功但无返回内容".to_owned() });
        v.push(StatusCodeEntry { code: 301, name: "Moved Permanently".to_owned(), description: "永久重定向".to_owned() });
        v.push(StatusCodeEntry { code: 302, name: "Found".to_owned(), description: "临时重定向".to_owned() });
        v.push(StatusCodeEntry { code: 304, name: "Not Modified".to_owned(), description: "资源未修改，可使用缓存".to_owned() });
        v.push(StatusCodeEntry { code: 400, name: "Bad Request".to_owned(), description: "请求参数错误".to_owned() });
        v.push(StatusCodeEntry { code: 401, name: "Unauthorized".to_owned(), description: "未授权，缺少或无效的认证".to_owned() });
        v.push(StatusCodeEntry { code: 403, name: "Forbidden".to_owned(), description: "禁止访问".to_owned() });
        v.push(StatusCodeEntry { code: 404, name: "Not Found".to_owned(), description: "资源不存在".to_owned() });
        v.push(StatusCodeEntry { code: 405, name: "Method Not Allowed".to_owned(), description: "请求方法不被允许".to_owned() });
        v.push(StatusCodeEntry { code: 409, name: "Conflict".to_owned(), description: "资源冲突".to_owned() });
        v.push(StatusCodeEntry { code: 422, name: "Unprocessable Entity".to_owned(), description: "语义错误，无法处理".to_owned() });
        v.push(StatusCodeEntry { code: 429, name: "Too Many Requests".to_owned(), description: "请求过于频繁，已限流".to_owned() });
        v.push(StatusCodeEntry { code: 500, name: "Internal Server Error".to_owned(), description: "服务器内部错误".to_owned() });
        v.push(StatusCodeEntry { code: 502, name: "Bad Gateway".to_owned(), description: "网关错误".to_owned() });
        v.push(StatusCodeEntry { code: 503, name: "Service Unavailable".to_owned(), description: "服务暂不可用".to_owned() });
        v.push(StatusCodeEntry { code: 504, name: "Gateway Timeout".to_owned(), description: "网关超时".to_owned() });
        assert(status_code_views(v@) =~= default_status_codes());
        v
    }
}

/// An OpenAPI access token.
#[derive(Debug)]
pub struct ApiToken {
    pub id: String,
    /// Human label for the token.
    pub label: String,
    /// The secret value.
    pub token: String,
    /// Creation timestamp.
    pub created_at: String,
}

impl ApiToken {
    /// A token `verve_` followed by 16 random lowercase hex digits.
    pub fn new(label: &str) -> (r: Self)
        ensures
            r.id@.len() == 21,
            r.label@ == label@,
            r.token@.len() == 22,
            r.token@.take(6) == "verve_"@,
            forall|i: int| 6 <= i < 22 ==> ('0' <= #[trigger] r.token@[i] <= '9' || 'a' <= r.token@[i] <= 'f'),
    {
        let rand = chars_of(random_hex32().as_str());
        let mut token = "verve_".to_owned();
        proof {
            reveal_strlit("verve_");
        }
        let ghost start = token@;
        let mut i: usize = 0;
        while i < 16
            invariant
                rand@.len() == 32,
                forall|j: int| 0 <= j < 32 ==> ('0' <= #[trigger] rand@[j] <= '9' || 'a' <= rand@[j] <= 'f'),
                start == "verve_"@,
                start.len() == 6,
                i <= 16,
                token@ == start + rand@.take(i as int),
            decreases 16 - i,
        {
            string_push(&mut token, rand[i]);
            assert(rand@.take(i + 1) == rand@.take(i as int).push(rand@[i as int]));
            i = i + 1;
        }
        assert(token@.take(6) =~= "verve_"@);
        ApiToken { id: new_id(), label: label.to_owned(), token, created_at: now_minutes() }
    }
}

/// A project is the top-level unit.
#[derive(Debug)]
pub struct Project {
    pub id: String,
    pub name: String,
    pub description: String,
    pub folders: Vec<Folder>,
    /// Top-level requests not in any folder.
    pub requests: Vec<ApiRequest>,
    pub environments: Vec<Environment>,
    /// Active environment id.
    pub active_environment: Option<String>,
    /// Project-global variables (lowest priority scope).
    pub global_variables: Vec<KeyValue>,
    /// Project-global query parameters.
    pub global_params: Vec<KeyValue>,
    /// Project-global request headers.
    pub global_headers: Vec<KeyValue>,
    /// Project-global cookies.
    pub global_cookies: Vec<KeyValue>,
    pub merge_requests: Vec<MergeRequest>,
    /// Shared HTTP status code dictionary.
    pub status_codes: Vec<StatusCodeEntry>,
    /// OpenAPI access tokens.
    pub api_tokens: Vec<ApiToken>,
    /// Soft-deleted/archived flag.
    pub archived: bool,
}

/// Index of the first environment with the given id.
pub open spec fn first_env(s: Seq<Environment>, id: Seq<char>) -> Option<int>
    decreases s.len(),
{
    if s.len() == 0 {
        None
    } else {
        match first_env(s.drop_last(), id) {
            Some(k) => Some(k),
            None => if s.last().id@ == id {
                Some(s.len() - 1)
            } else {
                None
            },
        }
    }
}

/// `(folder path, request)` entries of a subtree: every request of the
/// subtree with the ` > `-joined names of the folders from the top down to
/// its owner.
pub open spec fn join_path(prefix: Seq<char>, name: Seq<char>) -> Seq<char> {
    if prefix.len() == 0 {
        name
    } else {
        prefix + " > "@ + name
    }
}

pub open spec fn subtree_entries(f: FolderModel, prefix: Seq<char>) -> Seq<(Seq<char>, ApiRequest)>
    decreases f,
{
    let path = join_path(prefix, f.name);
    f.requests.map_values(|r: ApiRequest| (path, r)) + forest_entries(f.folders, path)
}

pub open spec fn forest_entries(fs: Seq<FolderModel>, prefix: Seq<char>) -> Seq<(Seq<char>, ApiRequest)>
    decreases fs,
{
    if fs.len() == 0 {
        Seq::empty()
    } else {
        forest_entries(fs.drop_last(), prefix) + subtree_entries(fs.last(), prefix)
    }
}

/// The views of `(path, &request)` entries.
pub open spec fn entry_views(v: Seq<(String, &ApiRequest)>) -> Seq<(Seq<char>, ApiRequest)> {
    v.map_values(|e: (String, &ApiRequest)| (e.0@, *e.1))
}

/// Variables along a folder-id chain (root → parent), stopping at the first
/// id that is not found among the current folder's children.
pub open spec fn chain_variables(fs: Seq<FolderModel>, chain: Seq<Seq<char>>) -> Seq<Seq<KeyValue>>
    decreases chain.len(),
{
    if chain.len() == 0 {
        Seq::empty()
    } else {
        match first_folder(fs, chain[0]) {
            Some(k) => seq![fs[k].variables] + chain_variables(fs[k].folders, chain.drop_first()),
            None => Seq::empty(),
        }
    }
}

/// Index of the first folder (at this level only) with the given id.
pub open spec fn first_folder(s: Seq<FolderModel>, id: Seq<char>) -> Option<int>
    decreases s.len(),
{
    if s.len() == 0 {
        None
    } else {
        match first_folder(s.drop_last(), id) {
            Some(k) => Some(k),
            None => if s.last().id == id {
                Some(s.len() - 1)
            } else {
                None
            },
        }
    }
}

impl Project {
    /// The folder subtrees of the project.
    pub open spec fn folder_models(&self) -> Seq<FolderModel> {
        forest_model(self.folders@)
    }

    /// Every request of the project: top-level ones, then the folder
    /// subtrees in order.
    pub open spec fn all_requests(&self) -> Seq<ApiRequest> {
        self.requests@ + forest_requests(self.folder_models())
    }

    /// [`Project::find_request`] on the model.
    pub open spec fn spec_find_request(&self, id: Seq<char>) -> Option<(Seq<Seq<char>>, ApiRequest)> {
        match first_request(self.requests@, id) {
            Some(k) => Some((Seq::empty(), self.requests@[k])),
            None => find_request_in_forest(self.folder_models(), id),
        }
    }

    /// The active environment's variables (empty when none is active or the
    /// id is unknown).
    pub open spec fn spec_active_env_variables(&self) -> Seq<KeyValue> {
        match self.active_environment {
            Some(id) => match first_env(self.environments@, id@) {
                Some(k) => self.environments@[k].variables@,
                None => Seq::empty(),
            },
            None => Seq::empty(),
        }
    }

    /// An empty project with a fresh id and the default status codes.
    pub fn new(name: &str) -> (r: Self)
        ensures
            r.id@.len() == 21,
            r.name@ == name@,
            r.description@.len() == 0,
            r.folders@.len() == 0,
            r.requests@.len() == 0,
            r.environments@.len() == 0,
            r.active_environment is None,
            r.global_variables@.len() == 0,
            r.global_params@.len() == 0,
            r.global_headers@.len() == 0,
            r.global_cookies@.len() == 0,
            r.merge_requests@.len() == 0,
            status_code_views(r.status_codes@) == default_status_codes(),
            r.api_tokens@.len() == 0,
            !r.archived,
    {
        Project {
            id: new_id(),
            name: name.to_owned(),
            description: String::new(),
            folders: Vec::new(),
            requests: Vec::new(),
            environments: Vec::new(),
            active_environment: None,
            global_variables: Vec::new(),
            global_params: Vec::new(),
            global_headers: Vec::new(),
            global_cookies: Vec::new(),
            merge_requests: Vec::new(),
            status_codes: StatusCodeEntry::defaults(),
            api_tokens: Vec::new(),
            archived: false,
        }
    }

    /// The active environment's variables (or empty).
    pub fn active_env_variables(&self) -> (r: &[KeyValue])
        ensures
            r@ == self.spec_active_env_variables(),
    {
        match &self.active_environment {
            Some(id) => {
                let mut i: usize = 0;
                while i < self.environments.len()
                    invariant
                        i <= self.environments@.len(),
                        self.active_environment == Some(*id),
                        first_env(self.environments@.take(i as int), id@) is None,
                    decreases self.environments.len() - i,
                {
                    proof {
                        assert(self.environments@.take(i + 1).drop_last() == self.environments@.take(i as int));
                    }
                    if self.environments[i].id == *id {
                        proof {
                            assert(self.environments@.take(i + 1).last() == self.environments@[i as int]);
                            assert(first_env(self.environments@.take(i + 1), id@) == Some(i as int));
                            lemma_first_env_prefix(self.environments@, id@, i + 1);
                        }
                        return self.environments[i].variables.as_slice();
                    }
                    i = i + 1;
                }
                proof {
                    assert(self.environments@.take(self.environments@.len() as int) == self.environments@);
                }
                let empty: &[KeyValue] = &[];
                assert(empty@ =~= Seq::<KeyValue>::empty());
                empty
            },
            None => {
                let empty: &[KeyValue] = &[];
                assert(empty@ =~= Seq::<KeyValue>::empty());
                empty
            },
        }
    }

    /// Borrow a request by id, with the folder-id chain (root → parent) that
    /// leads to it. Top-level requests are searched first, then the folders
    /// in order (each folder's own requests before its subfolders).
    pub fn find_request(&self, id: &str) -> (r: Option<(Vec<String>, &ApiRequest)>)
        ensures
            match r {
                Some((c, q)) => self.spec_find_request(id@) == Some((string_views(c@), *q)),
                None => self.spec_find_request(id@) is None,
            },
    {
        match first_request_exec(&self.requests, id) {
            Some(k) => {
                let c: Vec<String> = Vec::new();
                assert(string_views(c@) =~= Seq::<Seq<char>>::empty());
                Some((c, &self.requests[k]))
            },
            None => find_request_in_folders(&self.folders, id),
        }
    }

    /// Borrow a folder by id (anywhere in the tree, pre-order), with its
    /// ancestor-id chain (root → parent).
    pub fn find_folder(&self, id: &str) -> (r: Option<(Vec<String>, &Folder)>)
        ensures
            match r {
                Some((c, f)) => find_folder_in_forest(self.folder_models(), id@) == Some((string_views(c@), f@)),
                None => find_folder_in_forest(self.folder_models(), id@) is None,
            },
    {
        find_folder_in_folders(&self.folders, id)
    }

    /// `(id, name)` of every request in the folder's subtree (its own
    /// requests first, then nested folders); empty when the folder is unknown.
    pub fn collect_requests_in_folder(&self, folder_id: &str) -> (r: Vec<(String, String)>)
        ensures
            pair_views(r@) == match find_folder_in_forest(self.folder_models(), folder_id@) {
                Some((_, f)) => id_name_pairs(subtree_requests(f)),
                None => Seq::empty(),
            },
    {
        let mut out: Vec<(String, String)> = Vec::new();
        assert(pair_views(out@) =~= Seq::<(Seq<char>, Seq<char>)>::empty());
        match self.find_folder(folder_id) {
            Some((_, folder)) => {
                collect_subtree_requests(folder, &mut out);
            },
            None => {},
        }
        out
    }

    /// Variables along a folder-id chain (root → parent), deepest last; the
    /// walk stops at the first id not found among the current children.
    pub fn folder_variables_chain(&self, chain: &[String]) -> (r: Vec<&[KeyValue]>)
        ensures
            r@.map_values(|v: &[KeyValue]| v@) == chain_variables(self.folder_models(), string_views(chain@)),
    {
        let mut out: Vec<&[KeyValue]> = Vec::new();
        let mut folders: &Vec<Folder> = &self.folders;
        let mut i: usize = 0;
        while i < chain.len()
            invariant
                i <= chain@.len(),
                out@.map_values(|v: &[KeyValue]| v@) + chain_variables(forest_model(folders@), string_views(chain@).skip(i as int))
                    == chain_variables(self.folder_models(), string_views(chain@)),
            decreases chain.len() - i,
        {
            let id = &chain[i];
            let found = first_folder_exec(folders, id.as_str());
            let ghost fm = forest_model(folders@);
            let ghost rest = string_views(chain@).skip(i as int);
            proof {
                assert(rest[0] == id@);
                assert(rest.drop_first() =~= string_views(chain@).skip(i + 1));
            }
            match found {
                Some(k) => {
                    let ghost before = out@.map_values(|v: &[KeyValue]| v@);
                    out.push(folders[k].variables.as_slice());
                    proof {
                        assert(out@.map_values(|v: &[KeyValue]| v@) =~= before.push(fm[k as int].variables));
                        assert(chain_variables(fm, rest) == seq![fm[k as int].variables] + chain_variables(fm[k as int].folders, rest.drop_first()));
                        assert(before.push(fm[k as int].variables) + chain_variables(fm[k as int].folders, rest.drop_first())
                            =~= before + (seq![fm[k as int].variables] + chain_variables(fm[k as int].folders, rest.drop_first())));
                    }
                    folders = &folders[k].folders;
                },
                None => {
                    proof {
                        assert(chain_variables(fm, rest) == Seq::<Seq<KeyValue>>::empty());
                        assert(out@.map_values(|v: &[KeyValue]| v@) + Seq::<Seq<KeyValue>>::empty() == out@.map_values(|v: &[KeyValue]| v@));
                    }
                    return out;
                },
            }
            i = i + 1;
        }
        proof {
            assert(string_views(chain@).skip(chain@.len() as int) =~= Seq::<Seq<char>>::empty());
            assert(out@.map_values(|v: &[KeyValue]| v@) + Seq::<Seq<KeyValue>>::empty() == out@.map_values(|v: &[KeyValue]| v@));
        }
        out
    }
}

fn first_folder_exec(folders: &Vec<Folder>, id: &str) -> (r: Option<usize>)
    ensures
        forest_model(folders@).len() == folders@.len(),
        forall|j: int| 0 <= j < folders@.len() ==> #[trigger] forest_model(folders@)[j] == folder_model(folders@[j]),
        r matches Some(k) ==> first_folder(forest_model(folders@), id@) == Some(k as int) && k < folders@.len(),
        r is None ==> first_folder(forest_model(folders@), id@) is None,
{
    proof {
        lemma_forest_model(folders@);
    }
    let ghost fm = forest_model(folders@);
    let mut k: usize = 0;
    while k < folders.len()
        invariant
            k <= folders@.len(),
            fm == forest_model(folders@),
            fm.len() == folders@.len(),
            forall|j: int| 0 <= j < folders@.len() ==> #[trigger] fm[j] == folder_model(folders@[j]),
            first_folder(fm.take(k as int), id@) is None,
        decreases folders.len() - k,
    {
        proof {
            assert(fm.take(k + 1).drop_last() == fm.take(k as int));
            assert(fm.take(k + 1).last() == fm[k as int]);
        }
        if str_eq(folders[k].id.as_str(), id) {
            proof {
                assert(fm[k as int].id == id@);
                lemma_first_folder_prefix(fm, id@, k + 1);
            }
            return Some(k);
        }
        k = k + 1;
    }
    proof {
        assert(fm.take(fm.len() as int) == fm);
    }
    None
}

proof fn lemma_first_env_prefix(s: Seq<Environment>, id: Seq<char>, n: int)
    requires
        0 <= n <= s.len(),
        first_env(s.take(n), id) is Some,
    ensures
        first_env(s, id) == first_env(s.take(n), id),
    decreases s.len() - n,
{
    if n < s.len() {
        assert(s.take(n + 1).drop_last() == s.take(n));
        lemma_first_env_prefix(s, id, n + 1);
    } else {
        assert(s.take(n) == s);
    }
}

proof fn lemma_first_folder_prefix(s: Seq<FolderModel>, id: Seq<char>, n: int)
    requires
        0 <= n <= s.len(),
        first_folder(s.take(n), id) is Some,
    ensures
        first_folder(s, id) == first_folder(s.take(n), id),
    decreases s.len() - n,
{
    if n < s.len() {
        assert(s.take(n + 1).drop_last() == s.take(n));
        lemma_first_folder_prefix(s, id, n + 1);
    } else {
        assert(s.take(n) == s);
    }
}


pub(crate) fn join_path_exec(prefix: &String, name: &String) -> (r: String)
    ensures
        r@ == join_path(prefix@, name@),
{
    if prefix.as_str().is_empty() {
        name.clone()
    } else {
        let mut p = prefix.clone();
        p.append(" > ");
        p.append(name.as_str());
        p
    }
}


fn push_entries<'a>(out: &mut Vec<(String, &'a ApiRequest)>, reqs: &'a Vec<ApiRequest>, path: &String)
    ensures
        entry_views(final(out)@) == entry_views(old(out)@) + reqs@.map_values(|r: ApiRequest| (path@, r)),
{
    let ghost start = entry_views(out@);
    let mut i: usize = 0;
    while i < reqs.len()
        invariant
            i <= reqs@.len(),
            entry_views(out@) == start + reqs@.take(i as int).map_values(|r: ApiRequest| (path@, r)),
        decreases reqs.len() - i,
    {
        let ghost before = out@;
        out.push((path.clone(), &reqs[i]));
        proof {
            assert(entry_views(out@) =~= entry_views(before).push((path@, reqs@[i as int])));
            assert(reqs@.take(i + 1).map_values(|r: ApiRequest| (path@, r))
                =~= reqs@.take(i as int).map_values(|r: ApiRequest| (path@, r)).push((path@, reqs@[i as int])));
        }
        i = i + 1;
    }
    assert(reqs@.take(reqs@.len() as int) == reqs@);
}

fn collect_entries<'a>(fs: &'a Vec<Folder>, prefix: &String, out: &mut Vec<(String, &'a ApiRequest)>)
    ensures
        entry_views(final(out)@) == entry_views(old(out)@) + forest_entries(forest_model(fs@), prefix@),
    decreases fs@,
{
    let ghost start = entry_views(out@);
    let mut i: usize = 0;
    while i < fs.len()
        invariant
            i <= fs@.len(),
            entry_views(out@) == start + forest_entries(forest_model(fs@.take(i as int)), prefix@),
        decreases fs.len() - i,
    {
        let f = &fs[i];
        let path = join_path_exec(prefix, &f.name);
        let ghost mid = entry_views(out@);
        push_entries(out, &f.requests, &path);
        proof {
            assert(decreases_to!(fs@ => fs@[i as int]));
            assert(decreases_to!(fs@[i as int] => fs@[i as int].folders));
            assert(decreases_to!(fs@[i as int].folders => fs@[i as int].folders@));
        }
        collect_entries(&f.folders, &path, out);
        proof {
            assert(fs@.take(i + 1).drop_last() == fs@.take(i as int));
            assert(fs@.take(i + 1).last() == fs@[i as int]);
            let ms = forest_model(fs@.take(i + 1));
            assert(ms == forest_model(fs@.take(i as int)).push(folder_model(fs@[i as int])));
            assert(ms.drop_last() =~= forest_model(fs@.take(i as int)));
            let fm = folder_model(fs@[i as int]);
            assert(subtree_entries(fm, prefix@) == fm.requests.map_values(|r: ApiRequest| (path@, r))
                + forest_entries(fm.folders, path@));
            assert(forest_entries(ms, prefix@) == forest_entries(forest_model(fs@.take(i as int)), prefix@)
                + subtree_entries(fm, prefix@));
            assert(entry_views(out@) =~= start + forest_entries(ms, prefix@));
        }
        i = i + 1;
    }
    assert(fs@.take(fs@.len() as int) == fs@);
}

impl Project {
    /// Every request of the project with the ` > `-joined folder path of its
    /// owner (empty for top-level requests): top-level requests first, then
    /// the folder subtrees in order.
    pub fn iter_all_requests(&self) -> (r: Vec<(String, &ApiRequest)>)
        ensures
            entry_views(r@) == self.requests@.map_values(|q: ApiRequest| (Seq::<char>::empty(), q))
                + forest_entries(self.folder_models(), Seq::<char>::empty()),
    {
        let mut out: Vec<(String, &ApiRequest)> = Vec::new();
        let empty = String::new();
        assert(entry_views(out@) =~= Seq::<(Seq<char>, ApiRequest)>::empty());
        push_entries(&mut out, &self.requests, &empty);
        collect_entries(&self.folders, &empty, &mut out);
        out
    }
}


/// Removal of the first request with id `id` from a subtree: the folder's
/// own requests are searched first, then its subfolders in order. Gives the
/// updated folder and the removed request.
pub open spec fn take_req_in(f: FolderModel, id: Seq<char>) -> Option<(FolderModel, ApiRequest)>
    decreases f,
{
    match first_request(f.requests, id) {
        Some(k) => Some((FolderModel { requests: f.requests.remove(k), ..f }, f.requests[k])),
        None => match take_req_in_forest(f.folders, id) {
            Some((fs2, r)) => Some((FolderModel { folders: fs2, ..f }, r)),
            None => None,
        },
    }
}

/// [`take_req_in`] over a list of folders: the first folder (in order) that
/// holds the request loses it.
pub open spec fn take_req_in_forest(fs: Seq<FolderModel>, id: Seq<char>) -> Option<(Seq<FolderModel>, ApiRequest)>
    decreases fs,
{
    if fs.len() == 0 {
        None
    } else {
        match take_req_in_forest(fs.drop_last(), id) {
            Some((fs2, r)) => Some((fs2.push(fs.last()), r)),
            None => match take_req_in(fs.last(), id) {
                Some((f2, r)) => Some((fs.drop_last().push(f2), r)),
                None => None,
            },
        }
    }
}

proof fn lemma_take_req_forest_prefix(ms: Seq<FolderModel>, id: Seq<char>, n: int)
    requires
        0 <= n <= ms.len(),
        take_req_in_forest(ms.take(n), id) is Some,
    ensures
        take_req_in_forest(ms, id) matches Some((fs2, r)) && take_req_in_forest(ms.take(n), id) matches Some((p2, r2))
            && r == r2 && fs2 == p2 + ms.skip(n),
    decreases ms.len() - n,
{
    if n < ms.len() {
        assert(ms.take(n + 1).drop_last() == ms.take(n));
        assert(ms.take(n + 1).last() == ms[n]);
        lemma_take_req_forest_prefix(ms, id, n + 1);
        let (p2, _) = take_req_in_forest(ms.take(n), id).unwrap();
        assert(p2.push(ms[n]) + ms.skip(n + 1) =~= p2 + ms.skip(n));
    } else {
        assert(ms.take(n) == ms);
        let (p2, _) = take_req_in_forest(ms, id).unwrap();
        assert(p2 + ms.skip(n) =~= p2);
    }
}

/// Replacing one folder of a list changes its model at that position only.
pub(crate) proof fn lemma_forest_model_update(fs: Seq<Folder>, i: int, f: Folder)
    requires
        0 <= i < fs.len(),
    ensures
        forest_model(fs.update(i, f)) == forest_model(fs).update(i, folder_model(f)),
{
    lemma_forest_model(fs);
    lemma_forest_model(fs.update(i, f));
    assert(forest_model(fs.update(i, f)) =~= forest_model(fs).update(i, folder_model(f)));
}

fn take_request_from_folders(fs: &mut Vec<Folder>, id: &str) -> (r: Option<ApiRequest>)
    ensures
        match take_req_in_forest(forest_model(old(fs)@), id@) {
            Some((m, q)) => r == Some(q) && forest_model(final(fs)@) == m,
            None => r is None && forest_model(final(fs)@) == forest_model(old(fs)@),
        },
    decreases forest_model(old(fs)@),
{
    let ghost mm = forest_model(fs@);
    proof {
        lemma_forest_model(fs@);
    }
    let mut i: usize = 0;
    while i < fs.len()
        invariant
            forest_model(fs@) == mm,
            mm == forest_model(old(fs)@),
            mm.len() == fs@.len(),
            i <= fs@.len(),
            take_req_in_forest(mm.take(i as int), id@) is None,
        decreases fs.len() - i,
    {
        proof {
            lemma_forest_model(fs@);
            assert(mm[i as int] == folder_model(fs@[i as int]));
            assert(mm.take(i + 1).drop_last() == mm.take(i as int));
            assert(mm.take(i + 1).last() == mm[i as int]);
        }
        match first_request_exec(&fs[i].requests, id) {
            Some(k) => {
                let ghost before = fs@;
                let q = fs[i].requests.remove(k);
                proof {
                    let fm = mm[i as int];
                    let f2 = FolderModel { requests: fm.requests.remove(k as int), ..fm };
                    assert(folder_model(fs@[i as int]) == f2);
                    assert(fs@ == before.update(i as int, fs@[i as int]));
                    lemma_forest_model_update(before, i as int, fs@[i as int]);
                    assert(take_req_in(fm, id@) == Some((f2, q)));
                    assert(take_req_in_forest(mm.take(i + 1), id@) == Some((mm.take(i as int).push(f2), q)));
                    lemma_take_req_forest_prefix(mm, id@, i + 1);
                    assert(mm.take(i as int).push(f2) + mm.skip(i + 1) =~= mm.update(i as int, f2));
                    assert(forest_model(before) == mm);
                    assert(forest_model(fs@) == mm.update(i as int, f2));
                    assert(take_req_in_forest(mm, id@) == Some((mm.update(i as int, f2), q)));
                }
                return Some(q);
            },
            None => {},
        }
        proof {
            assert(decreases_to!(mm => mm[i as int]));
            assert(decreases_to!(mm[i as int] => mm[i as int].folders));
            assert(mm[i as int].folders == forest_model(fs@[i as int].folders@));
        }
        let ghost before = fs@;
        let res = take_request_from_folders(&mut fs[i].folders, id);
        match res {
            Some(q) => {
                proof {
                    let fm = mm[i as int];
                    let (m2, _) = take_req_in_forest(fm.folders, id@).unwrap();
                    let f2 = FolderModel { folders: m2, ..fm };
                    assert(folder_model(fs@[i as int]) == f2);
                    assert(fs@ == before.update(i as int, fs@[i as int]));
                    lemma_forest_model_update(before, i as int, fs@[i as int]);
                    assert(take_req_in(fm, id@) == Some((f2, q)));
                    lemma_take_req_forest_prefix(mm, id@, i + 1);
                    assert(mm.take(i as int).push(f2) + mm.skip(i + 1) =~= mm.update(i as int, f2));
                }
                return Some(q);
            },
            None => {
                proof {
                    let fm = mm[i as int];
                    assert(folder_model(fs@[i as int]) == fm);
                    assert(fs@ == before.update(i as int, fs@[i as int]));
                    lemma_forest_model_update(before, i as int, fs@[i as int]);
                    assert(mm.update(i as int, fm) =~= mm);
                    assert(take_req_in_forest(fm.folders, id@) is None);
                    assert(take_req_in(fm, id@) is None);
                    assert(take_req_in_forest(mm.take(i + 1), id@) is None);
                }
            },
        }
        i = i + 1;
    }
    proof {
        assert(mm.take(mm.len() as int) == mm);
    }
    None
}


/// Appending `req` to the requests of the first folder (pre-order) whose id is
/// `fid`.
pub open spec fn push_req_in(f: FolderModel, fid: Seq<char>, req: ApiRequest) -> Option<FolderModel>
    decreases f,
{
    if f.id == fid {
        Some(FolderModel { requests: f.requests.push(req), ..f })
    } else {
        match push_req_in_forest(f.folders, fid, req) {
            Some(fs2) => Some(FolderModel { folders: fs2, ..f }),
            None => None,
        }
    }
}

/// [`push_req_in`] over a list of folders, in order.
pub open spec fn push_req_in_forest(fs: Seq<FolderModel>, fid: Seq<char>, req: ApiRequest) -> Option<Seq<FolderModel>>
    decreases fs,
{
    if fs.len() == 0 {
        None
    } else {
        match push_req_in_forest(fs.drop_last(), fid, req) {
            Some(fs2) => Some(fs2.push(fs.last())),
            None => match push_req_in(fs.last(), fid, req) {
                Some(f2) => Some(fs.drop_last().push(f2)),
                None => None,
            },
        }
    }
}

proof fn lemma_push_req_forest_prefix(ms: Seq<FolderModel>, fid: Seq<char>, req: ApiRequest, n: int)
    requires
        0 <= n <= ms.len(),
        push_req_in_forest(ms.take(n), fid, req) is Some,
    ensures
        push_req_in_forest(ms, fid, req) matches Some(fs2) && push_req_in_forest(ms.take(n), fid, req) matches Some(p2)
            && fs2 == p2 + ms.skip(n),
    decreases ms.len() - n,
{
    if n < ms.len() {
        assert(ms.take(n + 1).drop_last() == ms.take(n));
        assert(ms.take(n + 1).last() == ms[n]);
        lemma_push_req_forest_prefix(ms, fid, req, n + 1);
        let p2 = push_req_in_forest(ms.take(n), fid, req).unwrap();
        assert(p2.push(ms[n]) + ms.skip(n + 1) =~= p2 + ms.skip(n));
    } else {
        assert(ms.take(n) == ms);
        let p2 = push_req_in_forest(ms, fid, req).unwrap();
        assert(p2 + ms.skip(n) =~= p2);
    }
}

/// Pushes `req` into the first folder (pre-order) with id `fid`; hands the
/// request back when there is no such folder.
fn push_request_into(fs: &mut Vec<Folder>, fid: &str, req: ApiRequest) -> (r: Option<ApiRequest>)
    ensures
        match push_req_in_forest(forest_model(old(fs)@), fid@, req) {
            Some(m) => r is None && forest_model(final(fs)@) == m,
            None => r == Some(req) && forest_model(final(fs)@) == forest_model(old(fs)@),
        },
    decreases forest_model(old(fs)@),
{
    let ghost mm = forest_model(fs@);
    proof {
        lemma_forest_model(fs@);
    }
    let ghost rq = req;
    let mut cur = req;
    let mut i: usize = 0;
    while i < fs.len()
        invariant
            forest_model(fs@) == mm,
            mm == forest_model(old(fs)@),
            mm.len() == fs@.len(),
            cur == rq,
            rq == req,
            i <= fs@.len(),
            push_req_in_forest(mm.take(i as int), fid@, rq) is None,
        decreases fs.len() - i,
    {
        proof {
            lemma_forest_model(fs@);
            assert(mm[i as int] == folder_model(fs@[i as int]));
            assert(mm.take(i + 1).drop_last() == mm.take(i as int));
            assert(mm.take(i + 1).last() == mm[i as int]);
        }
        if str_eq(fs[i].id.as_str(), fid) {
            let ghost before = fs@;
            fs[i].requests.push(cur);
            proof {
                let fm = mm[i as int];
                let f2 = FolderModel { requests: fm.requests.push(rq), ..fm };
                assert(folder_model(fs@[i as int]) == f2);
                assert(fs@ == before.update(i as int, fs@[i as int]));
                lemma_forest_model_update(before, i as int, fs@[i as int]);
                assert(push_req_in(fm, fid@, rq) == Some(f2));
                assert(push_req_in_forest(mm.take(i + 1), fid@, rq) == Some(mm.take(i as int).push(f2)));
                lemma_push_req_forest_prefix(mm, fid@, rq, i + 1);
                assert(mm.take(i as int).push(f2) + mm.skip(i + 1) =~= mm.update(i as int, f2));
            }
            return None;
        }
        proof {
            assert(decreases_to!(mm => mm[i as int]));
            assert(decreases_to!(mm[i as int] => mm[i as int].folders));
            assert(mm[i as int].folders == forest_model(fs@[i as int].folders@));
        }
        let ghost before = fs@;
        let res = push_request_into(&mut fs[i].folders, fid, cur);
        match res {
            None => {
                proof {
                    let fm = mm[i as int];
                    let m2 = push_req_in_forest(fm.folders, fid@, rq).unwrap();
                    let f2 = FolderModel { folders: m2, ..fm };
                    assert(folder_model(fs@[i as int]) == f2);
                    assert(fs@ == before.update(i as int, fs@[i as int]));
                    lemma_forest_model_update(before, i as int, fs@[i as int]);
                    assert(push_req_in(fm, fid@, rq) == Some(f2));
                    lemma_push_req_forest_prefix(mm, fid@, rq, i + 1);
                    assert(mm.take(i as int).push(f2) + mm.skip(i + 1) =~= mm.update(i as int, f2));
                }
                return None;
            },
            Some(back) => {
                cur = back;
                proof {
                    let fm = mm[i as int];
                    assert(folder_model(fs@[i as int]) == fm);
                    assert(fs@ == before.update(i as int, fs@[i as int]));
                    lemma_forest_model_update(before, i as int, fs@[i as int]);
                    assert(mm.update(i as int, fm) =~= mm);
                    assert(push_req_in(fm, fid@, rq) is None);
                    assert(push_req_in_forest(mm.take(i + 1), fid@, rq) is None);
                }
            },
        }
        i = i + 1;
    }
    proof {
        assert(mm.take(mm.len() as int) == mm);
    }
    Some(cur)
}


/// Appending folder `x` to the children of the first folder (pre-order) whose
/// id is `fid`.
pub open spec fn push_folder_in(f: FolderModel, fid: Seq<char>, x: FolderModel) -> Option<FolderModel>
    decreases f,
{
    if f.id == fid {
        Some(FolderModel { folders: f.folders.push(x), ..f })
    } else {
        match push_folder_in_forest(f.folders, fid, x) {
            Some(fs2) => Some(FolderModel { folders: fs2, ..f }),
            None => None,
        }
    }
}

/// [`push_folder_in`] over a list of folders, in order.
pub open spec fn push_folder_in_forest(fs: Seq<FolderModel>, fid: Seq<char>, x: FolderModel) -> Option<Seq<FolderModel>>
    decreases fs,
{
    if fs.len() == 0 {
        None
    } else {
        match push_folder_in_forest(fs.drop_last(), fid, x) {
            Some(fs2) => Some(fs2.push(fs.last())),
            None => match push_folder_in(fs.last(), fid, x) {
                Some(f2) => Some(fs.drop_last().push(f2)),
                None => None,
            },
        }
    }
}

proof fn lemma_push_folder_forest_prefix(ms: Seq<FolderModel>, fid: Seq<char>, x: FolderModel, n: int)
    requires
        0 <= n <= ms.len(),
        push_folder_in_forest(ms.take(n), fid, x) is Some,
    ensures
        push_folder_in_forest(ms, fid, x) matches Some(fs2) && push_folder_in_forest(ms.take(n), fid, x) matches Some(p2)
            && fs2 == p2 + ms.skip(n),
    decreases ms.len() - n,
{
    if n < ms.len() {
        assert(ms.take(n + 1).drop_last() == ms.take(n));
        assert(ms.take(n + 1).last() == ms[n]);
        lemma_push_folder_forest_prefix(ms, fid, x, n + 1);
        let p2 = push_folder_in_forest(ms.take(n), fid, x).unwrap();
        assert(p2.push(ms[n]) + ms.skip(n + 1) =~= p2 + ms.skip(n));
    } else {
        assert(ms.take(n) == ms);
        let p2 = push_folder_in_forest(ms, fid, x).unwrap();
        assert(p2 + ms.skip(n) =~= p2);
    }
}

/// Pushes `folder` into the children of the first folder (pre-order) with id
/// `fid`; hands it back when there is no such folder.
fn push_folder_into(fs: &mut Vec<Folder>, fid: &str, folder: Folder) -> (r: Option<Folder>)
    ensures
        match push_folder_in_forest(forest_model(old(fs)@), fid@, folder@) {
            Some(m) => r is None && forest_model(final(fs)@) == m,
            None => r == Some(folder) && forest_model(final(fs)@) == forest_model(old(fs)@),
        },
    decreases forest_model(old(fs)@),
{
    let ghost mm = forest_model(fs@);
    proof {
        lemma_forest_model(fs@);
    }
    let ghost rq = folder@;
    let ghost orig = folder;
    let mut cur = folder;
    let mut i: usize = 0;
    while i < fs.len()
        invariant
            forest_model(fs@) == mm,
            mm == forest_model(old(fs)@),
            mm.len() == fs@.len(),
            cur == orig,
            orig == folder,
            rq == folder@,
            i <= fs@.len(),
            push_folder_in_forest(mm.take(i as int), fid@, rq) is None,
        decreases fs.len() - i,
    {
        proof {
            lemma_forest_model(fs@);
            assert(mm[i as int] == folder_model(fs@[i as int]));
            assert(mm.take(i + 1).drop_last() == mm.take(i as int));
            assert(mm.take(i + 1).last() == mm[i as int]);
        }
        if str_eq(fs[i].id.as_str(), fid) {
            let ghost before = fs@;
            let ghost oldf = fs@[i as int].folders@;
            fs[i].folders.push(cur);
            proof {
                let fm = mm[i as int];
                let f2 = FolderModel { folders: fm.folders.push(rq), ..fm };
                assert(fs@[i as int].folders@ == oldf.push(orig));
                assert(fs@[i as int].folders@.drop_last() =~= oldf);
                assert(forest_model(fs@[i as int].folders@) == forest_model(oldf).push(folder_model(orig)));
                assert(folder_model(fs@[i as int]) == f2);
                assert(fs@ == before.update(i as int, fs@[i as int]));
                lemma_forest_model_update(before, i as int, fs@[i as int]);
                assert(push_folder_in(fm, fid@, rq) == Some(f2));
                assert(push_folder_in_forest(mm.take(i + 1), fid@, rq) == Some(mm.take(i as int).push(f2)));
                lemma_push_folder_forest_prefix(mm, fid@, rq, i + 1);
                assert(mm.take(i as int).push(f2) + mm.skip(i + 1) =~= mm.update(i as int, f2));
            }
            return None;
        }
        proof {
            assert(decreases_to!(mm => mm[i as int]));
            assert(decreases_to!(mm[i as int] => mm[i as int].folders));
            assert(mm[i as int].folders == forest_model(fs@[i as int].folders@));
        }
        let ghost before = fs@;
        let res = push_folder_into(&mut fs[i].folders, fid, cur);
        match res {
            None => {
                proof {
                    let fm = mm[i as int];
                    let m2 = push_folder_in_forest(fm.folders, fid@, rq).unwrap();
                    let f2 = FolderModel { folders: m2, ..fm };
                    assert(folder_model(fs@[i as int]) == f2);
                    assert(fs@ == before.update(i as int, fs@[i as int]));
                    lemma_forest_model_update(before, i as int, fs@[i as int]);
                    assert(push_folder_in(fm, fid@, rq) == Some(f2));
                    lemma_push_folder_forest_prefix(mm, fid@, rq, i + 1);
                    assert(mm.take(i as int).push(f2) + mm.skip(i + 1) =~= mm.update(i as int, f2));
                }
                return None;
            },
            Some(back) => {
                cur = back;
                proof {
                    let fm = mm[i as int];
                    assert(folder_model(fs@[i as int]) == fm);
                    assert(fs@ == before.update(i as int, fs@[i as int]));
                    lemma_forest_model_update(before, i as int, fs@[i as int]);
                    assert(mm.update(i as int, fm) =~= mm);
                    assert(push_folder_in(fm, fid@, rq) is None);
                    assert(push_folder_in_forest(mm.take(i + 1), fid@, rq) is None);
                }
            },
        }
        i = i + 1;
    }
    proof {
        assert(mm.take(mm.len() as int) == mm);
    }
    Some(cur)
}


/// The position at which a request dropped relative to position `p` lands.
pub open spec fn drop_pos(p: int, before: bool) -> int {
    if before {
        p
    } else {
        p + 1
    }
}

/// Inserting `req` next to (before or after) the first request with id `t`
/// in a subtree: the folder's own requests are searched first, then its
/// subfolders in order.
pub open spec fn insert_rel_in(f: FolderModel, t: Seq<char>, req: ApiRequest, before: bool) -> Option<FolderModel>
    decreases f,
{
    match first_request(f.requests, t) {
        Some(p) => Some(FolderModel { requests: f.requests.insert(drop_pos(p, before), req), ..f }),
        None => match insert_rel_in_forest(f.folders, t, req, before) {
            Some(fs2) => Some(FolderModel { folders: fs2, ..f }),
            None => None,
        },
    }
}

/// [`insert_rel_in`] over a list of folders, in order.
pub open spec fn insert_rel_in_forest(fs: Seq<FolderModel>, t: Seq<char>, req: ApiRequest, before: bool) -> Option<Seq<FolderModel>>
    decreases fs,
{
    if fs.len() == 0 {
        None
    } else {
        match insert_rel_in_forest(fs.drop_last(), t, req, before) {
            Some(fs2) => Some(fs2.push(fs.last())),
            None => match insert_rel_in(fs.last(), t, req, before) {
                Some(f2) => Some(fs.drop_last().push(f2)),
                None => None,
            },
        }
    }
}

proof fn lemma_insert_rel_forest_prefix(ms: Seq<FolderModel>, t: Seq<char>, req: ApiRequest, before: bool, n: int)
    requires
        0 <= n <= ms.len(),
        insert_rel_in_forest(ms.take(n), t, req, before) is Some,
    ensures
        insert_rel_in_forest(ms, t, req, before) matches Some(fs2) && insert_rel_in_forest(ms.take(n), t, req, before) matches Some(p2)
            && fs2 == p2 + ms.skip(n),
    decreases ms.len() - n,
{
    if n < ms.len() {
        assert(ms.take(n + 1).drop_last() == ms.take(n));
        assert(ms.take(n + 1).last() == ms[n]);
        lemma_insert_rel_forest_prefix(ms, t, req, before, n + 1);
        let p2 = insert_rel_in_forest(ms.take(n), t, req, before).unwrap();
        assert(p2.push(ms[n]) + ms.skip(n + 1) =~= p2 + ms.skip(n));
    } else {
        assert(ms.take(n) == ms);
        let p2 = insert_rel_in_forest(ms, t, req, before).unwrap();
        assert(p2 + ms.skip(n) =~= p2);
    }
}

/// Inserts `req` before/after the first request with id `t` found in the
/// folders; hands the request back when there is no such request.
fn insert_request_into(fs: &mut Vec<Folder>, t: &str, req: ApiRequest, before: bool) -> (r: Option<ApiRequest>)
    ensures
        match insert_rel_in_forest(forest_model(old(fs)@), t@, req, before) {
            Some(m) => r is None && forest_model(final(fs)@) == m,
            None => r == Some(req) && forest_model(final(fs)@) == forest_model(old(fs)@),
        },
    decreases forest_model(old(fs)@),
{
    let ghost mm = forest_model(fs@);
    proof {
        lemma_forest_model(fs@);
    }
    let ghost rq = req;
    let mut cur = req;
    let mut i: usize = 0;
    while i < fs.len()
        invariant
            forest_model(fs@) == mm,
            mm == forest_model(old(fs)@),
            mm.len() == fs@.len(),
            cur == rq,
            rq == req,
            i <= fs@.len(),
            insert_rel_in_forest(mm.take(i as int), t@, rq, before) is None,
        decreases fs.len() - i,
    {
        proof {
            lemma_forest_model(fs@);
            assert(mm[i as int] == folder_model(fs@[i as int]));
            assert(mm.take(i + 1).drop_last() == mm.take(i as int));
            assert(mm.take(i + 1).last() == mm[i as int]);
        }
        match first_request_exec(&fs[i].requests, t) {
            Some(p) => {
                let n = fs[i].requests.len();
                assert(p < n);
                let at = if before { p } else { p + 1 };
                let ghost old_fs = fs@;
                fs[i].requests.insert(at, cur);
                proof {
                    let fm = mm[i as int];
                    let f2 = FolderModel { requests: fm.requests.insert(drop_pos(p as int, before), rq), ..fm };
                    assert(folder_model(fs@[i as int]) == f2);
                    assert(fs@ == old_fs.update(i as int, fs@[i as int]));
                    lemma_forest_model_update(old_fs, i as int, fs@[i as int]);
                    assert(insert_rel_in(fm, t@, rq, before) == Some(f2));
                    assert(insert_rel_in_forest(mm.take(i + 1), t@, rq, before) == Some(mm.take(i as int).push(f2)));
                    lemma_insert_rel_forest_prefix(mm, t@, rq, before, i + 1);
                    assert(mm.take(i as int).push(f2) + mm.skip(i + 1) =~= mm.update(i as int, f2));
                }
                return None;
            },
            None => {},
        }
        proof {
            assert(decreases_to!(mm => mm[i as int]));
            assert(decreases_to!(mm[i as int] => mm[i as int].folders));
            assert(mm[i as int].folders == forest_model(fs@[i as int].folders@));
        }
        let ghost old_fs = fs@;
        let res = insert_request_into(&mut fs[i].folders, t, cur, before);
        match res {
            None => {
                proof {
                    let fm = mm[i as int];
                    let m2 = insert_rel_in_forest(fm.folders, t@, rq, before).unwrap();
                    let f2 = FolderModel { folders: m2, ..fm };
                    assert(folder_model(fs@[i as int]) == f2);
                    assert(fs@ == old_fs.update(i as int, fs@[i as int]));
                    lemma_forest_model_update(old_fs, i as int, fs@[i as int]);
                    assert(insert_rel_in(fm, t@, rq, before) == Some(f2));
                    lemma_insert_rel_forest_prefix(mm, t@, rq, before, i + 1);
                    assert(mm.take(i as int).push(f2) + mm.skip(i + 1) =~= mm.update(i as int, f2));
                }
                return None;
            },
            Some(back) => {
                cur = back;
                proof {
                    let fm = mm[i as int];
                    assert(folder_model(fs@[i as int]) == fm);
                    assert(fs@ == old_fs.update(i as int, fs@[i as int]));
                    lemma_forest_model_update(old_fs, i as int, fs@[i as int]);
                    assert(mm.update(i as int, fm) =~= mm);
                    assert(insert_rel_in(fm, t@, rq, before) is None);
                    assert(insert_rel_in_forest(mm.take(i + 1), t@, rq, before) is None);
                }
            },
        }
        i = i + 1;
    }
    proof {
        assert(mm.take(mm.len() as int) == mm);
    }
    Some(cur)
}


/// Removal of a folder by id from a list: a folder of the list itself first
/// (the first with that id), otherwise from the children of each folder in
/// order. Gives the updated list and the removed folder.
pub open spec fn take_folder_in_forest(fs: Seq<FolderModel>, id: Seq<char>) -> Option<(Seq<FolderModel>, FolderModel)>
    decreases fs, 1int,
{
    match first_folder(fs, id) {
        Some(k) => Some((fs.remove(k), fs[k])),
        None => take_folder_in_children(fs, id),
    }
}

/// The descent step of [`take_folder_in_forest`]: the first folder of the list
/// whose children yield the folder.
pub open spec fn take_folder_in_children(fs: Seq<FolderModel>, id: Seq<char>) -> Option<(Seq<FolderModel>, FolderModel)>
    decreases fs, 0int,
{
    if fs.len() == 0 {
        None
    } else {
        match take_folder_in_children(fs.drop_last(), id) {
            Some((fs2, x)) => Some((fs2.push(fs.last()), x)),
            None => match take_folder_in_forest(fs.last().folders, id) {
                Some((c2, x)) => Some((fs.drop_last().push(FolderModel { folders: c2, ..fs.last() }), x)),
                None => None,
            },
        }
    }
}

proof fn lemma_take_folder_children_prefix(ms: Seq<FolderModel>, id: Seq<char>, n: int)
    requires
        0 <= n <= ms.len(),
        take_folder_in_children(ms.take(n), id) is Some,
    ensures
        take_folder_in_children(ms, id) matches Some((fs2, x)) && take_folder_in_children(ms.take(n), id) matches Some((p2, x2))
            && x == x2 && fs2 == p2 + ms.skip(n),
    decreases ms.len() - n,
{
    if n < ms.len() {
        assert(ms.take(n + 1).drop_last() == ms.take(n));
        assert(ms.take(n + 1).last() == ms[n]);
        lemma_take_folder_children_prefix(ms, id, n + 1);
        let (p2, _) = take_folder_in_children(ms.take(n), id).unwrap();
        assert(p2.push(ms[n]) + ms.skip(n + 1) =~= p2 + ms.skip(n));
    } else {
        assert(ms.take(n) == ms);
        let (p2, _) = take_folder_in_children(ms, id).unwrap();
        assert(p2 + ms.skip(n) =~= p2);
    }
}

fn take_folder(fs: &mut Vec<Folder>, id: &str) -> (r: Option<Folder>)
    ensures
        match take_folder_in_forest(forest_model(old(fs)@), id@) {
            Some((m, x)) => r matches Some(f) && f@ == x && forest_model(final(fs)@) == m,
            None => r is None && forest_model(final(fs)@) == forest_model(old(fs)@),
        },
    decreases forest_model(old(fs)@), 1int,
{
    let ghost mm = forest_model(fs@);
    proof {
        lemma_forest_model(fs@);
    }
    match first_folder_exec(fs, id) {
        Some(k) => {
            let ghost before = fs@;
            let f = fs.remove(k);
            proof {
                lemma_forest_model(fs@);
                assert(forest_model(fs@) =~= mm.remove(k as int));
            }
            return Some(f);
        },
        None => {},
    }
    take_folder_from_children(fs, id)
}

fn take_folder_from_children(fs: &mut Vec<Folder>, id: &str) -> (r: Option<Folder>)
    ensures
        match take_folder_in_children(forest_model(old(fs)@), id@) {
            Some((m, x)) => r matches Some(f) && f@ == x && forest_model(final(fs)@) == m,
            None => r is None && forest_model(final(fs)@) == forest_model(old(fs)@),
        },
    decreases forest_model(old(fs)@), 0int,
{
    let ghost mm = forest_model(fs@);
    proof {
        lemma_forest_model(fs@);
    }
    let mut i: usize = 0;
    while i < fs.len()
        invariant
            forest_model(fs@) == mm,
            mm == forest_model(old(fs)@),
            mm.len() == fs@.len(),
            i <= fs@.len(),
            take_folder_in_children(mm.take(i as int), id@) is None,
        decreases fs.len() - i,
    {
        proof {
            lemma_forest_model(fs@);
            assert(mm[i as int] == folder_model(fs@[i as int]));
            assert(mm.take(i + 1).drop_last() == mm.take(i as int));
            assert(mm.take(i + 1).last() == mm[i as int]);
            assert(decreases_to!(mm => mm[i as int]));
            assert(decreases_to!(mm[i as int] => mm[i as int].folders));
            assert(mm[i as int].folders == forest_model(fs@[i as int].folders@));
        }
        let ghost before = fs@;
        let res = take_folder(&mut fs[i].folders, id);
        match res {
            Some(x) => {
                proof {
                    let fm = mm[i as int];
                    let (c2, _) = take_folder_in_forest(fm.folders, id@).unwrap();
                    let f2 = FolderModel { folders: c2, ..fm };
                    assert(folder_model(fs@[i as int]) == f2);
                    assert(fs@ == before.update(i as int, fs@[i as int]));
                    lemma_forest_model_update(before, i as int, fs@[i as int]);
                    assert(take_folder_in_children(mm.take(i + 1), id@) == Some((mm.take(i as int).push(f2), x@)));
                    lemma_take_folder_children_prefix(mm, id@, i + 1);
                    assert(mm.take(i as int).push(f2) + mm.skip(i + 1) =~= mm.update(i as int, f2));
                }
                return Some(x);
            },
            None => {
                proof {
                    let fm = mm[i as int];
                    assert(folder_model(fs@[i as int]) == fm);
                    assert(fs@ == before.update(i as int, fs@[i as int]));
                    lemma_forest_model_update(before, i as int, fs@[i as int]);
                    assert(mm.update(i as int, fm) =~= mm);
                    assert(take_folder_in_children(mm.take(i + 1), id@) is None);
                }
            },
        }
        i = i + 1;
    }
    proof {
        assert(mm.take(mm.len() as int) == mm);
    }
    None
}


/// The id of a folder followed by the ids of all its descendants (pre-order).
pub open spec fn subtree_ids(f: FolderModel) -> Seq<Seq<char>>
    decreases f,
{
    seq![f.id] + forest_ids(f.folders)
}

/// [`subtree_ids`] of a list of folders, in order.
pub open spec fn forest_ids(fs: Seq<FolderModel>) -> Seq<Seq<char>>
    decreases fs,
{
    if fs.len() == 0 {
        Seq::empty()
    } else {
        forest_ids(fs.drop_last()) + subtree_ids(fs.last())
    }
}

fn collect_subtree_ids(f: &Folder, out: &mut Vec<String>)
    ensures
        string_views(final(out)@) == string_views(old(out)@) + subtree_ids(f@),
    decreases f,
{
    let ghost start = string_views(out@);
    out.push(f.id.clone());
    proof {
        assert(string_views(out@) =~= start + seq![f.id@]);
    }
    let mut i: usize = 0;
    while i < f.folders.len()
        invariant
            i <= f.folders@.len(),
            string_views(out@) == start + seq![f.id@] + forest_ids(forest_model(f.folders@.take(i as int))),
        decreases f.folders.len() - i,
    {
        proof {
            assert(decreases_to!(f => f.folders));
            assert(decreases_to!(f.folders => f.folders@));
            assert(decreases_to!(f.folders@ => f.folders@[i as int]));
            let fs = f.folders@;
            assert(fs.take(i + 1).drop_last() == fs.take(i as int));
            let ms = forest_model(fs.take(i + 1));
            assert(ms == forest_model(fs.take(i as int)).push(folder_model(fs[i as int])));
            assert(ms.drop_last() =~= forest_model(fs.take(i as int)));
        }
        collect_subtree_ids(&f.folders[i], out);
        i = i + 1;
    }
    proof {
        assert(f.folders@.take(f.folders@.len() as int) == f.folders@);
    }
}

/// Where a dragged node should be dropped.
#[derive(Debug)]
pub enum MoveTarget {
    /// Move to the project root (top level).
    ToRoot,
    /// Drop into a folder (appended to that folder's children).
    IntoFolder(String),
    /// Reorder immediately before this request.
    BeforeRequest(String),
    /// Reorder immediately after this request.
    AfterRequest(String),
}

/// Removal of the first request with id `id` from a project tree: the
/// top-level requests are searched first, then the folders.
pub open spec fn spec_take_request(reqs: Seq<ApiRequest>, fs: Seq<FolderModel>, id: Seq<char>)
    -> Option<(Seq<ApiRequest>, Seq<FolderModel>, ApiRequest)>
{
    match first_request(reqs, id) {
        Some(k) => Some((reqs.remove(k), fs, reqs[k])),
        None => match take_req_in_forest(fs, id) {
            Some((fs2, r)) => Some((reqs, fs2, r)),
            None => None,
        },
    }
}

/// Dropping `req` next to the request with id `t` (top level first, then the
/// folders); when `t` is nowhere, the request lands at the end of the top
/// level and the drop is reported as failed.
pub open spec fn place_relative(reqs: Seq<ApiRequest>, fs: Seq<FolderModel>, req: ApiRequest, t: Seq<char>, before: bool)
    -> (Seq<ApiRequest>, Seq<FolderModel>, bool)
{
    match first_request(reqs, t) {
        Some(p) => (reqs.insert(drop_pos(p, before), req), fs, true),
        None => match insert_rel_in_forest(fs, t, req, before) {
            Some(fs2) => (reqs, fs2, true),
            None => (reqs.push(req), fs, false),
        },
    }
}

/// Dropping a detached request at `dest`. A missing target folder or request
/// puts it at the end of the top level instead (nothing is lost) and reports
/// failure.
pub open spec fn place_request(reqs: Seq<ApiRequest>, fs: Seq<FolderModel>, req: ApiRequest, dest: MoveTarget)
    -> (Seq<ApiRequest>, Seq<FolderModel>, bool)
{
    match dest {
        MoveTarget::ToRoot => (reqs.push(req), fs, true),
        MoveTarget::IntoFolder(fid) => match push_req_in_forest(fs, fid@, req) {
            Some(fs2) => (reqs, fs2, true),
            None => (reqs.push(req), fs, false),
        },
        MoveTarget::BeforeRequest(t) => place_relative(reqs, fs, req, t@, true),
        MoveTarget::AfterRequest(t) => place_relative(reqs, fs, req, t@, false),
    }
}

/// Whether `dest` asks to drop a node next to the request `id` itself.
pub open spec fn drops_onto(dest: MoveTarget, id: Seq<char>) -> bool {
    match dest {
        MoveTarget::BeforeRequest(t) => t@ == id,
        MoveTarget::AfterRequest(t) => t@ == id,
        _ => false,
    }
}

/// Whether the folder or request that `dest` names exists (the top level
/// always does).
pub open spec fn target_exists(reqs: Seq<ApiRequest>, fs: Seq<FolderModel>, dest: MoveTarget) -> bool {
    match dest {
        MoveTarget::ToRoot => true,
        MoveTarget::IntoFolder(f) => find_folder_in_forest(fs, f@) is Some,
        MoveTarget::BeforeRequest(t) => first_request(reqs, t@) is Some || find_request_in_forest(fs, t@) is Some,
        MoveTarget::AfterRequest(t) => first_request(reqs, t@) is Some || find_request_in_forest(fs, t@) is Some,
    }
}

/// [`Project::move_request`] on the model: top-level requests, folder
/// subtrees, and whether the move succeeded. Dropping a request onto itself,
/// an unknown request, or a destination that does not exist changes nothing.
pub open spec fn spec_move_request(reqs: Seq<ApiRequest>, fs: Seq<FolderModel>, req_id: Seq<char>, dest: MoveTarget)
    -> (Seq<ApiRequest>, Seq<FolderModel>, bool)
{
    if drops_onto(dest, req_id) || !target_exists(reqs, fs, dest) {
        (reqs, fs, false)
    } else {
        match spec_take_request(reqs, fs, req_id) {
            None => (reqs, fs, false),
            Some((r2, f2, q)) => place_request(r2, f2, q, dest),
        }
    }
}

/// The ids a folder may not be dropped into: itself and its descendants
/// (empty when the folder is unknown).
pub open spec fn blocked_ids(fs: Seq<FolderModel>, folder_id: Seq<char>) -> Seq<Seq<char>> {
    match find_folder_in_forest(fs, folder_id) {
        Some((_, f)) => subtree_ids(f),
        None => Seq::empty(),
    }
}

/// [`Project::move_folder`] on the model: the folder subtrees and whether
/// the move succeeded. A drop next to a request, or into the folder itself
/// or one of its descendants, changes nothing.
pub open spec fn spec_move_folder(fs: Seq<FolderModel>, folder_id: Seq<char>, dest: MoveTarget) -> (Seq<FolderModel>, bool) {
    if dest is BeforeRequest || dest is AfterRequest {
        (fs, false)
    } else if dest matches MoveTarget::IntoFolder(t) && blocked_ids(fs, folder_id).contains(t@) {
        (fs, false)
    } else {
        match take_folder_in_forest(fs, folder_id) {
            None => (fs, false),
            Some((fs2, x)) => match dest {
                MoveTarget::IntoFolder(t) => match push_folder_in_forest(fs2, t@, x) {
                    Some(fs3) => (fs3, true),
                    None => (fs2.push(x), false),
                },
                MoveTarget::ToRoot => (fs2.push(x), true),
                _ => (fs2, false),
            },
        }
    }
}

/// Every field of a project except the request tree is equal.
pub open spec fn same_besides_tree(a: Project, b: Project) -> bool {
    &&& a.id == b.id
    &&& a.name == b.name
    &&& a.description == b.description
    &&& a.environments == b.environments
    &&& a.active_environment == b.active_environment
    &&& a.global_variables == b.global_variables
    &&& a.global_params == b.global_params
    &&& a.global_headers == b.global_headers
    &&& a.global_cookies == b.global_cookies
    &&& a.merge_requests == b.merge_requests
    &&& a.status_codes == b.status_codes
    &&& a.api_tokens == b.api_tokens
    &&& a.archived == b.archived
}

impl Project {
    fn take_request(&mut self, id: &str) -> (r: Option<ApiRequest>)
        ensures
            same_besides_tree(*old(self), *final(self)),
            match spec_take_request(old(self).requests@, old(self).folder_models(), id@) {
                Some((r2, f2, q)) => r == Some(q) && final(self).requests@ == r2 && final(self).folder_models() == f2,
                None => r is None && final(self).requests@ == old(self).requests@
                    && final(self).folder_models() == old(self).folder_models(),
            },
    {
        match first_request_exec(&self.requests, id) {
            Some(k) => Some(self.requests.remove(k)),
            None => take_request_from_folders(&mut self.folders, id),
        }
    }

    /// Move a request to a new location. Dropping a request next to itself,
    /// an unknown request, or a target folder/request that does not exist
    /// changes nothing and gives `false`.
    pub fn move_request(&mut self, req_id: &str, dest: &MoveTarget) -> (r: bool)
        ensures
            same_besides_tree(*old(self), *final(self)),
            (final(self).requests@, final(self).folder_models(), r)
                == spec_move_request(old(self).requests@, old(self).folder_models(), req_id@, *dest),
    {
        match dest {
            MoveTarget::BeforeRequest(t) => {
                if str_eq(t.as_str(), req_id) {
                    return false;
                }
            },
            MoveTarget::AfterRequest(t) => {
                if str_eq(t.as_str(), req_id) {
                    return false;
                }
            },
            _ => {},
        }
        let exists = match dest {
            MoveTarget::ToRoot => true,
            MoveTarget::IntoFolder(fid) => self.find_folder(fid.as_str()).is_some(),
            MoveTarget::BeforeRequest(t) => self.find_request(t.as_str()).is_some(),
            MoveTarget::AfterRequest(t) => self.find_request(t.as_str()).is_some(),
        };
        if !exists {
            return false;
        }
        let req = match self.take_request(req_id) {
            Some(r) => r,
            None => return false,
        };
        match dest {
            MoveTarget::ToRoot => {
                self.requests.push(req);
                true
            },
            MoveTarget::IntoFolder(fid) => {
                match push_request_into(&mut self.folders, fid.as_str(), req) {
                    None => true,
                    Some(back) => {
                        self.requests.push(back);
                        false
                    },
                }
            },
            MoveTarget::BeforeRequest(t) => self.insert_relative(req, t.as_str(), true),
            MoveTarget::AfterRequest(t) => self.insert_relative(req, t.as_str(), false),
        }
    }

    fn insert_relative(&mut self, req: ApiRequest, t: &str, before: bool) -> (r: bool)
        ensures
            same_besides_tree(*old(self), *final(self)),
            (final(self).requests@, final(self).folder_models(), r)
                == place_relative(old(self).requests@, old(self).folder_models(), req, t@, before),
    {
        match first_request_exec(&self.requests, t) {
            Some(p) => {
                let n = self.requests.len();
                assert(p < n);
                let at = if before { p } else { p + 1 };
                self.requests.insert(at, req);
                true
            },
            None => {
                match insert_request_into(&mut self.folders, t, req, before) {
                    None => true,
                    Some(back) => {
                        self.requests.push(back);
                        false
                    },
                }
            },
        }
    }

    /// The id of the folder and of every folder below it (empty when unknown).
    fn folder_subtree_ids(&self, folder_id: &str) -> (r: Vec<String>)
        ensures
            string_views(r@) == blocked_ids(self.folder_models(), folder_id@),
    {
        let mut out: Vec<String> = Vec::new();
        assert(string_views(out@) =~= Seq::<Seq<char>>::empty());
        match self.find_folder(folder_id) {
            Some((_, f)) => {
                collect_subtree_ids(f, &mut out);
                assert(string_views(out@) =~= subtree_ids(f@));
            },
            None => {},
        }
        out
    }

    /// Move a folder to a new location. Dropping a folder into itself or one
    /// of its descendants is refused (`false`, nothing changes), and so is
    /// dropping it before/after a request, which is not meaningful. A missing
    /// target folder puts the folder back at the top level and gives `false`.
    pub fn move_folder(&mut self, folder_id: &str, dest: &MoveTarget) -> (r: bool)
        ensures
            same_besides_tree(*old(self), *final(self)),
            final(self).requests@ == old(self).requests@,
            (final(self).folder_models(), r) == spec_move_folder(old(self).folder_models(), folder_id@, *dest),
    {
        match dest {
            MoveTarget::BeforeRequest(_) => {
                return false;
            },
            MoveTarget::AfterRequest(_) => {
                return false;
            },
            _ => {},
        }
        let subtree = self.folder_subtree_ids(folder_id);
        match dest {
            MoveTarget::IntoFolder(t) => {
                let mut i: usize = 0;
                while i < subtree.len()
                    invariant
                        i <= subtree@.len(),
                        *self == *old(self),
                        string_views(subtree@) == blocked_ids(old(self).folder_models(), folder_id@),
                        *dest == MoveTarget::IntoFolder(*t),
                        forall|j: int| 0 <= j < i ==> subtree@[j]@ != t@,
                    decreases subtree.len() - i,
                {
                    if subtree[i] == *t {
                        proof {
                            assert(string_views(subtree@)[i as int] == t@);
                        }
                        return false;
                    }
                    i = i + 1;
                }
                proof {
                    let v = string_views(subtree@);
                    if v.contains(t@) {
                        let k = choose|k: int| 0 <= k < v.len() && v[k] == t@;
                        assert(subtree@[k]@ == t@);
                    }
                }
            },
            _ => {},
        }
        let folder = match take_folder(&mut self.folders, folder_id) {
            Some(f) => f,
            None => return false,
        };
        match dest {
            MoveTarget::IntoFolder(t) => {
                match push_folder_into(&mut self.folders, t.as_str(), folder) {
                    None => true,
                    Some(back) => {
                        let ghost before = self.folders@;
                        self.folders.push(back);
                        proof {
                            assert(self.folders@.drop_last() =~= before);
                        }
                        false
                    },
                }
            },
            MoveTarget::ToRoot => {
                let ghost before = self.folders@;
                self.folders.push(folder);
                proof {
                    assert(self.folders@.drop_last() =~= before);
                }
                true
            },
            _ => false,
        }
    }
}


// ---------------------------------------------------------------------------
// Laws of the tree operations.
// ---------------------------------------------------------------------------

pub(crate) proof fn lemma_first_request_bound(s: Seq<ApiRequest>, id: Seq<char>)
    ensures
        first_request(s, id) matches Some(k) ==> 0 <= k < s.len() && s[k].id@ == id,
        first_request(s, id) is None ==> forall|j: int| 0 <= j < s.len() ==> s[j].id@ != id,
    decreases s.len(),
{
    if s.len() > 0 {
        lemma_first_request_bound(s.drop_last(), id);
        assert forall|j: int| 0 <= j < s.len() - 1 implies s.drop_last()[j] == s[j] by {}
    }
}

/// Removing an element that is present and putting it back gives the same
/// multiset.
proof fn lemma_remove_insert<A>(m: Multiset<A>, a: A)
    requires
        m.count(a) > 0,
    ensures
        m.remove(a).insert(a) == m,
{
    broadcast use vstd::multiset::group_multiset_axioms;
    assert(m.remove(a).insert(a) =~= m);
}

proof fn lemma_ms_append_insert<A>(x: Seq<A>, y: Seq<A>, xr: Multiset<A>, a: A)
    requires
        x.to_multiset() == xr.insert(a),
    ensures
        (x + y).to_multiset() == xr.add(y.to_multiset()).insert(a),
{
    broadcast use vstd::multiset::group_multiset_axioms;
    vstd::seq_lib::lemma_multiset_commutative(x, y);
    assert(xr.insert(a).add(y.to_multiset()) =~= xr.add(y.to_multiset()).insert(a));
}

proof fn lemma_ms_append_add<A>(x: Seq<A>, y: Seq<A>, xr: Multiset<A>, extra: Multiset<A>)
    requires
        x.to_multiset() == xr.add(extra),
    ensures
        (x + y).to_multiset() == xr.add(y.to_multiset()).add(extra),
{
    broadcast use vstd::multiset::group_multiset_axioms;
    vstd::seq_lib::lemma_multiset_commutative(x, y);
    assert(xr.add(extra).add(y.to_multiset()) =~= xr.add(y.to_multiset()).add(extra));
}

/// Unfolding [`forest_requests`] on a list whose last folder was replaced.
proof fn lemma_forest_requests_push(fs: Seq<FolderModel>, f: FolderModel)
    ensures
        forest_requests(fs.push(f)) == forest_requests(fs) + subtree_requests(f),
{
    assert(fs.push(f).drop_last() =~= fs);
}

/// Taking a request out of a subtree removes exactly that request.
proof fn lemma_take_req_in_ms(f: FolderModel, id: Seq<char>)
    ensures
        take_req_in(f, id) matches Some((f2, r)) ==> subtree_requests(f).to_multiset()
            == subtree_requests(f2).to_multiset().insert(r),
    decreases f,
{
    broadcast use vstd::seq_lib::group_to_multiset_ensures, vstd::multiset::group_multiset_axioms;
    lemma_first_request_bound(f.requests, id);
    match first_request(f.requests, id) {
        Some(k) => {
            let rest = f.requests.remove(k);
            assert(rest.to_multiset() == f.requests.to_multiset().remove(f.requests[k]));
            assert(f.requests.contains(f.requests[k]));
            lemma_remove_insert(f.requests.to_multiset(), f.requests[k]);
            lemma_ms_append_insert(f.requests, forest_requests(f.folders), rest.to_multiset(), f.requests[k]);
            vstd::seq_lib::lemma_multiset_commutative(rest, forest_requests(f.folders));
        },
        None => {
            lemma_take_req_in_forest_ms(f.folders, id);
            match take_req_in_forest(f.folders, id) {
                Some((fs2, r)) => {
                    lemma_ms_append_insert(forest_requests(f.folders), f.requests, forest_requests(fs2).to_multiset(), r);
                    vstd::seq_lib::lemma_seq_union_to_multiset_commutative(f.requests, forest_requests(f.folders));
                    vstd::seq_lib::lemma_seq_union_to_multiset_commutative(f.requests, forest_requests(fs2));
                    vstd::seq_lib::lemma_multiset_commutative(forest_requests(fs2), f.requests);
                },
                None => {},
            }
        },
    }
}

/// Taking a request out of a list of subtrees removes exactly that request.
proof fn lemma_take_req_in_forest_ms(fs: Seq<FolderModel>, id: Seq<char>)
    ensures
        take_req_in_forest(fs, id) matches Some((fs2, r)) ==> forest_requests(fs).to_multiset()
            == forest_requests(fs2).to_multiset().insert(r),
    decreases fs,
{
    broadcast use vstd::seq_lib::group_to_multiset_ensures, vstd::multiset::group_multiset_axioms;
    if fs.len() > 0 {
        let dl = fs.drop_last();
        let last = fs.last();
        lemma_take_req_in_forest_ms(dl, id);
        match take_req_in_forest(dl, id) {
            Some((fs2, r)) => {
                lemma_forest_requests_push(fs2, last);
                lemma_ms_append_insert(forest_requests(dl), subtree_requests(last), forest_requests(fs2).to_multiset(), r);
                vstd::seq_lib::lemma_multiset_commutative(forest_requests(fs2), subtree_requests(last));
            },
            None => {
                lemma_take_req_in_ms(last, id);
                match take_req_in(last, id) {
                    Some((f2, r)) => {
                        lemma_forest_requests_push(dl, f2);
                        vstd::seq_lib::lemma_multiset_commutative(forest_requests(dl), subtree_requests(last));
                        vstd::seq_lib::lemma_multiset_commutative(forest_requests(dl), subtree_requests(f2));
                        assert(forest_requests(dl).to_multiset().add(subtree_requests(f2).to_multiset().insert(r))
                            =~= forest_requests(dl).to_multiset().add(subtree_requests(f2).to_multiset()).insert(r));
                    },
                    None => {},
                }
            },
        }
    }
}


/// Pushing a request into a folder of a subtree adds exactly that request.
proof fn lemma_push_req_in_ms(f: FolderModel, fid: Seq<char>, req: ApiRequest)
    ensures
        push_req_in(f, fid, req) matches Some(f2) ==> subtree_requests(f2).to_multiset()
            == subtree_requests(f).to_multiset().insert(req),
    decreases f,
{
    broadcast use vstd::seq_lib::group_to_multiset_ensures, vstd::multiset::group_multiset_axioms;
    if f.id == fid {
        lemma_ms_append_insert(f.requests.push(req), forest_requests(f.folders), f.requests.to_multiset(), req);
        vstd::seq_lib::lemma_multiset_commutative(f.requests, forest_requests(f.folders));
    } else {
        lemma_push_req_in_forest_ms(f.folders, fid, req);
        match push_req_in_forest(f.folders, fid, req) {
            Some(fs2) => {
                vstd::seq_lib::lemma_seq_union_to_multiset_commutative(f.requests, forest_requests(f.folders));
                vstd::seq_lib::lemma_seq_union_to_multiset_commutative(f.requests, forest_requests(fs2));
                lemma_ms_append_insert(forest_requests(fs2), f.requests, forest_requests(f.folders).to_multiset(), req);
                vstd::seq_lib::lemma_multiset_commutative(forest_requests(f.folders), f.requests);
            },
            None => {},
        }
    }
}

/// Pushing a request into a folder of a list of subtrees adds exactly that
/// request.
proof fn lemma_push_req_in_forest_ms(fs: Seq<FolderModel>, fid: Seq<char>, req: ApiRequest)
    ensures
        push_req_in_forest(fs, fid, req) matches Some(fs2) ==> forest_requests(fs2).to_multiset()
            == forest_requests(fs).to_multiset().insert(req),
    decreases fs,
{
    broadcast use vstd::seq_lib::group_to_multiset_ensures, vstd::multiset::group_multiset_axioms;
    if fs.len() > 0 {
        let dl = fs.drop_last();
        let last = fs.last();
        lemma_push_req_in_forest_ms(dl, fid, req);
        match push_req_in_forest(dl, fid, req) {
            Some(fs2) => {
                lemma_forest_requests_push(fs2, last);
                lemma_ms_append_insert(forest_requests(fs2), subtree_requests(last), forest_requests(dl).to_multiset(), req);
                vstd::seq_lib::lemma_multiset_commutative(forest_requests(dl), subtree_requests(last));
            },
            None => {
                lemma_push_req_in_ms(last, fid, req);
                match push_req_in(last, fid, req) {
                    Some(f2) => {
                        lemma_forest_requests_push(dl, f2);
                        vstd::seq_lib::lemma_multiset_commutative(forest_requests(dl), subtree_requests(last));
                        vstd::seq_lib::lemma_multiset_commutative(forest_requests(dl), subtree_requests(f2));
                        assert(forest_requests(dl).to_multiset().add(subtree_requests(last).to_multiset().insert(req))
                            =~= forest_requests(dl).to_multiset().add(subtree_requests(last).to_multiset()).insert(req));
                    },
                    None => {},
                }
            },
        }
    }
}

/// Inserting a request next to another in a subtree adds exactly that
/// request.
proof fn lemma_insert_rel_in_ms(f: FolderModel, t: Seq<char>, req: ApiRequest, before: bool)
    ensures
        insert_rel_in(f, t, req, before) matches Some(f2) ==> subtree_requests(f2).to_multiset()
            == subtree_requests(f).to_multiset().insert(req),
    decreases f,
{
    broadcast use vstd::seq_lib::group_to_multiset_ensures, vstd::multiset::group_multiset_axioms;
    lemma_first_request_bound(f.requests, t);
    match first_request(f.requests, t) {
        Some(p) => {
            let ins = f.requests.insert(drop_pos(p, before), req);
            assert(ins.to_multiset() == f.requests.to_multiset().insert(req));
            lemma_ms_append_insert(ins, forest_requests(f.folders), f.requests.to_multiset(), req);
            vstd::seq_lib::lemma_multiset_commutative(f.requests, forest_requests(f.folders));
        },
        None => {
            lemma_insert_rel_in_forest_ms(f.folders, t, req, before);
            match insert_rel_in_forest(f.folders, t, req, before) {
                Some(fs2) => {
                    vstd::seq_lib::lemma_seq_union_to_multiset_commutative(f.requests, forest_requests(f.folders));
                    vstd::seq_lib::lemma_seq_union_to_multiset_commutative(f.requests, forest_requests(fs2));
                    lemma_ms_append_insert(forest_requests(fs2), f.requests, forest_requests(f.folders).to_multiset(), req);
                    vstd::seq_lib::lemma_multiset_commutative(forest_requests(f.folders), f.requests);
                },
                None => {},
            }
        },
    }
}

/// [`lemma_insert_rel_in_ms`] over a list of subtrees.
proof fn lemma_insert_rel_in_forest_ms(fs: Seq<FolderModel>, t: Seq<char>, req: ApiRequest, before: bool)
    ensures
        insert_rel_in_forest(fs, t, req, before) matches Some(fs2) ==> forest_requests(fs2).to_multiset()
            == forest_requests(fs).to_multiset().insert(req),
    decreases fs,
{
    broadcast use vstd::seq_lib::group_to_multiset_ensures, vstd::multiset::group_multiset_axioms;
    if fs.len() > 0 {
        let dl = fs.drop_last();
        let last = fs.last();
        lemma_insert_rel_in_forest_ms(dl, t, req, before);
        match insert_rel_in_forest(dl, t, req, before) {
            Some(fs2) => {
                lemma_forest_requests_push(fs2, last);
                lemma_ms_append_insert(forest_requests(fs2), subtree_requests(last), forest_requests(dl).to_multiset(), req);
                vstd::seq_lib::lemma_multiset_commutative(forest_requests(dl), subtree_requests(last));
            },
            None => {
                lemma_insert_rel_in_ms(last, t, req, before);
                match insert_rel_in(last, t, req, before) {
                    Some(f2) => {
                        lemma_forest_requests_push(dl, f2);
                        vstd::seq_lib::lemma_multiset_commutative(forest_requests(dl), subtree_requests(last));
                        vstd::seq_lib::lemma_multiset_commutative(forest_requests(dl), subtree_requests(f2));
                        assert(forest_requests(dl).to_multiset().add(subtree_requests(last).to_multiset().insert(req))
                            =~= forest_requests(dl).to_multiset().add(subtree_requests(last).to_multiset()).insert(req));
                    },
                    None => {},
                }
            },
        }
    }
}


pub(crate) proof fn lemma_first_folder_bound(s: Seq<FolderModel>, id: Seq<char>)
    ensures
        first_folder(s, id) matches Some(k) ==> 0 <= k < s.len() && s[k].id == id,
    decreases s.len(),
{
    if s.len() > 0 {
        lemma_first_folder_bound(s.drop_last(), id);
    }
}

/// Removing one subtree from a list removes exactly its requests.
proof fn lemma_forest_requests_remove(fs: Seq<FolderModel>, k: int)
    requires
        0 <= k < fs.len(),
    ensures
        forest_requests(fs).to_multiset() == forest_requests(fs.remove(k)).to_multiset().add(
            subtree_requests(fs[k]).to_multiset(),
        ),
    decreases fs.len(),
{
    broadcast use vstd::seq_lib::group_to_multiset_ensures, vstd::multiset::group_multiset_axioms;
    let dl = fs.drop_last();
    let last = fs.last();
    vstd::seq_lib::lemma_multiset_commutative(forest_requests(dl), subtree_requests(last));
    if k == fs.len() - 1 {
        assert(fs.remove(k) =~= dl);
    } else {
        lemma_forest_requests_remove(dl, k);
        assert(fs.remove(k) =~= dl.remove(k).push(last));
        lemma_forest_requests_push(dl.remove(k), last);
        vstd::seq_lib::lemma_multiset_commutative(forest_requests(dl.remove(k)), subtree_requests(last));
        assert(forest_requests(dl.remove(k)).to_multiset().add(subtree_requests(dl[k]).to_multiset()).add(
            subtree_requests(last).to_multiset(),
        ) =~= forest_requests(dl.remove(k)).to_multiset().add(subtree_requests(last).to_multiset()).add(
            subtree_requests(dl[k]).to_multiset(),
        ));
    }
}

/// Taking a folder out of a list removes exactly the requests of its subtree.
proof fn lemma_take_folder_forest_ms(fs: Seq<FolderModel>, id: Seq<char>)
    ensures
        take_folder_in_forest(fs, id) matches Some((fs2, x)) ==> forest_requests(fs).to_multiset()
            == forest_requests(fs2).to_multiset().add(subtree_requests(x).to_multiset()),
    decreases fs, 1int,
{
    lemma_first_folder_bound(fs, id);
    match first_folder(fs, id) {
        Some(k) => {
            lemma_forest_requests_remove(fs, k);
        },
        None => {
            lemma_take_folder_children_ms(fs, id);
        },
    }
}

/// [`lemma_take_folder_forest_ms`] for the descent step.
proof fn lemma_take_folder_children_ms(fs: Seq<FolderModel>, id: Seq<char>)
    ensures
        take_folder_in_children(fs, id) matches Some((fs2, x)) ==> forest_requests(fs).to_multiset()
            == forest_requests(fs2).to_multiset().add(subtree_requests(x).to_multiset()),
    decreases fs, 0int,
{
    broadcast use vstd::seq_lib::group_to_multiset_ensures, vstd::multiset::group_multiset_axioms;
    if fs.len() > 0 {
        let dl = fs.drop_last();
        let last = fs.last();
        lemma_take_folder_children_ms(dl, id);
        vstd::seq_lib::lemma_multiset_commutative(forest_requests(dl), subtree_requests(last));
        match take_folder_in_children(dl, id) {
            Some((fs2, x)) => {
                lemma_forest_requests_push(fs2, last);
                vstd::seq_lib::lemma_multiset_commutative(forest_requests(fs2), subtree_requests(last));
                assert(forest_requests(fs2).to_multiset().add(subtree_requests(x).to_multiset()).add(
                    subtree_requests(last).to_multiset(),
                ) =~= forest_requests(fs2).to_multiset().add(subtree_requests(last).to_multiset()).add(
                    subtree_requests(x).to_multiset(),
                ));
            },
            None => {
                lemma_take_folder_forest_ms(last.folders, id);
                match take_folder_in_forest(last.folders, id) {
                    Some((c2, x)) => {
                        let f2 = FolderModel { folders: c2, ..last };
                        lemma_forest_requests_push(dl, f2);
                        vstd::seq_lib::lemma_multiset_commutative(forest_requests(dl), subtree_requests(f2));
                        vstd::seq_lib::lemma_multiset_commutative(last.requests, forest_requests(last.folders));
                        vstd::seq_lib::lemma_multiset_commutative(last.requests, forest_requests(c2));
                        assert(forest_requests(dl).to_multiset().add(
                            last.requests.to_multiset().add(forest_requests(c2).to_multiset().add(subtree_requests(x).to_multiset())),
                        ) =~= forest_requests(dl).to_multiset().add(
                            last.requests.to_multiset().add(forest_requests(c2).to_multiset()),
                        ).add(subtree_requests(x).to_multiset()));
                    },
                    None => {},
                }
            },
        }
    }
}


/// Pushing a folder into a subtree adds exactly the requests of the pushed
/// folder's subtree.
proof fn lemma_push_folder_in_ms(f: FolderModel, fid: Seq<char>, x: FolderModel)
    ensures
        push_folder_in(f, fid, x) matches Some(f2) ==> subtree_requests(f2).to_multiset()
            == subtree_requests(f).to_multiset().add(subtree_requests(x).to_multiset()),
    decreases f,
{
    broadcast use vstd::seq_lib::group_to_multiset_ensures, vstd::multiset::group_multiset_axioms;
    if f.id == fid {
        lemma_forest_requests_push(f.folders, x);
        vstd::seq_lib::lemma_multiset_commutative(f.requests, forest_requests(f.folders.push(x)));
        vstd::seq_lib::lemma_multiset_commutative(f.requests, forest_requests(f.folders));
        vstd::seq_lib::lemma_multiset_commutative(forest_requests(f.folders), subtree_requests(x));
        assert(f.requests.to_multiset().add(forest_requests(f.folders).to_multiset().add(subtree_requests(x).to_multiset()))
            =~= f.requests.to_multiset().add(forest_requests(f.folders).to_multiset()).add(subtree_requests(x).to_multiset()));
    } else {
        lemma_push_folder_in_forest_ms(f.folders, fid, x);
        match push_folder_in_forest(f.folders, fid, x) {
            Some(fs2) => {
                vstd::seq_lib::lemma_multiset_commutative(f.requests, forest_requests(fs2));
                vstd::seq_lib::lemma_multiset_commutative(f.requests, forest_requests(f.folders));
                assert(f.requests.to_multiset().add(forest_requests(f.folders).to_multiset().add(subtree_requests(x).to_multiset()))
                    =~= f.requests.to_multiset().add(forest_requests(f.folders).to_multiset()).add(subtree_requests(x).to_multiset()));
            },
            None => {},
        }
    }
}

/// [`lemma_push_folder_in_ms`] over a list of subtrees.
proof fn lemma_push_folder_in_forest_ms(fs: Seq<FolderModel>, fid: Seq<char>, x: FolderModel)
    ensures
        push_folder_in_forest(fs, fid, x) matches Some(fs2) ==> forest_requests(fs2).to_multiset()
            == forest_requests(fs).to_multiset().add(subtree_requests(x).to_multiset()),
    decreases fs,
{
    broadcast use vstd::seq_lib::group_to_multiset_ensures, vstd::multiset::group_multiset_axioms;
    if fs.len() > 0 {
        let dl = fs.drop_last();
        let last = fs.last();
        lemma_push_folder_in_forest_ms(dl, fid, x);
        vstd::seq_lib::lemma_multiset_commutative(forest_requests(dl), subtree_requests(last));
        match push_folder_in_forest(dl, fid, x) {
            Some(fs2) => {
                lemma_forest_requests_push(fs2, last);
                vstd::seq_lib::lemma_multiset_commutative(forest_requests(fs2), subtree_requests(last));
                assert(forest_requests(dl).to_multiset().add(subtree_requests(x).to_multiset()).add(subtree_requests(last).to_multiset())
                    =~= forest_requests(dl).to_multiset().add(subtree_requests(last).to_multiset()).add(subtree_requests(x).to_multiset()));
            },
            None => {
                lemma_push_folder_in_ms(last, fid, x);
                match push_folder_in(last, fid, x) {
                    Some(f2) => {
                        lemma_forest_requests_push(dl, f2);
                        vstd::seq_lib::lemma_multiset_commutative(forest_requests(dl), subtree_requests(f2));
                        assert(forest_requests(dl).to_multiset().add(subtree_requests(last).to_multiset().add(subtree_requests(x).to_multiset()))
                            =~= forest_requests(dl).to_multiset().add(subtree_requests(last).to_multiset()).add(subtree_requests(x).to_multiset()));
                    },
                    None => {},
                }
            },
        }
    }
}

/// Dropping a detached request anywhere puts exactly that request back.
proof fn lemma_place_request_ms(reqs: Seq<ApiRequest>, fs: Seq<FolderModel>, req: ApiRequest, dest: MoveTarget)
    ensures
        ({
            let (r2, f2, _) = place_request(reqs, fs, req, dest);
            (r2 + forest_requests(f2)).to_multiset() == (reqs + forest_requests(fs)).to_multiset().insert(req)
        }),
{
    broadcast use vstd::seq_lib::group_to_multiset_ensures, vstd::multiset::group_multiset_axioms;
    vstd::seq_lib::lemma_multiset_commutative(reqs, forest_requests(fs));
    vstd::seq_lib::lemma_multiset_commutative(reqs.push(req), forest_requests(fs));
    lemma_first_request_bound(reqs, match dest {
        MoveTarget::BeforeRequest(t) => t@,
        MoveTarget::AfterRequest(t) => t@,
        _ => Seq::empty(),
    });
    let push_root = (reqs.push(req) + forest_requests(fs)).to_multiset();
    assert(push_root =~= (reqs + forest_requests(fs)).to_multiset().insert(req));
    match dest {
        MoveTarget::ToRoot => {},
        MoveTarget::IntoFolder(fid) => {
            lemma_push_req_in_forest_ms(fs, fid@, req);
            match push_req_in_forest(fs, fid@, req) {
                Some(fs2) => {
                    vstd::seq_lib::lemma_multiset_commutative(reqs, forest_requests(fs2));
                    assert(reqs.to_multiset().add(forest_requests(fs).to_multiset().insert(req))
                        =~= reqs.to_multiset().add(forest_requests(fs).to_multiset()).insert(req));
                },
                None => {},
            }
        },
        MoveTarget::BeforeRequest(t) => {
            lemma_place_relative_ms(reqs, fs, req, t@, true);
        },
        MoveTarget::AfterRequest(t) => {
            lemma_place_relative_ms(reqs, fs, req, t@, false);
        },
    }
}

proof fn lemma_place_relative_ms(reqs: Seq<ApiRequest>, fs: Seq<FolderModel>, req: ApiRequest, t: Seq<char>, before: bool)
    ensures
        ({
            let (r2, f2, _) = place_relative(reqs, fs, req, t, before);
            (r2 + forest_requests(f2)).to_multiset() == (reqs + forest_requests(fs)).to_multiset().insert(req)
        }),
{
    broadcast use vstd::seq_lib::group_to_multiset_ensures, vstd::multiset::group_multiset_axioms;
    vstd::seq_lib::lemma_multiset_commutative(reqs, forest_requests(fs));
    vstd::seq_lib::lemma_multiset_commutative(reqs.push(req), forest_requests(fs));
    lemma_first_request_bound(reqs, t);
    match first_request(reqs, t) {
        Some(p) => {
            let ins = reqs.insert(drop_pos(p, before), req);
            vstd::seq_lib::lemma_multiset_commutative(ins, forest_requests(fs));
            assert(ins.to_multiset() == reqs.to_multiset().insert(req));
            assert(reqs.to_multiset().insert(req).add(forest_requests(fs).to_multiset())
                =~= reqs.to_multiset().add(forest_requests(fs).to_multiset()).insert(req));
        },
        None => {
            lemma_insert_rel_in_forest_ms(fs, t, req, before);
            match insert_rel_in_forest(fs, t, req, before) {
                Some(fs2) => {
                    vstd::seq_lib::lemma_multiset_commutative(reqs, forest_requests(fs2));
                    assert(reqs.to_multiset().add(forest_requests(fs).to_multiset().insert(req))
                        =~= reqs.to_multiset().add(forest_requests(fs).to_multiset()).insert(req));
                },
                None => {
                    assert(reqs.to_multiset().insert(req).add(forest_requests(fs).to_multiset())
                        =~= reqs.to_multiset().add(forest_requests(fs).to_multiset()).insert(req));
                },
            }
        },
    }
}

/// Moving a request never loses or duplicates a request: whatever the move
/// does (including a refused move, or a drop target that does not exist),
/// the project holds the same requests afterwards.
pub proof fn law_move_request_keeps_requests(
    before: Project,
    after: Project,
    req_id: Seq<char>,
    dest: MoveTarget,
    ok: bool,
)
    requires
        (after.requests@, after.folder_models(), ok) == spec_move_request(
            before.requests@,
            before.folder_models(),
            req_id,
            dest,
        ),
    ensures
        after.all_requests().to_multiset() == before.all_requests().to_multiset(),
{
    broadcast use vstd::seq_lib::group_to_multiset_ensures, vstd::multiset::group_multiset_axioms;
    let reqs = before.requests@;
    let fs = before.folder_models();
    if !drops_onto(dest, req_id) {
        lemma_first_request_bound(reqs, req_id);
        match spec_take_request(reqs, fs, req_id) {
            None => {},
            Some((r2, f2, q)) => {
                lemma_place_request_ms(r2, f2, q, dest);
                vstd::seq_lib::lemma_multiset_commutative(reqs, forest_requests(fs));
                vstd::seq_lib::lemma_multiset_commutative(r2, forest_requests(f2));
                match first_request(reqs, req_id) {
                    Some(k) => {
                        assert(reqs.contains(reqs[k]));
                        lemma_remove_insert(reqs.to_multiset(), reqs[k]);
                        assert(reqs.to_multiset().remove(q).add(forest_requests(fs).to_multiset()).insert(q)
                            =~= reqs.to_multiset().remove(q).insert(q).add(forest_requests(fs).to_multiset()));
                    },
                    None => {
                        lemma_take_req_in_forest_ms(fs, req_id);
                        assert(reqs.to_multiset().add(forest_requests(f2).to_multiset()).insert(q)
                            =~= reqs.to_multiset().add(forest_requests(f2).to_multiset().insert(q)));
                    },
                }
            },
        }
    }
}

/// Moving a folder to the top level or into another folder never loses or
/// duplicates a request: the project holds the same requests afterwards,
/// also when the move is refused or the target folder does not exist.
pub proof fn law_move_folder_keeps_requests(
    before: Project,
    after: Project,
    folder_id: Seq<char>,
    dest: MoveTarget,
    ok: bool,
)
    requires
        dest is ToRoot || dest is IntoFolder,
        after.requests@ == before.requests@,
        (after.folder_models(), ok) == spec_move_folder(before.folder_models(), folder_id, dest),
    ensures
        after.all_requests().to_multiset() == before.all_requests().to_multiset(),
{
    broadcast use vstd::seq_lib::group_to_multiset_ensures, vstd::multiset::group_multiset_axioms;
    let fs = before.folder_models();
    let reqs = before.requests@;
    vstd::seq_lib::lemma_multiset_commutative(reqs, forest_requests(fs));
    vstd::seq_lib::lemma_multiset_commutative(reqs, forest_requests(after.folder_models()));
    lemma_take_folder_forest_ms(fs, folder_id);
    match take_folder_in_forest(fs, folder_id) {
        None => {},
        Some((fs2, x)) => {
            lemma_forest_requests_push(fs2, x);
            vstd::seq_lib::lemma_multiset_commutative(forest_requests(fs2), subtree_requests(x));
            match dest {
                MoveTarget::IntoFolder(t) => {
                    lemma_push_folder_in_forest_ms(fs2, t@, x);
                },
                _ => {},
            }
        },
    }
}

/// A folder is never dropped into itself or one of its descendants: such a
/// move is refused and leaves the tree unchanged.
pub proof fn law_move_folder_refuses_cycles(fs: Seq<FolderModel>, folder_id: Seq<char>, t: String)
    requires
        blocked_ids(fs, folder_id).contains(t@),
    ensures
        spec_move_folder(fs, folder_id, MoveTarget::IntoFolder(t)) == (fs, false),
{
}


proof fn lemma_find_request_in_sound(f: FolderModel, id: Seq<char>)
    ensures
        find_request_in(f, id) matches Some((_, r)) ==> r.id@ == id && subtree_requests(f).contains(r),
        find_request_in(f, id) is None ==> forall|j: int| 0 <= j < subtree_requests(f).len() ==> (#[trigger] subtree_requests(f)[j]).id@ != id,
    decreases f,
{
    lemma_first_request_bound(f.requests, id);
    lemma_find_request_in_forest_sound(f.folders, id);
    let a = f.requests;
    let b = forest_requests(f.folders);
    assert forall|j: int| 0 <= j < b.len() implies (a + b)[a.len() + j] == b[j] by {}
    match find_request_in(f, id) {
        Some((_, r)) => {
            match first_request(a, id) {
                Some(k) => {
                    assert((a + b)[k] == a[k]);
                },
                None => {
                    let j = choose|j: int| 0 <= j < b.len() && b[j] == r;
                    assert((a + b)[a.len() + j] == r);
                },
            }
        },
        None => {},
    }
}

proof fn lemma_find_request_in_forest_sound(fs: Seq<FolderModel>, id: Seq<char>)
    ensures
        find_request_in_forest(fs, id) matches Some((_, r)) ==> r.id@ == id && forest_requests(fs).contains(r),
        find_request_in_forest(fs, id) is None ==> forall|j: int| 0 <= j < forest_requests(fs).len() ==> (#[trigger] forest_requests(fs)[j]).id@ != id,
    decreases fs,
{
    if fs.len() > 0 {
        let dl = fs.drop_last();
        let last = fs.last();
        lemma_find_request_in_forest_sound(dl, id);
        lemma_find_request_in_sound(last, id);
        let a = forest_requests(dl);
        let b = subtree_requests(last);
        assert forall|j: int| 0 <= j < b.len() implies (a + b)[a.len() + j] == b[j] by {}
        match find_request_in_forest(fs, id) {
            Some((_, r)) => {
                match find_request_in_forest(dl, id) {
                    Some(_) => {
                        let j = choose|j: int| 0 <= j < a.len() && a[j] == r;
                        assert((a + b)[j] == r);
                    },
                    None => {
                        let j = choose|j: int| 0 <= j < b.len() && b[j] == r;
                        assert((a + b)[a.len() + j] == r);
                    },
                }
            },
            None => {},
        }
    }
}

/// Looking up a request by id finds a request with exactly that id whenever
/// the project holds one, and finds nothing otherwise.
pub proof fn law_find_request_is_exact(p: Project, id: Seq<char>)
    ensures
        p.spec_find_request(id) matches Some((_, r)) ==> r.id@ == id && p.all_requests().contains(r),
        p.spec_find_request(id) is None ==> forall|j: int| 0 <= j < p.all_requests().len()
            ==> (#[trigger] p.all_requests()[j]).id@ != id,
{
    let fs = p.folder_models();
    lemma_first_request_bound(p.requests@, id);
    lemma_find_request_in_forest_sound(fs, id);
    let a = p.requests@;
    let b = forest_requests(fs);
    assert forall|j: int| 0 <= j < b.len() implies (a + b)[a.len() + j] == b[j] by {}
    match p.spec_find_request(id) {
        Some((_, r)) => {
            match first_request(a, id) {
                Some(k) => {
                    assert((a + b)[k] == a[k]);
                },
                None => {
                    let j = choose|j: int| 0 <= j < b.len() && b[j] == r;
                    assert((a + b)[a.len() + j] == r);
                },
            }
        },
        None => {},
    }
}

proof fn lemma_take_find_agree(f: FolderModel, id: Seq<char>)
    ensures
        take_req_in(f, id) matches Some((_, r)) ==> find_request_in(f, id) matches Some((_, r2)) && r == r2,
        take_req_in(f, id) is None ==> find_request_in(f, id) is None,
    decreases f,
{
    lemma_take_find_agree_forest(f.folders, id);
}

proof fn lemma_take_find_agree_forest(fs: Seq<FolderModel>, id: Seq<char>)
    ensures
        take_req_in_forest(fs, id) matches Some((_, r)) ==> find_request_in_forest(fs, id) matches Some((_, r2)) && r == r2,
        take_req_in_forest(fs, id) is None ==> find_request_in_forest(fs, id) is None,
    decreases fs,
{
    if fs.len() > 0 {
        lemma_take_find_agree_forest(fs.drop_last(), id);
        lemma_take_find_agree(fs.last(), id);
    }
}

/// Moving a request to the top level succeeds whenever the request exists
/// (and is not dropped onto itself), and the request that lands last at the
/// top level is exactly the one a lookup by that id finds.
pub proof fn law_move_to_root_appends_found(p: Project, req_id: Seq<char>)
    requires
        p.spec_find_request(req_id) is Some,
    ensures
        ({
            let (r2, _, ok) = spec_move_request(p.requests@, p.folder_models(), req_id, MoveTarget::ToRoot);
            &&& ok
            &&& r2.len() > 0
            &&& p.spec_find_request(req_id) matches Some((_, q)) && r2.last() == q
        }),
{
    match first_request(p.requests@, req_id) {
        Some(_) => {},
        None => {
            lemma_take_find_agree_forest(p.folder_models(), req_id);
        },
    }
}

} // verus!
