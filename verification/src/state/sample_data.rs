//! The sample workspace shown on first launch instead of an empty one: a user
//! centre project with environments and an authentication folder.

use vstd::prelude::*;
use crate::state::enums::{AuthType, BodyType, RawLanguage, RequestMethod};
use crate::state::json::{json_object_text, render_json_object};
use crate::state::kv::KeyValue;
use crate::state::project::{Environment, Folder, Project};
use crate::state::request::{ApiRequest, MockRule, PathPattern};
use crate::state::workspace::WorkspaceData;

verus! {

/// Rows as key/value pairs.
pub open spec fn kv_pairs(s: Seq<KeyValue>) -> Seq<(Seq<char>, Seq<char>)> {
    s.map_values(|kv: KeyValue| (kv.key@, kv.value@))
}

/// A request as listed: name, method, URL, status label and tags.
pub open spec fn request_summary(r: ApiRequest) -> (Seq<char>, RequestMethod, Seq<char>, Seq<char>, Seq<Seq<char>>) {
    (r.name@, r.method, r.url@, r.status@, r.tags@.map_values(|t: String| t@))
}

pub open spec fn demo_login_body_pairs() -> Seq<(Seq<char>, Seq<char>)> {
    seq![("username"@, "{{username}}"@), ("password"@, "{{password}}"@)]
}

pub open spec fn demo_mock_body_pairs() -> Seq<(Seq<char>, Seq<char>)> {
    seq![
        ("code"@, "0"@),
        ("message"@, "ok"@),
        ("data"@, "{\"token\":\"mock-token-123456\",\"expires_in\":3600}"@),
    ]
}

/// The pretty JSON text of `pairs`, empty if it cannot be rendered.
pub open spec fn json_or_empty(pairs: Seq<(Seq<char>, Seq<char>)>) -> Seq<char> {
    match json_object_text(pairs) {
        Some(t) => t,
        None => Seq::empty(),
    }
}

pub open spec fn demo_tests_script() -> Seq<char> {
    "// Extract token from the JSON response and store it\n// in the `token` variable for subsequent requests.\nif (response.json && response.json.data) {\n  apt.setVariable('token', response.json.data.token);\n  apt.echo('saved token: ' + response.json.data.token);\n}\napt.assert(response.status === 200, 'status is 200');\napt.assert(response.json.code === 0, 'code is 0');\n"@
}

/// The requests of the authentication folder, as listed.
pub open spec fn demo_auth_requests() -> Seq<(Seq<char>, RequestMethod, Seq<char>, Seq<char>, Seq<Seq<char>>)> {
    seq![
        ("用户登录"@, RequestMethod::Post, "{{baseUrl}}/post"@, Seq::empty(), Seq::empty()),
        ("查询个人信息"@, RequestMethod::Get, "{{baseUrl}}/get"@, "已发布"@, seq!["用户"@, "只读"@]),
        ("退出登录"@, RequestMethod::Post, "{{baseUrl}}/auth/logout"@, "开发中"@, seq!["用户"@]),
        ("刷新令牌"@, RequestMethod::Post, "{{baseUrl}}/auth/refresh"@, "已发布"@, seq!["鉴权"@]),
        ("重置密码"@, RequestMethod::Post, "{{baseUrl}}/auth/reset"@, "废弃"@, Seq::empty()),
        ("发送验证码"@, RequestMethod::Post, "{{baseUrl}}/auth/code"@, "已发布"@, seq!["鉴权"@, "短信"@]),
        ("校验验证码"@, RequestMethod::Get, "{{baseUrl}}/auth/verify"@, "开发中"@, seq!["鉴权"@]),
    ]
}

/// The sample workspace.
pub open spec fn is_demo_workspace(w: WorkspaceData) -> bool {
    &&& w.projects@.len() == 1
    &&& w.history@.len() == 0
    &&& w.active_project_id is None
    &&& {
        let p = w.projects@[0];
        &&& p.name@ == "用户中心"@
        &&& p.description@ == "示例项目：演示前后端协作开发的认证模块。"@
        &&& p.environments@.len() == 3
        &&& p.environments@[0].name@ == "开发环境"@
        &&& kv_pairs(p.environments@[0].variables@) == seq![
            ("baseUrl"@, "https://httpbin.org"@),
            ("username"@, "demo"@),
            ("password"@, "p@ssw0rd"@),
        ]
        &&& p.environments@[1].name@ == "测试环境"@
        &&& kv_pairs(p.environments@[1].variables@) == seq![("baseUrl"@, "https://httpbin.org"@)]
        &&& p.environments@[2].name@ == "生产环境"@
        &&& p.environments@[2].variables@.len() == 0
        &&& p.active_environment matches Some(a) && a@ == p.environments@[0].id@
        &&& kv_pairs(p.global_variables@) == seq![("token"@, Seq::<char>::empty())]
        &&& p.folders@.len() == 1
        &&& p.requests@.map_values(|r: ApiRequest| request_summary(r)) == seq![
            ("用户列表"@, RequestMethod::Get, "{{baseUrl}}/get"@, Seq::<char>::empty(), Seq::<Seq<char>>::empty()),
            ("创建用户"@, RequestMethod::Post, "{{baseUrl}}/post"@, Seq::<char>::empty(), Seq::<Seq<char>>::empty()),
        ]
        &&& {
            let f = p.folders@[0];
            &&& f.name@ == "认证模块"@
            &&& f.description@ == "认证相关接口集合：登录、获取用户信息等。统一使用 Bearer 鉴权。"@
            &&& kv_pairs(f.params@) == seq![("version"@, "v2"@)]
            &&& kv_pairs(f.headers@) == seq![("X-Client"@, "verve"@)]
            &&& kv_pairs(f.variables@) == seq![("clientId"@, "verve-demo"@), ("tenant"@, "default"@)]
            &&& f.folders@.len() == 0
            &&& f.requests@.map_values(|r: ApiRequest| request_summary(r)) == demo_auth_requests()
            &&& {
                let login = f.requests@[0];
                &&& login.body.body_type == BodyType::Raw
                &&& login.body.raw_language == RawLanguage::Json
                &&& login.body.raw@ == json_or_empty(demo_login_body_pairs())
                &&& login.description@ == "用户登录接口。\n\n请求成功后将 `token` 写入全局变量 `token` 供后续接口使用。"@
                &&& login.tests_script@ == demo_tests_script()
                &&& login.mock matches Some(m) && {
                    &&& m.enabled
                    &&& m.status == 200
                    &&& kv_pairs(m.headers@) == seq![("Content-Type"@, "application/json"@)]
                    &&& m.body@ == json_or_empty(demo_mock_body_pairs())
                    &&& m.delay_ms == 0
                    &&& m.match_method is None
                    &&& m.match_path matches PathPattern::Exact(e) && e@.len() == 0
                    &&& m.match_query@.len() == 0
                    &&& m.match_headers@.len() == 0
                    &&& !m.enable_templates
                }
            }
            &&& {
                let info = f.requests@[1];
                &&& kv_pairs(info.headers@) == seq![("Authorization"@, "Bearer {{token}}"@)]
                &&& kv_pairs(info.params@) == seq![("detail"@, "1"@)]
                &&& kv_pairs(info.cookies@) == seq![("session"@, "abc123"@)]
                &&& kv_pairs(info.path@) == seq![("userId"@, "42"@)]
                &&& info.auth.auth_type == AuthType::Bearer
                &&& info.auth.token@ == "{{token}}"@
            }
        }
    }
}

fn rows2(a: (&str, &str), b: (&str, &str)) -> (r: Vec<KeyValue>)
    ensures
        kv_pairs(r@) == seq![(a.0@, a.1@), (b.0@, b.1@)],
{
    let mut v: Vec<KeyValue> = Vec::new();
    v.push(KeyValue::new(a.0, a.1));
    v.push(KeyValue::new(b.0, b.1));
    assert(kv_pairs(v@) =~= seq![(a.0@, a.1@), (b.0@, b.1@)]);
    v
}

fn rows1(k: &str, val: &str) -> (r: Vec<KeyValue>)
    ensures
        kv_pairs(r@) == seq![(k@, val@)],
{
    let mut v: Vec<KeyValue> = Vec::new();
    v.push(KeyValue::new(k, val));
    assert(kv_pairs(v@) =~= seq![(k@, val@)]);
    v
}

fn pair(a: &str, b: &str) -> (r: (String, String))
    ensures
        r.0@ == a@ && r.1@ == b@,
{
    (a.to_owned(), b.to_owned())
}

fn json_text(pairs: &Vec<(String, String)>) -> (r: String)
    ensures
        r@ == json_or_empty(pairs@.map_values(|p: (String, String)| (p.0@, p.1@))),
{
    match render_json_object(pairs.as_slice()) {
        Some(t) => t,
        None => String::new(),
    }
}

fn tags(a: &str, b: Option<&str>) -> (r: Vec<String>)
    ensures
        r@.map_values(|t: String| t@) == (match b {
            Some(x) => seq![a@, x@],
            None => seq![a@],
        }),
{
    let mut v: Vec<String> = Vec::new();
    v.push(a.to_owned());
    if let Some(x) = b {
        v.push(x.to_owned());
    }
    assert(v@.map_values(|t: String| t@) =~= (match b {
        Some(x) => seq![a@, x@],
        None => seq![a@],
    }));
    v
}

fn listed(name: &str, method: RequestMethod, url: &str, status: &str, t: Vec<String>) -> (r: ApiRequest)
    ensures
        request_summary(r) == (name@, method, url@, status@, t@.map_values(|x: String| x@)),
{
    let mut r = ApiRequest::new(name, method, url);
    r.status = status.to_owned();
    r.tags = t;
    r
}

/// The sample workspace (see `is_demo_workspace`).
pub fn demo_workspace() -> (r: WorkspaceData)
    ensures
        is_demo_workspace(r),
{
    proof {
        reveal_strlit("");
    }
    let mut project = Project::new("用户中心");
    project.description = "示例项目：演示前后端协作开发的认证模块。".to_owned();

    let mut dev = Environment::new("开发环境");
    let mut dev_vars: Vec<KeyValue> = Vec::new();
    dev_vars.push(KeyValue::new("baseUrl", "https://httpbin.org"));
    dev_vars.push(KeyValue::new("username", "demo"));
    dev_vars.push(KeyValue::new("password", "p@ssw0rd"));
    assert(kv_pairs(dev_vars@) =~= seq![
        ("baseUrl"@, "https://httpbin.org"@),
        ("username"@, "demo"@),
        ("password"@, "p@ssw0rd"@),
    ]);
    dev.variables = dev_vars;
    let mut test = Environment::new("测试环境");
    test.variables = rows1("baseUrl", "https://httpbin.org");
    let prod = Environment::new("生产环境");
    let dev_id = dev.id.clone();
    let mut envs: Vec<Environment> = Vec::new();
    envs.push(dev);
    envs.push(test);
    envs.push(prod);
    project.environments = envs;
    project.active_environment = Some(dev_id);
    let globals = rows1("token", "");
    assert(""@ =~= Seq::<char>::empty());
    assert(kv_pairs(globals@) =~= seq![("token"@, Seq::<char>::empty())]);
    project.global_variables = globals;

    let mut auth = Folder::new("认证模块");

    let mut login = ApiRequest::new("用户登录", RequestMethod::Post, "{{baseUrl}}/post");
    login.body.body_type = BodyType::Raw;
    login.body.raw_language = RawLanguage::Json;
    let mut login_pairs: Vec<(String, String)> = Vec::new();
    login_pairs.push(pair("username", "{{username}}"));
    login_pairs.push(pair("password", "{{password}}"));
    assert(login_pairs@.map_values(|p: (String, String)| (p.0@, p.1@)) =~= demo_login_body_pairs());
    login.body.raw = json_text(&login_pairs);
    login.description = "用户登录接口。\n\n请求成功后将 `token` 写入全局变量 `token` 供后续接口使用。".to_owned();
    let mut mock_pairs: Vec<(String, String)> = Vec::new();
    mock_pairs.push(pair("code", "0"));
    mock_pairs.push(pair("message", "ok"));
    mock_pairs.push(pair("data", "{\"token\":\"mock-token-123456\",\"expires_in\":3600}"));
    assert(mock_pairs@.map_values(|p: (String, String)| (p.0@, p.1@)) =~= demo_mock_body_pairs());
    login.mock = Some(
        MockRule {
            enabled: true,
            status: 200,
            headers: rows1("Content-Type", "application/json"),
            body: json_text(&mock_pairs),
            delay_ms: 0,
            match_method: None,
            match_path: PathPattern::Exact(String::new()),
            match_query: Vec::new(),
            match_headers: Vec::new(),
            enable_templates: false,
        },
    );
    login.tests_script = "// Extract token from the JSON response and store it\n// in the `token` variable for subsequent requests.\nif (response.json && response.json.data) {\n  apt.setVariable('token', response.json.data.token);\n  apt.echo('saved token: ' + response.json.data.token);\n}\napt.assert(response.status === 200, 'status is 200');\napt.assert(response.json.code === 0, 'code is 0');\n".to_owned();

    let mut get_info = listed("查询个人信息", RequestMethod::Get, "{{baseUrl}}/get", "已发布", tags("用户", Some("只读")));
    get_info.headers = rows1("Authorization", "Bearer {{token}}");
    get_info.params = rows1("detail", "1");
    get_info.cookies = rows1("session", "abc123");
    get_info.path = rows1("userId", "42");
    get_info.auth.auth_type = AuthType::Bearer;
    get_info.auth.token = "{{token}}".to_owned();

    let logout = listed("退出登录", RequestMethod::Post, "{{baseUrl}}/auth/logout", "开发中", tags("用户", None));
    let refresh = listed("刷新令牌", RequestMethod::Post, "{{baseUrl}}/auth/refresh", "已发布", tags("鉴权", None));
    let no_tags: Vec<String> = Vec::new();
    assert(no_tags@.map_values(|x: String| x@) =~= Seq::<Seq<char>>::empty());
    let reset = listed("重置密码", RequestMethod::Post, "{{baseUrl}}/auth/reset", "废弃", no_tags);
    let send_code = listed("发送验证码", RequestMethod::Post, "{{baseUrl}}/auth/code", "已发布", tags("鉴权", Some("短信")));
    let verify = listed("校验验证码", RequestMethod::Get, "{{baseUrl}}/auth/verify", "开发中", tags("鉴权", None));

    let ghost want = demo_auth_requests();
    assert(login.status@ =~= Seq::<char>::empty());
    assert(login.tags@.map_values(|x: String| x@) =~= Seq::<Seq<char>>::empty());
    assert(request_summary(login) == want[0]);
    assert(request_summary(get_info) == want[1]);
    assert(request_summary(logout) == want[2]);
    assert(request_summary(refresh) == want[3]);
    assert(request_summary(reset) == want[4]);
    assert(request_summary(send_code) == want[5]);
    assert(request_summary(verify) == want[6]);
    let mut reqs: Vec<ApiRequest> = Vec::new();
    reqs.push(login);
    reqs.push(get_info);
    reqs.push(logout);
    reqs.push(refresh);
    reqs.push(reset);
    reqs.push(send_code);
    reqs.push(verify);
    assert(reqs@.map_values(|r: ApiRequest| request_summary(r)) =~= demo_auth_requests());
    auth.requests = reqs;
    auth.description = "认证相关接口集合：登录、获取用户信息等。统一使用 Bearer 鉴权。".to_owned();
    auth.params = rows1("version", "v2");
    auth.headers = rows1("X-Client", "verve");
    auth.variables = rows2(("clientId", "verve-demo"), ("tenant", "default"));

    let list = ApiRequest::new("用户列表", RequestMethod::Get, "{{baseUrl}}/get");
    let create = ApiRequest::new("创建用户", RequestMethod::Post, "{{baseUrl}}/post");
    let mut folders: Vec<Folder> = Vec::new();
    folders.push(auth);
    project.folders = folders;
    assert(list.status@ =~= Seq::<char>::empty());
    assert(list.tags@.map_values(|x: String| x@) =~= Seq::<Seq<char>>::empty());
    assert(create.status@ =~= Seq::<char>::empty());
    assert(create.tags@.map_values(|x: String| x@) =~= Seq::<Seq<char>>::empty());
    let mut root: Vec<ApiRequest> = Vec::new();
    root.push(list);
    root.push(create);
    assert(root@.map_values(|r: ApiRequest| request_summary(r)) =~= seq![
        ("用户列表"@, RequestMethod::Get, "{{baseUrl}}/get"@, Seq::<char>::empty(), Seq::<Seq<char>>::empty()),
        ("创建用户"@, RequestMethod::Post, "{{baseUrl}}/post"@, Seq::<char>::empty(), Seq::<Seq<char>>::empty()),
    ]);
    project.requests = root;
    let mut projects: Vec<Project> = Vec::new();
    projects.push(project);
    WorkspaceData { projects, history: Vec::new(), active_project_id: None }
}

} // verus!
