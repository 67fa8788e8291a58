use verve::state::enums::{AuthType, BodyType, RequestMethod};
use verve::state::sample_data::demo_workspace;

#[test]
fn demo_workspace_has_the_user_centre_project() {
    let w = demo_workspace();
    assert_eq!(w.projects.len(), 1);
    assert!(w.history.is_empty());
    assert!(w.active_project_id.is_none());
    let p = &w.projects[0];
    assert_eq!(p.name, "用户中心");
    let env_names: Vec<&str> = p.environments.iter().map(|e| e.name.as_str()).collect();
    assert_eq!(env_names, vec!["开发环境", "测试环境", "生产环境"]);
    assert_eq!(p.active_environment.as_deref(), Some(p.environments[0].id.as_str()));
    assert_eq!(p.environments[0].variables.len(), 3);
    assert_eq!(p.global_variables[0].key, "token");
    assert_eq!(p.global_variables[0].value, "");
    let root: Vec<(&str, RequestMethod)> = p.requests.iter().map(|r| (r.name.as_str(), r.method)).collect();
    assert_eq!(root, vec![("用户列表", RequestMethod::Get), ("创建用户", RequestMethod::Post)]);
    let auth = &p.folders[0];
    assert_eq!(auth.name, "认证模块");
    assert_eq!(auth.requests.len(), 7);
    assert_eq!(auth.variables.len(), 2);
}

#[test]
fn demo_login_request_has_pretty_json_bodies() {
    let w = demo_workspace();
    let login = &w.projects[0].folders[0].requests[0];
    assert_eq!(login.name, "用户登录");
    assert_eq!(login.body.body_type, BodyType::Raw);
    assert_eq!(login.body.raw, "{\n  \"username\": \"{{username}}\",\n  \"password\": \"{{password}}\"\n}");
    let mock = login.mock.as_ref().unwrap();
    assert_eq!(mock.status, 200);
    assert_eq!(
        mock.body,
        "{\n  \"code\": 0,\n  \"message\": \"ok\",\n  \"data\": {\n    \"token\": \"mock-token-123456\",\n    \"expires_in\": 3600\n  }\n}"
    );
    assert!(login.tests_script.contains("apt.setVariable('token', response.json.data.token);"));
    let info = &w.projects[0].folders[0].requests[1];
    assert_eq!(info.auth.auth_type, AuthType::Bearer);
    assert_eq!(info.auth.token, "{{token}}");
    assert_eq!(info.tags, vec!["用户".to_string(), "只读".to_string()]);
}
