use verve::state::enums::{BodyType, FieldType, RawLanguage};
use verve::state::kv::KeyValue;
use verve::state::request::RequestBody;

fn kv(key: &str, value: &str, required: bool) -> KeyValue {
    let mut k = KeyValue::new(key, value);
    k.required = required;
    k
}

#[test]
fn raw_to_fields_parses_json_object() {
    let mut body = RequestBody::default();
    body.body_type = BodyType::Raw;
    body.raw_language = RawLanguage::Json;
    body.raw = r#"{"name":"admin","age":25,"active":true}"#.into();
    body.sync_raw_to_fields();
    assert_eq!(body.raw_parameter.len(), 3);
    assert_eq!(body.raw_parameter[0].key, "name");
    assert_eq!(body.raw_parameter[0].value, "admin");
    assert_eq!(body.raw_parameter[0].field_type, FieldType::Text);
    assert_eq!(body.raw_parameter[1].key, "age");
    assert_eq!(body.raw_parameter[1].field_type, FieldType::Number);
    assert_eq!(body.raw_parameter[2].field_type, FieldType::Bool);
}

#[test]
fn fields_to_raw_serializes_json() {
    let mut body = RequestBody::default();
    body.body_type = BodyType::Raw;
    body.raw_language = RawLanguage::Json;
    body.raw_parameter = vec![kv("name", "test", true), kv("count", "42", false)];
    body.sync_fields_to_raw();
    let parsed: serde_json::Value = serde_json::from_str(&body.raw).unwrap();
    assert_eq!(parsed["name"], "test");
    assert_eq!(parsed["count"], 42);
}

#[test]
fn sync_preserves_user_edits() {
    let mut body = RequestBody::default();
    body.body_type = BodyType::Raw;
    body.raw_language = RawLanguage::Json;
    body.raw = r#"{"name":"a"}"#.into();
    let mut row = kv("name", "a", false);
    row.description = "用户名".into();
    body.raw_parameter = vec![row];
    body.sync_raw_to_fields();
    assert_eq!(body.raw_parameter.len(), 1);
    assert!(!body.raw_parameter[0].required, "user's required=false preserved");
    assert_eq!(body.raw_parameter[0].description, "用户名");
}

#[test]
fn non_json_body_not_parsed() {
    let mut body = RequestBody::default();
    body.body_type = BodyType::Raw;
    body.raw_language = RawLanguage::Xml;
    body.raw = "<root/>".into();
    body.sync_raw_to_fields();
    assert!(body.raw_parameter.is_empty(), "XML bodies should not be parsed into fields");
}

#[test]
fn value_kinds_map_to_field_types() {
    let mut body = RequestBody::default();
    body.raw_language = RawLanguage::Json;
    body.raw = r#"  {"f":1.5,"n":null,"a":[1,2],"o":{"k":"v"},"s":"x\"y"}  "#.into();
    body.sync_raw_to_fields();
    let types: Vec<FieldType> = body.raw_parameter.iter().map(|r| r.field_type).collect();
    assert_eq!(
        types,
        vec![FieldType::Decimal, FieldType::Text, FieldType::Array, FieldType::Object, FieldType::Text]
    );
    assert_eq!(body.raw_parameter[0].value, "1.5");
    assert_eq!(body.raw_parameter[1].value, "null");
    assert_eq!(body.raw_parameter[2].value, "[1,2]");
    assert_eq!(body.raw_parameter[3].value, r#"{"k":"v"}"#);
    assert_eq!(body.raw_parameter[4].value, "x\"y");
    assert!(body.raw_parameter.iter().all(|r| r.enabled && r.required));
}

#[test]
fn non_object_or_blank_json_is_left_alone() {
    let mut body = RequestBody::default();
    body.raw_language = RawLanguage::Json;
    body.raw_parameter = vec![kv("keep", "1", true)];
    body.raw = "[1,2,3]".into();
    body.sync_raw_to_fields();
    assert_eq!(body.raw_parameter.len(), 1);
    body.raw = "   ".into();
    body.sync_raw_to_fields();
    assert_eq!(body.raw_parameter[0].key, "keep");
    body.raw = "{not json".into();
    body.sync_raw_to_fields();
    assert_eq!(body.raw_parameter[0].key, "keep");
}

#[test]
fn fields_to_raw_skips_blank_keys_and_keeps_text() {
    let mut body = RequestBody::default();
    body.raw_language = RawLanguage::Json;
    body.raw_parameter = vec![kv("  ", "ignored", true), kv("msg", "hello world", true)];
    body.sync_fields_to_raw();
    assert_eq!(body.raw, "{\n  \"msg\": \"hello world\"\n}");
    let mut empty = RequestBody::default();
    empty.raw = "orig".into();
    empty.sync_fields_to_raw();
    assert_eq!(empty.raw, "orig");
}
