//! Request definitions: body, auth, captured responses, saved examples and
//! mock rules.

use vstd::prelude::*;
use crate::state::enums::{AuthTarget, AuthType, BodyType, Protocol, RawLanguage, RequestMethod};
use crate::state::ids::{new_id, now_minutes, now_seconds};
use crate::state::kv::KeyValue;
use crate::state::example_key::example_key;
use crate::state::enums::FieldType;
use crate::state::json::{json_object_fields, json_object_text, parse_json_object, render_json_object, JsonKind};
use crate::text::{chars_of, decimal, find_chars, find_first, push_decimal, str_trim, string_from_chars, string_push, trim};

verus! {

/// A request body.
#[derive(Debug)]
pub struct RequestBody {
    pub body_type: BodyType,
    pub raw_language: RawLanguage,
    pub raw: String,
    pub form_data: Vec<KeyValue>,
    pub urlencoded: Vec<KeyValue>,
    /// Visual field breakdown of a Raw JSON body: one row per top-level key.
    pub raw_parameter: Vec<KeyValue>,
}

/// Whether every row of `rows` has a blank key.
pub open spec fn all_rows_empty(rows: Seq<KeyValue>) -> bool {
    forall|i: int| 0 <= i < rows.len() ==> (#[trigger] rows[i]).spec_is_empty()
}

fn rows_all_empty(rows: &Vec<KeyValue>) -> (r: bool)
    ensures
        r == all_rows_empty(rows@),
{
    let mut i: usize = 0;
    while i < rows.len()
        invariant
            i <= rows@.len(),
            forall|j: int| 0 <= j < i ==> (#[trigger] rows@[j]).spec_is_empty(),
        decreases rows.len() - i,
    {
        if !rows[i].is_empty() {
            return false;
        }
        i = i + 1;
    }
    true
}

impl RequestBody {
    /// Whether the body carries nothing to send.
    pub open spec fn spec_is_empty(self) -> bool {
        match self.body_type {
            BodyType::NoBody => true,
            BodyType::Raw => trim(self.raw@).len() == 0,
            BodyType::FormData => all_rows_empty(self.form_data@),
            BodyType::Urlencoded => all_rows_empty(self.urlencoded@),
        }
    }

    pub fn is_empty(&self) -> (r: bool)
        ensures
            r == self.spec_is_empty(),
    {
        match self.body_type {
            BodyType::NoBody => true,
            BodyType::Raw => str_trim(self.raw.as_str()).is_empty(),
            BodyType::FormData => rows_all_empty(&self.form_data),
            BodyType::Urlencoded => rows_all_empty(&self.urlencoded),
        }
    }
}

/// The field type a JSON value's kind gives a row.
pub open spec fn kind_field_type(k: JsonKind) -> FieldType {
    match k {
        JsonKind::Null => FieldType::Text,
        JsonKind::Bool => FieldType::Bool,
        JsonKind::Integer => FieldType::Number,
        JsonKind::Float => FieldType::Decimal,
        JsonKind::Str => FieldType::Text,
        JsonKind::Array => FieldType::Array,
        JsonKind::Object => FieldType::Object,
    }
}

fn kind_to_field_type(k: JsonKind) -> (r: FieldType)
    ensures
        r == kind_field_type(k),
{
    match k {
        JsonKind::Null => FieldType::Text,
        JsonKind::Bool => FieldType::Bool,
        JsonKind::Integer => FieldType::Number,
        JsonKind::Float => FieldType::Decimal,
        JsonKind::Str => FieldType::Text,
        JsonKind::Array => FieldType::Array,
        JsonKind::Object => FieldType::Object,
    }
}

/// The last row with exactly that key.
pub open spec fn last_row_with_key(rows: Seq<KeyValue>, key: Seq<char>) -> Option<KeyValue>
    decreases rows.len(),
{
    if rows.len() == 0 {
        None
    } else if rows.last().key@ == key {
        Some(rows.last())
    } else {
        last_row_with_key(rows.drop_last(), key)
    }
}

/// The row a JSON entry `(key, kind, shown)` becomes: the key, the shown
/// value and the kind's field type, keeping the enabled flag, file path,
/// required flag and description of the last old row with that key, or
/// those of a fresh row (enabled, required, no file, no description).
pub open spec fn synced_row(out: KeyValue, old_rows: Seq<KeyValue>, e: (Seq<char>, JsonKind, Seq<char>)) -> bool {
    &&& out.key@ == e.0
    &&& out.value@ == e.2
    &&& out.field_type == kind_field_type(e.1)
    &&& match last_row_with_key(old_rows, e.0) {
        Some(b) => out.enabled == b.enabled && out.file_path == b.file_path && out.required == b.required
            && out.description == b.description,
        None => out.enabled && out.file_path is None && out.required && out.description@.len() == 0,
    }
}

/// The `(key, value)` pairs of the rows whose key is not blank, in order.
pub open spec fn nonblank_pairs(rows: Seq<KeyValue>) -> Seq<(Seq<char>, Seq<char>)>
    decreases rows.len(),
{
    if rows.len() == 0 {
        Seq::empty()
    } else {
        let rest = nonblank_pairs(rows.drop_last());
        if trim(rows.last().key@).len() == 0 {
            rest
        } else {
            rest.push((rows.last().key@, rows.last().value@))
        }
    }
}

fn find_last_row(rows: &Vec<KeyValue>, key: &str) -> (r: Option<usize>)
    ensures
        match r {
            Some(i) => i < rows@.len() && last_row_with_key(rows@, key@) == Some(rows@[i as int]),
            None => last_row_with_key(rows@, key@) is None,
        },
{
    let mut n: usize = rows.len();
    assert(rows@.take(n as int) =~= rows@);
    while n > 0
        invariant
            n <= rows@.len(),
            last_row_with_key(rows@, key@) == last_row_with_key(rows@.take(n as int), key@),
        decreases n,
    {
        let ghost t = rows@.take(n as int);
        assert(t.drop_last() =~= rows@.take(n - 1));
        assert(t.last() == rows@[n - 1]);
        if crate::text::str_eq(rows[n - 1].key.as_str(), key) {
            return Some(n - 1);
        }
        n = n - 1;
    }
    None
}

impl RequestBody {
    /// Rebuilds the field rows of a Raw JSON body from the body text: one
    /// row per top-level key of the JSON object, carrying the rows' user
    /// edits over by key. A body that is not JSON, is blank, or is not a JSON
    /// object leaves everything unchanged.
    pub fn sync_raw_to_fields(&mut self)
        ensures
            final(self).body_type == old(self).body_type,
            final(self).raw_language == old(self).raw_language,
            final(self).raw == old(self).raw,
            final(self).form_data == old(self).form_data,
            final(self).urlencoded == old(self).urlencoded,
            ({
                let t = trim(old(self).raw@);
                if old(self).raw_language == RawLanguage::Json && t.len() > 0 && json_object_fields(t) is Some {
                    let es = json_object_fields(t).unwrap();
                    &&& final(self).raw_parameter@.len() == es.len()
                    &&& forall|i: int|
                        0 <= i < es.len() ==> synced_row(
                            #[trigger] final(self).raw_parameter@[i],
                            old(self).raw_parameter@,
                            es[i],
                        )
                } else {
                    final(self).raw_parameter == old(self).raw_parameter
                }
            }),
    {
        if self.raw_language != RawLanguage::Json {
            return;
        }
        let trimmed = str_trim(self.raw.as_str());
        if trimmed.is_empty() {
            return;
        }
        let entries = match parse_json_object(trimmed) {
            Some(e) => e,
            None => {
                return;
            },
        };
        let ghost es = entries@.map_values(|e: (String, JsonKind, String)| (e.0@, e.1, e.2@));
        let mut rows: Vec<KeyValue> = Vec::new();
        let mut i: usize = 0;
        while i < entries.len()
            invariant
                i <= entries@.len(),
                es == entries@.map_values(|e: (String, JsonKind, String)| (e.0@, e.1, e.2@)),
                rows@.len() == i,
                forall|j: int| 0 <= j < i ==> synced_row(#[trigger] rows@[j], old(self).raw_parameter@, es[j]),
                *self == *old(self),
            decreases entries.len() - i,
        {
            let (key, kind, shown) = (&entries[i].0, entries[i].1, &entries[i].2);
            let mut kv = match find_last_row(&self.raw_parameter, key.as_str()) {
                Some(k) => self.raw_parameter[k].duplicate(),
                None => KeyValue::new(key.as_str(), ""),
            };
            kv.key = key.clone();
            kv.value = shown.clone();
            kv.field_type = kind_to_field_type(kind);
            rows.push(kv);
            i = i + 1;
        }
        self.raw_parameter = rows;
    }

    /// Writes the field rows of a Raw JSON body back into the body text as
    /// pretty-printed JSON: rows with a blank key are skipped, a value that
    /// parses as JSON is kept as that value and any other becomes a string.
    /// Nothing changes for a non-JSON body or one without rows.
    pub fn sync_fields_to_raw(&mut self)
        ensures
            final(self).body_type == old(self).body_type,
            final(self).raw_language == old(self).raw_language,
            final(self).form_data == old(self).form_data,
            final(self).urlencoded == old(self).urlencoded,
            final(self).raw_parameter == old(self).raw_parameter,
            ({
                if old(self).raw_language == RawLanguage::Json && old(self).raw_parameter@.len() > 0 {
                    match json_object_text(nonblank_pairs(old(self).raw_parameter@)) {
                        Some(j) => final(self).raw@ == j,
                        None => final(self).raw == old(self).raw,
                    }
                } else {
                    final(self).raw == old(self).raw
                }
            }),
    {
        if self.raw_language != RawLanguage::Json || self.raw_parameter.len() == 0 {
            return;
        }
        let mut pairs: Vec<(String, String)> = Vec::new();
        let mut i: usize = 0;
        while i < self.raw_parameter.len()
            invariant
                i <= self.raw_parameter@.len(),
                *self == *old(self),
                pairs@.map_values(|p: (String, String)| (p.0@, p.1@)) == nonblank_pairs(
                    self.raw_parameter@.take(i as int),
                ),
            decreases self.raw_parameter.len() - i,
        {
            let ghost t = self.raw_parameter@.take(i + 1);
            assert(t.drop_last() =~= self.raw_parameter@.take(i as int));
            assert(t.last() == self.raw_parameter@[i as int]);
            let kv = &self.raw_parameter[i];
            if !str_trim(kv.key.as_str()).is_empty() {
                pairs.push((kv.key.clone(), kv.value.clone()));
                assert(pairs@.map_values(|p: (String, String)| (p.0@, p.1@)) =~= nonblank_pairs(
                    self.raw_parameter@.take(i as int),
                ).push((kv.key@, kv.value@)));
            }
            i = i + 1;
        }
        assert(self.raw_parameter@.take(self.raw_parameter@.len() as int) =~= self.raw_parameter@);
        match render_json_object(pairs.as_slice()) {
            Some(json) => {
                self.raw = json;
            },
            None => {},
        }
    }
}

impl Default for RequestBody {
    fn default() -> (r: Self)
        ensures
            r.body_type == BodyType::NoBody,
            r.raw_language == RawLanguage::Json,
            r.raw@ == Seq::<char>::empty(),
            r.form_data@.len() == 0,
            r.urlencoded@.len() == 0,
            r.raw_parameter@.len() == 0,
    {
        RequestBody {
            body_type: BodyType::NoBody,
            raw_language: RawLanguage::Json,
            raw: String::new(),
            form_data: Vec::new(),
            urlencoded: Vec::new(),
            raw_parameter: Vec::new(),
        }
    }
}

/// Authentication configuration for a request.
#[derive(Debug)]
pub struct AuthConfig {
    pub auth_type: AuthType,
    /// Bearer token value.
    pub token: String,
    /// Basic-auth username.
    pub username: String,
    /// Basic-auth password.
    pub password: String,
    /// API-key parameter name.
    pub key: String,
    /// API-key parameter value.
    pub value: String,
    /// Where to inject the API key.
    pub add_to: AuthTarget,
}

impl AuthConfig {
    pub fn is_active(&self) -> (r: bool)
        ensures
            r == (self.auth_type != AuthType::NoAuth),
    {
        !matches!(self.auth_type, AuthType::NoAuth)
    }
}

impl Default for AuthConfig {
    fn default() -> (r: Self)
        ensures
            r.auth_type == AuthType::NoAuth,
            r.add_to == AuthTarget::Header,
            r.token@.len() == 0,
            r.username@.len() == 0,
            r.password@.len() == 0,
            r.key@.len() == 0,
            r.value@.len() == 0,
    {
        AuthConfig {
            auth_type: AuthType::NoAuth,
            token: String::new(),
            username: String::new(),
            password: String::new(),
            key: String::new(),
            value: String::new(),
            add_to: AuthTarget::Header,
        }
    }
}

/// A captured response.
#[derive(Debug)]
pub struct Response {
    pub status: u16,
    /// Human status text e.g. "OK".
    pub status_text: String,
    pub time_ms: u64,
    pub size: u64,
    pub headers: Vec<KeyValue>,
    pub body: String,
    /// Whether `body` is JSON.
    pub is_json: bool,
    pub error: Option<String>,
    /// True while a streaming protocol is actively receiving.
    pub streaming: bool,
}

/// A saved response example.
#[derive(Debug)]
pub struct ResponseExample {
    pub status: u16,
    pub status_text: String,
    pub body: String,
    /// Timestamp when the example was saved.
    pub saved_at: String,
}

/// Footer appended after a post-request script ran.
pub open spec fn script_footer() -> Seq<char> {
    "\n\n// ── Script Output ──"@
}

/// Footer appended after an SSE pre-request script ran.
pub open spec fn pre_script_footer() -> Seq<char> {
    "\n\n// ── 预执行脚本输出 ──"@
}

/// `body` cut at the first occurrence of `marker`, if any.
pub open spec fn cut_at(body: Seq<char>, marker: Seq<char>) -> Seq<char> {
    match find_first(body, marker) {
        Some(i) => body.take(i),
        None => body,
    }
}

/// A response body without the script-output footers.
pub open spec fn clean_body(body: Seq<char>) -> Seq<char> {
    cut_at(cut_at(body, script_footer()), pre_script_footer())
}

fn cut_chars(body: Vec<char>, marker: &str) -> (r: Vec<char>)
    ensures
        r@ == cut_at(body@, marker@),
{
    let m = chars_of(marker);
    match find_chars(body.as_slice(), m.as_slice()) {
        Some(i) => {
            let mut body = body;
            proof {
                let fi = find_first(body@, m@);
                assert(fi == Some(i as int));
                assert(crate::text::find_from(body@, m@, 0) == Some(i as int));
            }
            assert(i <= body@.len()) by {
                lemma_find_from_bound(body@, m@, 0);
            }
            body.truncate(i);
            body
        },
        None => body,
    }
}

proof fn lemma_find_from_bound(h: Seq<char>, n: Seq<char>, i: int)
    ensures
        crate::text::find_from(h, n, i) matches Some(k) ==> i <= k && k + n.len() <= h.len(),
    decreases h.len() + 1 - i,
{
    if i < 0 || i + n.len() > h.len() {
    } else if crate::text::occurs_at(h, n, i) {
    } else {
        lemma_find_from_bound(h, n, i + 1);
    }
}

impl ResponseExample {
    /// An example built from a captured response: its status, status text and
    /// body with the script-output footers stripped, stamped with the current
    /// local time.
    pub fn from_response(resp: &Response) -> (r: Self)
        ensures
            r.status == resp.status,
            r.status_text@ == resp.status_text@,
            r.body@ == clean_body(resp.body@),
    {
        let body = chars_of(resp.body.as_str());
        let body = cut_chars(body, "\n\n// ── Script Output ──");
        let body = cut_chars(body, "\n\n// ── 预执行脚本输出 ──");
        ResponseExample {
            status: resp.status,
            status_text: resp.status_text.clone(),
            body: string_from_chars(body.as_slice()),
            saved_at: now_seconds(),
        }
    }

    /// Deduplication key: `status:body`.
    pub fn dedup_key(&self) -> (r: String)
        ensures
            r@ == example_key(*self),
    {
        let mut s = String::new();
        push_decimal(&mut s, self.status as u64);
        string_push(&mut s, ':');
        s.append(self.body.as_str());
        s
    }

    /// Success = 2xx/3xx status and no error.
    pub fn is_success_status(status: u16, error: Option<&str>) -> (r: bool)
        ensures
            r == (error is None && 200 <= status < 400),
    {
        error.is_none() && 200 <= status && status < 400
    }
}

/// How a mock rule matches an incoming request's path.
#[derive(Debug)]
pub enum PathPattern {
    /// Match the path exactly.
    Exact(String),
    /// Match when the request path starts with this prefix.
    Prefix(String),
    /// Match the path against this regex.
    Regex(String),
}

impl PathPattern {
    /// Label shown for the matching strategy.
    pub open spec fn spec_label(self) -> Seq<char> {
        match self {
            PathPattern::Exact(_) => "精确"@,
            PathPattern::Prefix(_) => "前缀"@,
            PathPattern::Regex(_) => "正则"@,
        }
    }

    /// The pattern text.
    pub open spec fn spec_value(self) -> Seq<char> {
        match self {
            PathPattern::Exact(s) => s@,
            PathPattern::Prefix(s) => s@,
            PathPattern::Regex(s) => s@,
        }
    }

    pub fn label(&self) -> (r: &'static str)
        ensures
            r@ == self.spec_label(),
    {
        match self {
            PathPattern::Exact(_) => "精确",
            PathPattern::Prefix(_) => "前缀",
            PathPattern::Regex(_) => "正则",
        }
    }

    pub fn value(&self) -> (r: &str)
        ensures
            r@ == self.spec_value(),
    {
        match self {
            PathPattern::Exact(s) => s.as_str(),
            PathPattern::Prefix(s) => s.as_str(),
            PathPattern::Regex(s) => s.as_str(),
        }
    }
}

impl Default for PathPattern {
    fn default() -> (r: Self)
        ensures
            r matches PathPattern::Exact(s) && s@.len() == 0,
    {
        PathPattern::Exact(String::new())
    }
}

/// A mock rule used by the local mock server.
#[derive(Debug)]
pub struct MockRule {
    pub enabled: bool,
    pub status: u16,
    pub headers: Vec<KeyValue>,
    pub body: String,
    /// Delay in milliseconds before responding.
    pub delay_ms: u64,
    /// When set, the rule only matches requests with this HTTP method.
    pub match_method: Option<RequestMethod>,
    /// Path matching strategy.
    pub match_path: PathPattern,
    /// Query parameters that must be present.
    pub match_query: Vec<KeyValue>,
    /// Headers that must be present.
    pub match_headers: Vec<KeyValue>,
    /// Whether `{{...}}` placeholders in the response are substituted.
    pub enable_templates: bool,
}

impl Default for MockRule {
    fn default() -> (r: Self)
        ensures
            r.enabled,
            r.status == 200,
            r.headers@.len() == 1,
            r.headers@[0].key@ == "Content-Type"@,
            r.headers@[0].value@ == "application/json"@,
            r.headers@[0].enabled,
            r.body@ == "{}"@,
            r.delay_ms == 0,
            r.match_method is None,
            r.match_path matches PathPattern::Exact(s) && s@.len() == 0,
            r.match_query@.len() == 0,
            r.match_headers@.len() == 0,
            !r.enable_templates,
    {
        MockRule {
            enabled: true,
            status: 200,
            headers: vec![KeyValue::new("Content-Type", "application/json")],
            body: "{}".to_owned(),
            delay_ms: 0,
            match_method: None,
            match_path: PathPattern::Exact(String::new()),
            match_query: Vec::new(),
            match_headers: Vec::new(),
            enable_templates: false,
        }
    }
}

/// An API request definition.
#[derive(Debug)]
pub struct ApiRequest {
    pub id: String,
    pub name: String,
    pub method: RequestMethod,
    pub protocol: Protocol,
    pub url: String,
    /// Per-request base-URL override (tri-state): `None` inherits the
    /// folder's base url, `Some(None)` disables any prefix, `Some(Some(url))`
    /// uses exactly that url.
    pub base_url_override: Option<Option<String>>,
    pub params: Vec<KeyValue>,
    pub headers: Vec<KeyValue>,
    /// URL path-template variables.
    pub path: Vec<KeyValue>,
    pub cookies: Vec<KeyValue>,
    pub body: RequestBody,
    pub auth: AuthConfig,
    /// Markdown description for the docs view.
    pub description: String,
    /// Request-level variables (highest priority scope).
    pub variables: Vec<KeyValue>,
    pub pre_script: String,
    pub tests_script: String,
    pub mock: Option<MockRule>,
    pub last_response: Option<Response>,
    pub success_example: Option<ResponseExample>,
    pub fail_examples: Vec<ResponseExample>,
    pub created_by: String,
    pub created_at: String,
    pub updated_by: String,
    pub updated_at: String,
    /// Free-form status label.
    pub status: String,
    pub tags: Vec<String>,
}

impl ApiRequest {
    /// A fresh HTTP request with a new id, created and updated by `me` at the
    /// same (current) time, with everything else empty.
    pub fn new(name: &str, method: RequestMethod, url: &str) -> (r: Self)
        ensures
            r.id@.len() == 21,
            r.name@ == name@,
            r.method == method,
            r.protocol == Protocol::Http,
            r.url@ == url@,
            r.base_url_override is None,
            r.params@.len() == 0,
            r.headers@.len() == 0,
            r.path@.len() == 0,
            r.cookies@.len() == 0,
            r.body.body_type == BodyType::NoBody,
            r.body.raw@.len() == 0,
            r.body.form_data@.len() == 0,
            r.body.urlencoded@.len() == 0,
            r.body.raw_parameter@.len() == 0,
            r.auth.auth_type == AuthType::NoAuth,
            r.description@.len() == 0,
            r.variables@.len() == 0,
            r.pre_script@.len() == 0,
            r.tests_script@.len() == 0,
            r.mock is None,
            r.last_response is None,
            r.success_example is None,
            r.fail_examples@.len() == 0,
            r.created_by@ == "me"@,
            r.updated_by@ == "me"@,
            r.created_at@ == r.updated_at@,
            r.status@.len() == 0,
            r.tags@.len() == 0,
    {
        let now = now_minutes();
        ApiRequest {
            id: new_id(),
            name: name.to_owned(),
            method,
            protocol: Protocol::Http,
            url: url.to_owned(),
            base_url_override: None,
            params: Vec::new(),
            headers: Vec::new(),
            path: Vec::new(),
            cookies: Vec::new(),
            body: RequestBody::default(),
            auth: AuthConfig::default(),
            description: String::new(),
            variables: Vec::new(),
            pre_script: String::new(),
            tests_script: String::new(),
            mock: None,
            last_response: None,
            success_example: None,
            fail_examples: Vec::new(),
            created_by: "me".to_owned(),
            created_at: now.clone(),
            updated_by: "me".to_owned(),
            updated_at: now,
            status: String::new(),
            tags: Vec::new(),
        }
    }
}

} // verus!
