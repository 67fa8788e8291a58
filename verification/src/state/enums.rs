//! The small closed vocabularies of the request model.

use vstd::prelude::*;
use crate::text::{lower, lower_char, str_eq, str_to_lower, str_to_upper, upper, upper_char};

verus! {

/// A request method. Ordered so the common methods appear first in pickers.
#[derive(Debug, Clone, Copy, PartialEq, Eq, Structural)]
pub enum RequestMethod {
    Get,
    Post,
    Put,
    Delete,
    Patch,
    Head,
    Options,
}

impl RequestMethod {
    /// Wire name of a method.
    pub open spec fn name(self) -> Seq<char> {
        match self {
            RequestMethod::Get => "GET"@,
            RequestMethod::Post => "POST"@,
            RequestMethod::Put => "PUT"@,
            RequestMethod::Delete => "DELETE"@,
            RequestMethod::Patch => "PATCH"@,
            RequestMethod::Head => "HEAD"@,
            RequestMethod::Options => "OPTIONS"@,
        }
    }

    pub fn all() -> (r: &'static [RequestMethod])
        ensures
            r@ == seq![
                RequestMethod::Get,
                RequestMethod::Post,
                RequestMethod::Put,
                RequestMethod::Delete,
                RequestMethod::Patch,
                RequestMethod::Head,
                RequestMethod::Options,
            ],
    {
        &[
            RequestMethod::Get,
            RequestMethod::Post,
            RequestMethod::Put,
            RequestMethod::Delete,
            RequestMethod::Patch,
            RequestMethod::Head,
            RequestMethod::Options,
        ]
    }

    pub fn as_str(&self) -> (r: &'static str)
        ensures
            r@ == self.name(),
    {
        match self {
            RequestMethod::Get => "GET",
            RequestMethod::Post => "POST",
            RequestMethod::Put => "PUT",
            RequestMethod::Delete => "DELETE",
            RequestMethod::Patch => "PATCH",
            RequestMethod::Head => "HEAD",
            RequestMethod::Options => "OPTIONS",
        }
    }

    /// Case-insensitive parse of a wire name.
    pub open spec fn spec_parse(s: Seq<char>) -> Option<RequestMethod> {
        let u = upper(s);
        if u == "GET"@ {
            Some(RequestMethod::Get)
        } else if u == "POST"@ {
            Some(RequestMethod::Post)
        } else if u == "PUT"@ {
            Some(RequestMethod::Put)
        } else if u == "DELETE"@ {
            Some(RequestMethod::Delete)
        } else if u == "PATCH"@ {
            Some(RequestMethod::Patch)
        } else if u == "HEAD"@ {
            Some(RequestMethod::Head)
        } else if u == "OPTIONS"@ {
            Some(RequestMethod::Options)
        } else {
            None
        }
    }

    pub fn parse(s: &str) -> (r: Option<Self>)
        ensures
            r == Self::spec_parse(s@),
    {
        let u = str_to_upper(s);
        let u = u.as_str();
        if str_eq(u, "GET") {
            Some(RequestMethod::Get)
        } else if str_eq(u, "POST") {
            Some(RequestMethod::Post)
        } else if str_eq(u, "PUT") {
            Some(RequestMethod::Put)
        } else if str_eq(u, "DELETE") {
            Some(RequestMethod::Delete)
        } else if str_eq(u, "PATCH") {
            Some(RequestMethod::Patch)
        } else if str_eq(u, "HEAD") {
            Some(RequestMethod::Head)
        } else if str_eq(u, "OPTIONS") {
            Some(RequestMethod::Options)
        } else {
            None
        }
    }
}


impl Default for RequestMethod {
    fn default() -> (r: Self)
        ensures
            r == RequestMethod::Get,
    {
        RequestMethod::Get
    }
}

/// The wire protocol a request uses. Only `Http` and `Sse`/`WebSocket` are
/// executed; the rest are selectable placeholders.
#[derive(Debug, Clone, Copy, PartialEq, Eq, Structural)]
pub enum Protocol {
    Http,
    Sse,
    WebSocket,
    Tcp,
    Grpc,
    SocketIo,
    Graphql,
    Markdown,
    Directory,
}

impl Default for Protocol {
    fn default() -> (r: Self)
        ensures
            r == Protocol::Http,
    {
        Protocol::Http
    }
}

impl Protocol {
    pub fn all() -> (r: &'static [Protocol])
        ensures
            r@ == seq![
                Protocol::Http,
                Protocol::Sse,
                Protocol::WebSocket,
                Protocol::Tcp,
                Protocol::Grpc,
                Protocol::SocketIo,
                Protocol::Graphql,
                Protocol::Markdown,
                Protocol::Directory,
            ],
    {
        &[
            Protocol::Http,
            Protocol::Sse,
            Protocol::WebSocket,
            Protocol::Tcp,
            Protocol::Grpc,
            Protocol::SocketIo,
            Protocol::Graphql,
            Protocol::Markdown,
            Protocol::Directory,
        ]
    }

    /// Display name of a protocol.
    pub open spec fn name(self) -> Seq<char> {
        match self {
            Protocol::Http => "HTTP"@,
            Protocol::Sse => "SSE"@,
            Protocol::WebSocket => "WebSocket"@,
            Protocol::Tcp => "TCP"@,
            Protocol::Grpc => "gRPC"@,
            Protocol::SocketIo => "Socket.IO"@,
            Protocol::Graphql => "GraphQL"@,
            Protocol::Markdown => "Markdown"@,
            Protocol::Directory => "目录"@,
        }
    }

    pub fn as_str(&self) -> (r: &'static str)
        ensures
            r@ == self.name(),
    {
        match self {
            Protocol::Http => "HTTP",
            Protocol::Sse => "SSE",
            Protocol::WebSocket => "WebSocket",
            Protocol::Tcp => "TCP",
            Protocol::Grpc => "gRPC",
            Protocol::SocketIo => "Socket.IO",
            Protocol::Graphql => "GraphQL",
            Protocol::Markdown => "Markdown",
            Protocol::Directory => "目录",
        }
    }

    /// Case-insensitive parse of a protocol name (with the `ws` and `socketio` aliases).
    pub open spec fn spec_parse(s: Seq<char>) -> Option<Protocol> {
        let u = lower(s);
        if u == "http"@ {
            Some(Protocol::Http)
        } else if u == "sse"@ {
            Some(Protocol::Sse)
        } else if u == "websocket"@ || u == "ws"@ {
            Some(Protocol::WebSocket)
        } else if u == "tcp"@ {
            Some(Protocol::Tcp)
        } else if u == "grpc"@ {
            Some(Protocol::Grpc)
        } else if u == "socket.io"@ || u == "socketio"@ {
            Some(Protocol::SocketIo)
        } else if u == "graphql"@ {
            Some(Protocol::Graphql)
        } else if u == "markdown"@ {
            Some(Protocol::Markdown)
        } else if u == "目录"@ || u == "directory"@ {
            Some(Protocol::Directory)
        } else {
            None
        }
    }

    pub fn parse(s: &str) -> (r: Option<Self>)
        ensures
            r == Self::spec_parse(s@),
    {
        let owned = str_to_lower(s);
        let u = owned.as_str();
        if str_eq(u, "http") {
            Some(Protocol::Http)
        } else if str_eq(u, "sse") {
            Some(Protocol::Sse)
        } else if str_eq(u, "websocket") || str_eq(u, "ws") {
            Some(Protocol::WebSocket)
        } else if str_eq(u, "tcp") {
            Some(Protocol::Tcp)
        } else if str_eq(u, "grpc") {
            Some(Protocol::Grpc)
        } else if str_eq(u, "socket.io") || str_eq(u, "socketio") {
            Some(Protocol::SocketIo)
        } else if str_eq(u, "graphql") {
            Some(Protocol::Graphql)
        } else if str_eq(u, "markdown") {
            Some(Protocol::Markdown)
        } else if str_eq(u, "目录") || str_eq(u, "directory") {
            Some(Protocol::Directory)
        } else {
            None
        }
    }

    /// Whether this protocol uses an HTTP method selector.
    pub fn uses_http_method(&self) -> (r: bool)
        ensures
            r == (*self == Protocol::Http || *self == Protocol::Graphql),
    {
        matches!(self, Protocol::Http | Protocol::Graphql)
    }
}

/// A column shown in the folder interface list. The set of visible columns is
/// user-customizable and persisted in the layout file.
#[derive(Debug, Clone, Copy, PartialEq, Eq, Structural)]
pub enum IfaceColumn {
    Name,
    Method,
    Path,
    Folder,
    CreatedBy,
    CreatedAt,
    UpdatedBy,
    UpdatedAt,
    Status,
    Tags,
}

impl IfaceColumn {
    pub fn all() -> (r: &'static [IfaceColumn])
        ensures
            r@ == seq![
                IfaceColumn::Name,
                IfaceColumn::Method,
                IfaceColumn::Path,
                IfaceColumn::Folder,
                IfaceColumn::CreatedBy,
                IfaceColumn::CreatedAt,
                IfaceColumn::UpdatedBy,
                IfaceColumn::UpdatedAt,
                IfaceColumn::Status,
                IfaceColumn::Tags,
            ],
    {
        &[
            IfaceColumn::Name,
            IfaceColumn::Method,
            IfaceColumn::Path,
            IfaceColumn::Folder,
            IfaceColumn::CreatedBy,
            IfaceColumn::CreatedAt,
            IfaceColumn::UpdatedBy,
            IfaceColumn::UpdatedAt,
            IfaceColumn::Status,
            IfaceColumn::Tags,
        ]
    }

    /// The user-facing column label.
    pub open spec fn spec_label(self) -> Seq<char> {
        match self {
            IfaceColumn::Name => "接口名称"@,
            IfaceColumn::Method => "请求类型"@,
            IfaceColumn::Path => "接口路径"@,
            IfaceColumn::Folder => "接口目录"@,
            IfaceColumn::CreatedBy => "创建人"@,
            IfaceColumn::CreatedAt => "创建时间"@,
            IfaceColumn::UpdatedBy => "最后修改人"@,
            IfaceColumn::UpdatedAt => "修改时间"@,
            IfaceColumn::Status => "状态"@,
            IfaceColumn::Tags => "标签"@,
        }
    }

    pub fn label(&self) -> (r: &'static str)
        ensures
            r@ == self.spec_label(),
    {
        match self {
            IfaceColumn::Name => "接口名称",
            IfaceColumn::Method => "请求类型",
            IfaceColumn::Path => "接口路径",
            IfaceColumn::Folder => "接口目录",
            IfaceColumn::CreatedBy => "创建人",
            IfaceColumn::CreatedAt => "创建时间",
            IfaceColumn::UpdatedBy => "最后修改人",
            IfaceColumn::UpdatedAt => "修改时间",
            IfaceColumn::Status => "状态",
            IfaceColumn::Tags => "标签",
        }
    }

    /// Case-insensitive parse of the lowercase column key.
    pub open spec fn spec_parse(s: Seq<char>) -> Option<IfaceColumn> {
        let u = lower(s);
        if u == "name"@ {
            Some(IfaceColumn::Name)
        } else if u == "method"@ {
            Some(IfaceColumn::Method)
        } else if u == "path"@ {
            Some(IfaceColumn::Path)
        } else if u == "folder"@ {
            Some(IfaceColumn::Folder)
        } else if u == "createdby"@ {
            Some(IfaceColumn::CreatedBy)
        } else if u == "createdat"@ {
            Some(IfaceColumn::CreatedAt)
        } else if u == "updatedby"@ {
            Some(IfaceColumn::UpdatedBy)
        } else if u == "updatedat"@ {
            Some(IfaceColumn::UpdatedAt)
        } else if u == "status"@ {
            Some(IfaceColumn::Status)
        } else if u == "tags"@ {
            Some(IfaceColumn::Tags)
        } else {
            None
        }
    }

    pub fn parse(s: &str) -> (r: Option<Self>)
        ensures
            r == Self::spec_parse(s@),
    {
        let owned = str_to_lower(s);
        let u = owned.as_str();
        if str_eq(u, "name") {
            Some(IfaceColumn::Name)
        } else if str_eq(u, "method") {
            Some(IfaceColumn::Method)
        } else if str_eq(u, "path") {
            Some(IfaceColumn::Path)
        } else if str_eq(u, "folder") {
            Some(IfaceColumn::Folder)
        } else if str_eq(u, "createdby") {
            Some(IfaceColumn::CreatedBy)
        } else if str_eq(u, "createdat") {
            Some(IfaceColumn::CreatedAt)
        } else if str_eq(u, "updatedby") {
            Some(IfaceColumn::UpdatedBy)
        } else if str_eq(u, "updatedat") {
            Some(IfaceColumn::UpdatedAt)
        } else if str_eq(u, "status") {
            Some(IfaceColumn::Status)
        } else if str_eq(u, "tags") {
            Some(IfaceColumn::Tags)
        } else {
            None
        }
    }

    /// The default visible column set.
    pub open spec fn spec_defaults() -> Seq<IfaceColumn> {
        seq![IfaceColumn::Name, IfaceColumn::Method, IfaceColumn::Path, IfaceColumn::CreatedAt]
    }

    pub fn defaults() -> (r: Vec<IfaceColumn>)
        ensures
            r@ == Self::spec_defaults(),
    {
        vec![IfaceColumn::Name, IfaceColumn::Method, IfaceColumn::Path, IfaceColumn::CreatedAt]
    }

    /// The lowercase key (what `parse` accepts).
    pub open spec fn key(self) -> Seq<char> {
        match self {
            IfaceColumn::Name => "name"@,
            IfaceColumn::Method => "method"@,
            IfaceColumn::Path => "path"@,
            IfaceColumn::Folder => "folder"@,
            IfaceColumn::CreatedBy => "createdby"@,
            IfaceColumn::CreatedAt => "createdat"@,
            IfaceColumn::UpdatedBy => "updatedby"@,
            IfaceColumn::UpdatedAt => "updatedat"@,
            IfaceColumn::Status => "status"@,
            IfaceColumn::Tags => "tags"@,
        }
    }

    pub fn as_key(&self) -> (r: &'static str)
        ensures
            r@ == self.key(),
    {
        match self {
            IfaceColumn::Name => "name",
            IfaceColumn::Method => "method",
            IfaceColumn::Path => "path",
            IfaceColumn::Folder => "folder",
            IfaceColumn::CreatedBy => "createdby",
            IfaceColumn::CreatedAt => "createdat",
            IfaceColumn::UpdatedBy => "updatedby",
            IfaceColumn::UpdatedAt => "updatedat",
            IfaceColumn::Status => "status",
            IfaceColumn::Tags => "tags",
        }
    }

}

/// The body type selected for a request.
#[derive(Debug, Clone, Copy, PartialEq, Eq, Structural)]
pub enum BodyType {
    NoBody,
    FormData,
    Urlencoded,
    Raw,
}

impl Default for BodyType {
    fn default() -> (r: Self)
        ensures
            r == BodyType::NoBody,
    {
        BodyType::NoBody
    }
}

/// Language/format for a raw body.
#[derive(Debug, Clone, Copy, PartialEq, Eq, Structural)]
pub enum RawLanguage {
    Json,
    Xml,
    Text,
    Html,
    Javascript,
}

impl Default for RawLanguage {
    fn default() -> (r: Self)
        ensures
            r == RawLanguage::Json,
    {
        RawLanguage::Json
    }
}

impl RawLanguage {
    pub fn all() -> (r: &'static [RawLanguage])
        ensures
            r@ == seq![
                RawLanguage::Json,
                RawLanguage::Xml,
                RawLanguage::Text,
                RawLanguage::Html,
                RawLanguage::Javascript,
            ],
    {
        &[
            RawLanguage::Json,
            RawLanguage::Xml,
            RawLanguage::Text,
            RawLanguage::Html,
            RawLanguage::Javascript,
        ]
    }

    /// Highlighter language name.
    pub open spec fn spec_highlight(self) -> Seq<char> {
        match self {
            RawLanguage::Json => "json"@,
            RawLanguage::Xml => "xml"@,
            RawLanguage::Text => "text"@,
            RawLanguage::Html => "html"@,
            RawLanguage::Javascript => "javascript"@,
        }
    }

    pub fn highlight(&self) -> (r: &'static str)
        ensures
            r@ == self.spec_highlight(),
    {
        match self {
            RawLanguage::Json => "json",
            RawLanguage::Xml => "xml",
            RawLanguage::Text => "text",
            RawLanguage::Html => "html",
            RawLanguage::Javascript => "javascript",
        }
    }

    /// Default `Content-Type` for the raw language.
    pub open spec fn spec_content_type(self) -> Seq<char> {
        match self {
            RawLanguage::Json => "application/json"@,
            RawLanguage::Xml => "application/xml"@,
            RawLanguage::Text => "text/plain"@,
            RawLanguage::Html => "text/html"@,
            RawLanguage::Javascript => "application/javascript"@,
        }
    }

    pub fn content_type(&self) -> (r: &'static str)
        ensures
            r@ == self.spec_content_type(),
    {
        match self {
            RawLanguage::Json => "application/json",
            RawLanguage::Xml => "application/xml",
            RawLanguage::Text => "text/plain",
            RawLanguage::Html => "text/html",
            RawLanguage::Javascript => "application/javascript",
        }
    }

    /// Lowercase name used as a label and code-fence tag.
    pub open spec fn spec_lower_name(self) -> Seq<char> {
        match self {
            RawLanguage::Json => "json"@,
            RawLanguage::Xml => "xml"@,
            RawLanguage::Text => "text"@,
            RawLanguage::Html => "html"@,
            RawLanguage::Javascript => "javascript"@,
        }
    }

    pub fn lower_name(&self) -> (r: &'static str)
        ensures
            r@ == self.spec_lower_name(),
    {
        match self {
            RawLanguage::Json => "json",
            RawLanguage::Xml => "xml",
            RawLanguage::Text => "text",
            RawLanguage::Html => "html",
            RawLanguage::Javascript => "javascript",
        }
    }

    /// Case-insensitive parse of the lowercase name.
    pub open spec fn spec_parse_name(s: Seq<char>) -> Option<RawLanguage> {
        let u = lower(s);
        if u == "json"@ {
            Some(RawLanguage::Json)
        } else if u == "xml"@ {
            Some(RawLanguage::Xml)
        } else if u == "text"@ {
            Some(RawLanguage::Text)
        } else if u == "html"@ {
            Some(RawLanguage::Html)
        } else if u == "javascript"@ {
            Some(RawLanguage::Javascript)
        } else {
            None
        }
    }

    pub fn parse_name(s: &str) -> (r: Option<Self>)
        ensures
            r == Self::spec_parse_name(s@),
    {
        let owned = str_to_lower(s);
        let u = owned.as_str();
        if str_eq(u, "json") {
            Some(RawLanguage::Json)
        } else if str_eq(u, "xml") {
            Some(RawLanguage::Xml)
        } else if str_eq(u, "text") {
            Some(RawLanguage::Text)
        } else if str_eq(u, "html") {
            Some(RawLanguage::Html)
        } else if str_eq(u, "javascript") {
            Some(RawLanguage::Javascript)
        } else {
            None
        }
    }

}

/// The value type of a key/value field (form-data / query param).
#[derive(Debug, Clone, Copy, PartialEq, Eq, Structural)]
pub enum FieldType {
    Text,
    File,
    Number,
    Bool,
    Array,
    Decimal,
    Object,
}

impl Default for FieldType {
    fn default() -> (r: Self)
        ensures
            r == FieldType::Text,
    {
        FieldType::Text
    }
}

impl FieldType {
    pub fn all() -> (r: &'static [FieldType])
        ensures
            r@ == seq![
                FieldType::Text,
                FieldType::File,
                FieldType::Number,
                FieldType::Bool,
                FieldType::Array,
                FieldType::Decimal,
                FieldType::Object,
            ],
    {
        &[
            FieldType::Text,
            FieldType::File,
            FieldType::Number,
            FieldType::Bool,
            FieldType::Array,
            FieldType::Decimal,
            FieldType::Object,
        ]
    }

    /// Serialized name of a field type.
    pub open spec fn name(self) -> Seq<char> {
        match self {
            FieldType::Text => "string"@,
            FieldType::File => "file"@,
            FieldType::Number => "number"@,
            FieldType::Bool => "bool"@,
            FieldType::Array => "array"@,
            FieldType::Decimal => "decimal"@,
            FieldType::Object => "object"@,
        }
    }

    pub fn as_str(&self) -> (r: &'static str)
        ensures
            r@ == self.name(),
    {
        match self {
            FieldType::Text => "string",
            FieldType::File => "file",
            FieldType::Number => "number",
            FieldType::Bool => "bool",
            FieldType::Array => "array",
            FieldType::Decimal => "decimal",
            FieldType::Object => "object",
        }
    }

    /// Exact (case-sensitive) parse of a field type name; `text` is accepted for `string`.
    pub open spec fn spec_parse(s: Seq<char>) -> Option<FieldType> {
        let u = s;
        if u == "string"@ || u == "text"@ {
            Some(FieldType::Text)
        } else if u == "file"@ {
            Some(FieldType::File)
        } else if u == "number"@ {
            Some(FieldType::Number)
        } else if u == "bool"@ {
            Some(FieldType::Bool)
        } else if u == "array"@ {
            Some(FieldType::Array)
        } else if u == "decimal"@ {
            Some(FieldType::Decimal)
        } else if u == "object"@ {
            Some(FieldType::Object)
        } else {
            None
        }
    }

    pub fn parse(s: &str) -> (r: Option<Self>)
        ensures
            r == Self::spec_parse(s@),
    {
        let u = s;
        if str_eq(u, "string") || str_eq(u, "text") {
            Some(FieldType::Text)
        } else if str_eq(u, "file") {
            Some(FieldType::File)
        } else if str_eq(u, "number") {
            Some(FieldType::Number)
        } else if str_eq(u, "bool") {
            Some(FieldType::Bool)
        } else if str_eq(u, "array") {
            Some(FieldType::Array)
        } else if str_eq(u, "decimal") {
            Some(FieldType::Decimal)
        } else if str_eq(u, "object") {
            Some(FieldType::Object)
        } else {
            None
        }
    }

    /// Position of a field type in [`FieldType::all`].
    pub open spec fn index(self) -> int {
        match self {
            FieldType::Text => 0,
            FieldType::File => 1,
            FieldType::Number => 2,
            FieldType::Bool => 3,
            FieldType::Array => 4,
            FieldType::Decimal => 5,
            FieldType::Object => 6,
        }
    }

    /// Next type in the cycle of [`FieldType::all`] (wrapping to the first).
    pub fn next(self) -> (r: Self)
        ensures
            r.index() == (self.index() + 1) % 7,
    {
        let all = Self::all();
        let mut i: usize = 0;
        while i < all.len() && all[i] != self
            invariant
                all@ == seq![FieldType::Text, FieldType::File, FieldType::Number, FieldType::Bool, FieldType::Array, FieldType::Decimal, FieldType::Object],
                i <= all@.len(),
                forall|j: int| 0 <= j < i ==> all@[j] != self,
            decreases all.len() - i,
        {
            i = i + 1;
        }
        proof {
            assert(all@[self.index()] == self);
        }
        all[(i + 1) % all.len()]
    }
}

/// Where an API-key auth credential is injected.
#[derive(Debug, Clone, Copy, PartialEq, Eq, Structural)]
pub enum AuthTarget {
    Header,
    Query,
}

impl Default for AuthTarget {
    fn default() -> (r: Self)
        ensures
            r == AuthTarget::Header,
    {
        AuthTarget::Header
    }
}

/// The authentication scheme selected for a request.
#[derive(Debug, Clone, Copy, PartialEq, Eq, Structural)]
pub enum AuthType {
    NoAuth,
    Bearer,
    Basic,
    ApiKey,
}

impl Default for AuthType {
    fn default() -> (r: Self)
        ensures
            r == AuthType::NoAuth,
    {
        AuthType::NoAuth
    }
}

impl AuthType {
    pub fn all() -> (r: &'static [AuthType])
        ensures
            r@ == seq![
                AuthType::NoAuth,
                AuthType::Bearer,
                AuthType::Basic,
                AuthType::ApiKey,
            ],
    {
        &[
            AuthType::NoAuth,
            AuthType::Bearer,
            AuthType::Basic,
            AuthType::ApiKey,
        ]
    }

    /// Display name of an auth scheme.
    pub open spec fn name(self) -> Seq<char> {
        match self {
            AuthType::NoAuth => "No Auth"@,
            AuthType::Bearer => "Bearer Token"@,
            AuthType::Basic => "Basic Auth"@,
            AuthType::ApiKey => "API Key"@,
        }
    }

    pub fn as_str(&self) -> (r: &'static str)
        ensures
            r@ == self.name(),
    {
        match self {
            AuthType::NoAuth => "No Auth",
            AuthType::Bearer => "Bearer Token",
            AuthType::Basic => "Basic Auth",
            AuthType::ApiKey => "API Key",
        }
    }

    /// Exact parse of an auth scheme display name.
    pub open spec fn spec_parse(s: Seq<char>) -> Option<AuthType> {
        let u = s;
        if u == "No Auth"@ {
            Some(AuthType::NoAuth)
        } else if u == "Bearer Token"@ {
            Some(AuthType::Bearer)
        } else if u == "Basic Auth"@ {
            Some(AuthType::Basic)
        } else if u == "API Key"@ {
            Some(AuthType::ApiKey)
        } else {
            None
        }
    }

    pub fn parse(s: &str) -> (r: Option<Self>)
        ensures
            r == Self::spec_parse(s@),
    {
        let u = s;
        if str_eq(u, "No Auth") {
            Some(AuthType::NoAuth)
        } else if str_eq(u, "Bearer Token") {
            Some(AuthType::Bearer)
        } else if str_eq(u, "Basic Auth") {
            Some(AuthType::Basic)
        } else if str_eq(u, "API Key") {
            Some(AuthType::ApiKey)
        } else {
            None
        }
    }

}

/// Lower-casing after upper- or lower-casing gives the lower-cased string.
proof fn lemma_lower_of_cased(s: Seq<char>)
    ensures
        lower(lower(s)) == lower(s),
        lower(upper(s)) == lower(s),
{
    assert forall|i: int| 0 <= i < s.len() implies #[trigger] lower_char(lower_char(s[i])) == lower_char(s[i])
        && lower_char(upper_char(s[i])) == lower_char(s[i]) by {}
    assert(lower(lower(s)) =~= lower(s));
    assert(lower(upper(s)) =~= lower(s));
}

/// Upper-casing after upper- or lower-casing gives the upper-cased string.
proof fn lemma_upper_of_cased(s: Seq<char>)
    ensures
        upper(upper(s)) == upper(s),
        upper(lower(s)) == upper(s),
{
    assert forall|i: int| 0 <= i < s.len() implies #[trigger] upper_char(upper_char(s[i])) == upper_char(s[i])
        && upper_char(lower_char(s[i])) == upper_char(s[i]) by {}
    assert(upper(upper(s)) =~= upper(s));
    assert(upper(lower(s)) =~= upper(s));
}

/// Every method's wire name parses back to it, and parsing ignores ASCII
/// case.
pub proof fn law_request_method_round_trip(m: RequestMethod, s: Seq<char>)
    ensures
        RequestMethod::spec_parse(m.name()) == Some(m),
        RequestMethod::spec_parse(lower(s)) == RequestMethod::spec_parse(s),
        RequestMethod::spec_parse(upper(s)) == RequestMethod::spec_parse(s),
{
    lemma_upper_of_cased(s);
    reveal_strlit("GET");
    reveal_strlit("POST");
    reveal_strlit("PUT");
    reveal_strlit("DELETE");
    reveal_strlit("PATCH");
    reveal_strlit("HEAD");
    reveal_strlit("OPTIONS");
    match m {
        RequestMethod::Get => {
            assert(upper("GET"@) =~= "GET"@);
            
        },
        RequestMethod::Post => {
            assert(upper("POST"@) =~= "POST"@);
            
        },
        RequestMethod::Put => {
            assert(upper("PUT"@) =~= "PUT"@);
            assert("PUT"@[0] != "GET"@[0]);
        },
        RequestMethod::Delete => {
            assert(upper("DELETE"@) =~= "DELETE"@);
            
        },
        RequestMethod::Patch => {
            assert(upper("PATCH"@) =~= "PATCH"@);
            
        },
        RequestMethod::Head => {
            assert(upper("HEAD"@) =~= "HEAD"@);
            assert("HEAD"@[0] != "POST"@[0]);
        },
        RequestMethod::Options => {
            assert(upper("OPTIONS"@) =~= "OPTIONS"@);
            
        },
    }
}

/// Every protocol's display name parses back to it, and parsing ignores
/// ASCII case.
pub proof fn law_protocol_round_trip(p: Protocol, s: Seq<char>)
    ensures
        Protocol::spec_parse(p.name()) == Some(p),
        Protocol::spec_parse(lower(s)) == Protocol::spec_parse(s),
        Protocol::spec_parse(upper(s)) == Protocol::spec_parse(s),
{
    lemma_lower_of_cased(s);
    reveal_strlit("HTTP");
    reveal_strlit("http");
    reveal_strlit("SSE");
    reveal_strlit("sse");
    reveal_strlit("WebSocket");
    reveal_strlit("websocket");
    reveal_strlit("TCP");
    reveal_strlit("tcp");
    reveal_strlit("gRPC");
    reveal_strlit("grpc");
    reveal_strlit("Socket.IO");
    reveal_strlit("socket.io");
    reveal_strlit("GraphQL");
    reveal_strlit("graphql");
    reveal_strlit("Markdown");
    reveal_strlit("markdown");
    reveal_strlit("目录");
    reveal_strlit("ws");
    reveal_strlit("socketio");
    reveal_strlit("directory");
    match p {
        Protocol::Http => {
            assert(lower("HTTP"@) =~= "http"@);
            
        },
        Protocol::Sse => {
            assert(lower("SSE"@) =~= "sse"@);
            
        },
        Protocol::WebSocket => {
            assert(lower("WebSocket"@) =~= "websocket"@);
            
        },
        Protocol::Tcp => {
            assert(lower("TCP"@) =~= "tcp"@);
            assert("tcp"@[0] != "sse"@[0]);
        },
        Protocol::Grpc => {
            assert(lower("gRPC"@) =~= "grpc"@);
            assert("grpc"@[0] != "http"@[0]);
        },
        Protocol::SocketIo => {
            assert(lower("Socket.IO"@) =~= "socket.io"@);
            assert("socket.io"@[0] != "websocket"@[0]);
        },
        Protocol::Graphql => {
            assert(lower("GraphQL"@) =~= "graphql"@);
            
        },
        Protocol::Markdown => {
            assert(lower("Markdown"@) =~= "markdown"@);
            assert("markdown"@[0] != "socketio"@[0]);
        },
        Protocol::Directory => {
            assert(lower("目录"@) =~= "目录"@);
            assert("目录"@[0] != "ws"@[0]);
        },
    }
}

/// Every column's key parses back to it, and parsing ignores ASCII case.
pub proof fn law_iface_column_round_trip(c: IfaceColumn, s: Seq<char>)
    ensures
        IfaceColumn::spec_parse(c.key()) == Some(c),
        IfaceColumn::spec_parse(lower(s)) == IfaceColumn::spec_parse(s),
        IfaceColumn::spec_parse(upper(s)) == IfaceColumn::spec_parse(s),
{
    lemma_lower_of_cased(s);
    reveal_strlit("name");
    reveal_strlit("method");
    reveal_strlit("path");
    reveal_strlit("folder");
    reveal_strlit("createdby");
    reveal_strlit("createdat");
    reveal_strlit("updatedby");
    reveal_strlit("updatedat");
    reveal_strlit("status");
    reveal_strlit("tags");
    match c {
        IfaceColumn::Name => {
            assert(lower("name"@) =~= "name"@);
            
        },
        IfaceColumn::Method => {
            assert(lower("method"@) =~= "method"@);
            
        },
        IfaceColumn::Path => {
            assert(lower("path"@) =~= "path"@);
            assert("path"@[0] != "name"@[0]);
        },
        IfaceColumn::Folder => {
            assert(lower("folder"@) =~= "folder"@);
            assert("folder"@[0] != "method"@[0]);
        },
        IfaceColumn::CreatedBy => {
            assert(lower("createdby"@) =~= "createdby"@);
            
        },
        IfaceColumn::CreatedAt => {
            assert(lower("createdat"@) =~= "createdat"@);
            assert("createdat"@[7] != "createdby"@[7]);
        },
        IfaceColumn::UpdatedBy => {
            assert(lower("updatedby"@) =~= "updatedby"@);
            assert("updatedby"@[0] != "createdby"@[0]);
            assert("updatedby"@[0] != "createdat"@[0]);
        },
        IfaceColumn::UpdatedAt => {
            assert(lower("updatedat"@) =~= "updatedat"@);
            assert("updatedat"@[0] != "createdby"@[0]);
            assert("updatedat"@[0] != "createdat"@[0]);
            assert("updatedat"@[7] != "updatedby"@[7]);
        },
        IfaceColumn::Status => {
            assert(lower("status"@) =~= "status"@);
            assert("status"@[0] != "method"@[0]);
            assert("status"@[0] != "folder"@[0]);
        },
        IfaceColumn::Tags => {
            assert(lower("tags"@) =~= "tags"@);
            assert("tags"@[0] != "name"@[0]);
            assert("tags"@[0] != "path"@[0]);
        },
    }
}

/// Every raw language's lower-case name and highlighter name parse back to
/// it, and parsing ignores ASCII case.
pub proof fn law_raw_language_round_trip(l: RawLanguage, s: Seq<char>)
    ensures
        RawLanguage::spec_parse_name(l.spec_lower_name()) == Some(l),
        RawLanguage::spec_parse_name(l.spec_highlight()) == Some(l),
        RawLanguage::spec_parse_name(lower(s)) == RawLanguage::spec_parse_name(s),
        RawLanguage::spec_parse_name(upper(s)) == RawLanguage::spec_parse_name(s),
{
    lemma_lower_of_cased(s);
    reveal_strlit("json");
    reveal_strlit("xml");
    reveal_strlit("text");
    reveal_strlit("html");
    reveal_strlit("javascript");
    match l {
        RawLanguage::Json => {
            assert(lower("json"@) =~= "json"@);
            
        },
        RawLanguage::Xml => {
            assert(lower("xml"@) =~= "xml"@);
            
        },
        RawLanguage::Text => {
            assert(lower("text"@) =~= "text"@);
            assert("text"@[0] != "json"@[0]);
        },
        RawLanguage::Html => {
            assert(lower("html"@) =~= "html"@);
            assert("html"@[0] != "json"@[0]);
            assert("html"@[0] != "text"@[0]);
        },
        RawLanguage::Javascript => {
            assert(lower("javascript"@) =~= "javascript"@);
            
        },
    }
}

} // verus!
