//! JSON-RPC envelopes and the payloads of the server's methods.

use vstd::prelude::*;
use crate::json::{Json, JsonValue, MemberValue, entry, opt_value, json_str, json_object, json_array, no_members, push_member, items_value};

verus! {

/// The protocol version that the server offers where the client asks for none.
pub const PROTOCOL_VERSION: &'static str = "2024-10-30";

/// The method is not known to the server.
pub const METHOD_NOT_FOUND: i64 = -32601;

/// The request cannot be served as it stands: a second `initialize`,
/// or parameters that the method cannot use.
pub const INVALID_REQUEST: i64 = -32600;

/// The tool ran and reported a failure.
pub const TOOL_FAILED: i64 = -32010;

/// The JSON-RPC version tag.
pub fn jsonrpc_version() -> (r: String)
    ensures
        r@ == "2.0"@,
{
    "2.0".to_owned()
}

/// A request, or a notification where `id` is `None`.
#[derive(Debug, PartialEq, Eq)]
pub struct RequestEnvelope {
    pub protocol: String,
    pub id: Option<Json>,
    pub method: String,
    pub params: Json,
}

/// A structured error.
#[derive(Debug, PartialEq, Eq)]
pub struct ResponseError {
    pub code: i64,
    pub message: String,
    pub data: Option<Json>,
}

/// A response: exactly one of `result` and `error` is present.
#[derive(Debug, PartialEq, Eq)]
pub struct ResponseEnvelope {
    pub protocol: String,
    pub id: Json,
    pub result: Option<Json>,
    pub error: Option<ResponseError>,
}

/// Whether a JSON value can be read as a request: an object whose
/// `method` is a string and whose `jsonrpc`, if present, is a string too.
pub open spec fn is_request(j: JsonValue) -> bool {
    &&& j is Object
    &&& j.text_field("method"@).is_some()
    &&& j.field("jsonrpc"@).is_some() ==> j.text_field("jsonrpc"@).is_some()
}

/// The correlation id that a request carries: none where `id` is absent or null.
pub open spec fn request_id(j: JsonValue) -> Option<JsonValue> {
    match j.field("id"@) {
        Some(JsonValue::Null) => None,
        other => other,
    }
}

/// The version tag of a request: `"2.0"` where it names none.
pub open spec fn request_protocol(j: JsonValue) -> Seq<char> {
    match j.text_field("jsonrpc"@) {
        Some(v) => v,
        None => "2.0"@,
    }
}

/// The parameters of a request: an empty object where it has none.
pub open spec fn request_params(j: JsonValue) -> JsonValue {
    match j.field("params"@) {
        Some(p) => p,
        None => JsonValue::Object(Seq::<MemberValue>::empty()),
    }
}

impl RequestEnvelope {
    /// Reads a request from a JSON value. Members that the envelope does
    /// not know are ignored.
    pub fn from_json(j: &Json) -> (r: Option<RequestEnvelope>)
        ensures
            r.is_some() == is_request(j@),
            r matches Some(e) ==> {
                &&& Some(e.method@) == j@.text_field("method"@)
                &&& e.protocol@ == request_protocol(j@)
                &&& opt_value(e.id) == request_id(j@)
                &&& e.params@ == request_params(j@)
            },
    {
        match j {
            Json::Object(_) => {},
            _ => {
                return None;
            },
        }
        let method = match j.get_str("method") {
            Some(m) => m.to_owned(),
            None => {
                return None;
            },
        };
        let protocol = match j.get("jsonrpc") {
            Some(v) => match v.as_str() {
                Some(p) => p.to_owned(),
                None => {
                    return None;
                },
            },
            None => jsonrpc_version(),
        };
        let id = match j.get("id") {
            Some(Json::Null) => None,
            Some(v) => Some(v.duplicate()),
            None => None,
        };
        let params = match j.get("params") {
            Some(p) => p.duplicate(),
            None => json_object(no_members()),
        };
        Some(RequestEnvelope { protocol, id, method, params })
    }
}

impl ResponseError {
    /// The members of the error as it goes on the wire: `data` is left
    /// out where there is none.
    pub open spec fn members(self) -> Seq<MemberValue> {
        let base = Seq::<MemberValue>::empty().push(entry("code"@, JsonValue::Int(self.code as int))).push(
            entry("message"@, JsonValue::Str(self.message@)),
        );
        match self.data {
            Some(d) => base.push(entry("data"@, d@)),
            None => base,
        }
    }

    /// The JSON form of the error.
    pub fn to_json(&self) -> (r: Json)
        ensures
            r@ == JsonValue::Object(self.members()),
    {
        let mut m = no_members();
        push_member(&mut m, "code", Json::Int(self.code));
        push_member(&mut m, "message", json_str(self.message.as_str()));
        match &self.data {
            Some(d) => {
                push_member(&mut m, "data", d.duplicate());
            },
            None => {},
        }
        json_object(m)
    }
}

impl ResponseEnvelope {
    /// The answer to the request `id` that carries `result`.
    pub fn success(id: Json, result: Json) -> (r: ResponseEnvelope)
        ensures
            r.protocol@ == "2.0"@,
            r.id == id,
            r.result == Some(result),
            r.error.is_none(),
            r.well_formed(),
    {
        ResponseEnvelope { protocol: jsonrpc_version(), id, result: Some(result), error: None }
    }

    /// The answer to the request `id` that reports `error`.
    pub fn error(id: Json, error: ResponseError) -> (r: ResponseEnvelope)
        ensures
            r.protocol@ == "2.0"@,
            r.id == id,
            r.result.is_none(),
            r.error == Some(error),
            r.well_formed(),
    {
        ResponseEnvelope { protocol: jsonrpc_version(), id, result: None, error: Some(error) }
    }

    /// Exactly one of result and error is there.
    pub open spec fn well_formed(self) -> bool {
        self.result.is_some() != self.error.is_some()
    }

    /// The members of the response as it goes on the wire: the version
    /// tag, the id, then whichever of `result` and `error` is present.
    pub open spec fn members(self) -> Seq<MemberValue> {
        let base = Seq::<MemberValue>::empty().push(entry("jsonrpc"@, JsonValue::Str(self.protocol@))).push(
            entry("id"@, self.id@),
        );
        let with_result = match self.result {
            Some(r) => base.push(entry("result"@, r@)),
            None => base,
        };
        match self.error {
            Some(e) => with_result.push(entry("error"@, JsonValue::Object(e.members()))),
            None => with_result,
        }
    }

    /// The JSON form of the response.
    pub fn to_json(&self) -> (r: Json)
        ensures
            r@ == JsonValue::Object(self.members()),
    {
        let mut m = no_members();
        push_member(&mut m, "jsonrpc", json_str(self.protocol.as_str()));
        push_member(&mut m, "id", self.id.duplicate());
        match &self.result {
            Some(v) => {
                push_member(&mut m, "result", v.duplicate());
            },
            None => {},
        }
        match &self.error {
            Some(e) => {
                push_member(&mut m, "error", e.to_json());
            },
            None => {},
        }
        json_object(m)
    }
}

/// What a client is told of one tool.
#[derive(Debug, PartialEq, Eq)]
pub struct ToolDescription {
    pub name: String,
    pub description: String,
    pub input_schema: Option<Json>,
}

/// The schema of a tool's arguments: an object that must hold the string `script`.
pub open spec fn input_schema() -> JsonValue {
    JsonValue::Object(
        Seq::<MemberValue>::empty().push(
            entry(
                "properties"@,
                JsonValue::Object(
                    Seq::<MemberValue>::empty().push(
                        entry(
                            "script"@,
                            JsonValue::Object(
                                Seq::<MemberValue>::empty().push(
                                    entry(
                                        "description"@,
                                        JsonValue::Str(
                                            "AppleScript commands to execute inside a 'tell application' block"@,
                                        ),
                                    ),
                                ).push(entry("type"@, JsonValue::Str("string"@))),
                            ),
                        ),
                    ),
                ),
            ),
        ).push(
            entry(
                "required"@,
                JsonValue::Array(Seq::<JsonValue>::empty().push(JsonValue::Str("script"@))),
            ),
        ).push(entry("type"@, JsonValue::Str("object"@))),
    )
}

/// Builds the schema of a tool's arguments.
pub fn script_schema() -> (r: Json)
    ensures
        r@ == input_schema(),
{
    let mut script = no_members();
    push_member(
        &mut script,
        "description",
        json_str("AppleScript commands to execute inside a 'tell application' block"),
    );
    push_member(&mut script, "type", json_str("string"));
    let mut properties = no_members();
    push_member(&mut properties, "script", json_object(script));
    let mut required: Vec<Json> = Vec::new();
    required.push(json_str("script"));
    proof {
        assert(items_value(required@) =~= Seq::<JsonValue>::empty().push(JsonValue::Str("script"@)));
    }
    let mut schema = no_members();
    push_member(&mut schema, "properties", json_object(properties));
    push_member(&mut schema, "required", json_array(required));
    push_member(&mut schema, "type", json_str("object"));
    json_object(schema)
}

impl ToolDescription {
    /// The descriptor's value on the wire.
    pub open spec fn value(self) -> JsonValue {
        JsonValue::Object(self.members())
    }

    /// The members of the descriptor as it goes on the wire: the schema
    /// is left out where there is none.
    pub open spec fn members(self) -> Seq<MemberValue> {
        let base = Seq::<MemberValue>::empty().push(entry("name"@, JsonValue::Str(self.name@))).push(
            entry("description"@, JsonValue::Str(self.description@)),
        );
        match self.input_schema {
            Some(s) => base.push(entry("input_schema"@, s@)),
            None => base,
        }
    }

    /// The JSON form of the descriptor.
    pub fn to_json(&self) -> (r: Json)
        ensures
            r@ == JsonValue::Object(self.members()),
    {
        let mut m = no_members();
        push_member(&mut m, "name", json_str(self.name.as_str()));
        push_member(&mut m, "description", json_str(self.description.as_str()));
        match &self.input_schema {
            Some(s) => {
                push_member(&mut m, "input_schema", s.duplicate());
            },
            None => {},
        }
        json_object(m)
    }
}

/// The values of a list of tool descriptors.
pub open spec fn tool_values(s: Seq<ToolDescription>) -> Seq<JsonValue> {
    Seq::new(s.len(), |i: int| s[i].value())
}

/// The JSON array of a list of tool descriptors.
pub fn tools_to_json(tools: &Vec<ToolDescription>) -> (r: Json)
    ensures
        r@ == JsonValue::Array(tool_values(tools@)),
{
    let mut out: Vec<Json> = Vec::new();
    let mut i: usize = 0;
    while i < tools.len()
        invariant
            i <= tools@.len(),
            out@.len() == i,
            forall|k: int| 0 <= k < i ==> (#[trigger] out@[k])@ == tools@[k].value(),
        decreases tools@.len() - i,
    {
        out.push(tools[i].to_json());
        i = i + 1;
    }
    proof {
        assert(items_value(out@) =~= tool_values(tools@));
    }
    json_array(out)
}

/// A resource that the server offers.
#[derive(Debug, PartialEq, Eq)]
pub struct ResourceDescription {
    pub uri: String,
    pub description: String,
}

impl ResourceDescription {
    /// The resource's value on the wire.
    pub open spec fn value(self) -> JsonValue {
        JsonValue::Object(
            Seq::<MemberValue>::empty().push(entry("uri"@, JsonValue::Str(self.uri@))).push(
                entry("description"@, JsonValue::Str(self.description@)),
            ),
        )
    }

    /// The JSON form of the resource.
    pub fn to_json(&self) -> (r: Json)
        ensures
            r@ == self.value(),
    {
        let mut m = no_members();
        push_member(&mut m, "uri", json_str(self.uri.as_str()));
        push_member(&mut m, "description", json_str(self.description.as_str()));
        json_object(m)
    }
}

/// The values of a list of resources.
pub open spec fn resource_values(s: Seq<ResourceDescription>) -> Seq<JsonValue> {
    Seq::new(s.len(), |i: int| s[i].value())
}

/// The JSON array of a list of resources.
pub fn resources_to_json(resources: &Vec<ResourceDescription>) -> (r: Json)
    ensures
        r@ == JsonValue::Array(resource_values(resources@)),
{
    let mut out: Vec<Json> = Vec::new();
    let mut i: usize = 0;
    while i < resources.len()
        invariant
            i <= resources@.len(),
            out@.len() == i,
            forall|k: int| 0 <= k < i ==> (#[trigger] out@[k])@ == resources@[k].value(),
        decreases resources@.len() - i,
    {
        out.push(resources[i].to_json());
        i = i + 1;
    }
    proof {
        assert(items_value(out@) =~= resource_values(resources@));
    }
    json_array(out)
}

/// Who the server is.
#[derive(Debug, PartialEq, Eq)]
pub struct ServerInfo {
    pub name: String,
    pub version: Option<String>,
    pub description: Option<String>,
}

impl ServerInfo {
    /// The value on the wire: a missing version is sent as null, a
    /// missing description is left out.
    pub open spec fn value(self) -> JsonValue {
        let base = Seq::<MemberValue>::empty().push(entry("name"@, JsonValue::Str(self.name@))).push(
            entry(
                "version"@,
                match self.version {
                    Some(v) => JsonValue::Str(v@),
                    None => JsonValue::Null,
                },
            ),
        );
        JsonValue::Object(
            match self.description {
                Some(d) => base.push(entry("description"@, JsonValue::Str(d@))),
                None => base,
            },
        )
    }

    /// The JSON form.
    pub fn to_json(&self) -> (r: Json)
        ensures
            r@ == self.value(),
    {
        let mut m = no_members();
        push_member(&mut m, "name", json_str(self.name.as_str()));
        let version = match &self.version {
            Some(v) => json_str(v.as_str()),
            None => Json::Null,
        };
        push_member(&mut m, "version", version);
        match &self.description {
            Some(d) => {
                push_member(&mut m, "description", json_str(d.as_str()));
            },
            None => {},
        }
        json_object(m)
    }
}

/// What the server can do.
#[derive(Debug, PartialEq, Eq)]
pub struct ServerCapabilities {
    pub tools: Vec<ToolDescription>,
    pub resources: Vec<ResourceDescription>,
    pub logging: Option<Json>,
    pub experimental: Option<Json>,
}

/// The capabilities on the wire, given the values of their parts: an
/// empty list and a missing option are left out.
pub open spec fn capabilities_value(
    tools: Seq<JsonValue>,
    resources: Seq<JsonValue>,
    logging: Option<JsonValue>,
    experimental: Option<JsonValue>,
) -> JsonValue {
    let a = Seq::<MemberValue>::empty();
    let b = if tools.len() > 0 {
        a.push(entry("tools"@, JsonValue::Array(tools)))
    } else {
        a
    };
    let c = if resources.len() > 0 {
        b.push(entry("resources"@, JsonValue::Array(resources)))
    } else {
        b
    };
    let d = match logging {
        Some(l) => c.push(entry("logging"@, l)),
        None => c,
    };
    JsonValue::Object(
        match experimental {
            Some(e) => d.push(entry("experimental"@, e)),
            None => d,
        },
    )
}

/// The JSON form of capabilities that list `tools` and take everything
/// else from `rest`.
pub fn capabilities_json(tools: &Vec<ToolDescription>, rest: &ServerCapabilities) -> (r: Json)
    ensures
        r@ == capabilities_value(
            tool_values(tools@),
            resource_values(rest.resources@),
            opt_value(rest.logging),
            opt_value(rest.experimental),
        ),
{
    let mut m = no_members();
    if tools.len() > 0 {
        push_member(&mut m, "tools", tools_to_json(tools));
    }
    if rest.resources.len() > 0 {
        push_member(&mut m, "resources", resources_to_json(&rest.resources));
    }
    match &rest.logging {
        Some(l) => {
            push_member(&mut m, "logging", l.duplicate());
        },
        None => {},
    }
    match &rest.experimental {
        Some(e) => {
            push_member(&mut m, "experimental", e.duplicate());
        },
        None => {},
    }
    json_object(m)
}

impl ServerCapabilities {
    /// The value on the wire.
    pub open spec fn value(self) -> JsonValue {
        capabilities_value(
            tool_values(self.tools@),
            resource_values(self.resources@),
            opt_value(self.logging),
            opt_value(self.experimental),
        )
    }

    /// The JSON form.
    pub fn to_json(&self) -> (r: Json)
        ensures
            r@ == self.value(),
    {
        capabilities_json(&self.tools, self)
    }
}

impl Default for ServerCapabilities {
    fn default() -> (r: ServerCapabilities)
        ensures
            r.tools@.len() == 0,
            r.resources@.len() == 0,
            r.logging.is_none(),
            r.experimental.is_none(),
    {
        ServerCapabilities {
            tools: Vec::new(),
            resources: Vec::new(),
            logging: None,
            experimental: None,
        }
    }
}

/// The result of `initialize` on the wire, given the values of its parts.
pub open spec fn initialize_value(version: Seq<char>, capabilities: JsonValue, info: JsonValue) -> JsonValue {
    JsonValue::Object(
        Seq::<MemberValue>::empty().push(entry("protocol_version"@, JsonValue::Str(version))).push(
            entry("capabilities"@, capabilities),
        ).push(entry("server_info"@, info)),
    )
}

/// The result of a successful `initialize`.
#[derive(Debug, PartialEq, Eq)]
pub struct InitializeResult {
    pub protocol_version: String,
    pub capabilities: ServerCapabilities,
    pub server_info: ServerInfo,
}

impl InitializeResult {
    /// The value on the wire.
    pub open spec fn value(self) -> JsonValue {
        initialize_value(self.protocol_version@, self.capabilities.value(), self.server_info.value())
    }

    /// The JSON form.
    pub fn to_json(&self) -> (r: Json)
        ensures
            r@ == self.value(),
    {
        let mut m = no_members();
        push_member(&mut m, "protocol_version", json_str(self.protocol_version.as_str()));
        push_member(&mut m, "capabilities", self.capabilities.to_json());
        push_member(&mut m, "server_info", self.server_info.to_json());
        json_object(m)
    }
}

/// The result of `tools/list` on the wire: the cursor is left out where
/// there is none.
pub open spec fn tool_list_value(tools: Seq<JsonValue>, next_cursor: Option<Seq<char>>) -> JsonValue {
    let base = Seq::<MemberValue>::empty().push(entry("tools"@, JsonValue::Array(tools)));
    JsonValue::Object(
        match next_cursor {
            Some(c) => base.push(entry("next_cursor"@, JsonValue::Str(c))),
            None => base,
        },
    )
}

/// The parameters of `tools/list`.
#[derive(Debug, PartialEq, Eq)]
pub struct ToolListParams {
    pub cursor: Option<String>,
}

impl ToolListParams {
    /// Reads the parameters: the cursor is the string member `cursor`,
    /// where there is one. Nothing is refused.
    pub fn from_json(j: &Json) -> (r: ToolListParams)
        ensures
            r.cursor.is_some() == j@.text_field("cursor"@).is_some(),
            r.cursor matches Some(c) ==> Some(c@) == j@.text_field("cursor"@),
    {
        match j.get_str("cursor") {
            Some(c) => ToolListParams { cursor: Some(c.to_owned()) },
            None => ToolListParams { cursor: None },
        }
    }
}

impl Default for ToolListParams {
    fn default() -> (r: ToolListParams)
        ensures
            r.cursor.is_none(),
    {
        ToolListParams { cursor: None }
    }
}

/// The result of `tools/list`.
#[derive(Debug, PartialEq, Eq)]
pub struct ToolListResult {
    pub tools: Vec<ToolDescription>,
    pub next_cursor: Option<String>,
}

impl ToolListResult {
    /// The value on the wire.
    pub open spec fn value(self) -> JsonValue {
        tool_list_value(
            tool_values(self.tools@),
            match self.next_cursor {
                Some(c) => Some(c@),
                None => None,
            },
        )
    }

    /// The JSON form.
    pub fn to_json(&self) -> (r: Json)
        ensures
            r@ == self.value(),
    {
        let mut m = no_members();
        push_member(&mut m, "tools", tools_to_json(&self.tools));
        match &self.next_cursor {
            Some(c) => {
                push_member(&mut m, "next_cursor", json_str(c.as_str()));
            },
            None => {},
        }
        json_object(m)
    }
}

/// One piece of what a tool returned.
#[derive(Debug, PartialEq, Eq)]
pub struct ToolResultContent {
    /// The kind of content, sent as the member `type`.
    pub kind: String,
    pub text: String,
}

impl ToolResultContent {
    /// The value on the wire.
    pub open spec fn value(self) -> JsonValue {
        JsonValue::Object(
            Seq::<MemberValue>::empty().push(entry("type"@, JsonValue::Str(self.kind@))).push(
                entry("text"@, JsonValue::Str(self.text@)),
            ),
        )
    }

    /// The JSON form.
    pub fn to_json(&self) -> (r: Json)
        ensures
            r@ == self.value(),
    {
        let mut m = no_members();
        push_member(&mut m, "type", json_str(self.kind.as_str()));
        push_member(&mut m, "text", json_str(self.text.as_str()));
        json_object(m)
    }
}

/// The values of a list of contents.
pub open spec fn content_values(s: Seq<ToolResultContent>) -> Seq<JsonValue> {
    Seq::new(s.len(), |i: int| s[i].value())
}

/// The result of `tools/call`.
#[derive(Debug, PartialEq, Eq)]
pub struct ToolCallResult {
    pub content: Vec<ToolResultContent>,
}

impl ToolCallResult {
    /// The value on the wire.
    pub open spec fn value(self) -> JsonValue {
        JsonValue::Object(
            Seq::<MemberValue>::empty().push(
                entry("content"@, JsonValue::Array(content_values(self.content@))),
            ),
        )
    }

    /// The JSON form.
    pub fn to_json(&self) -> (r: Json)
        ensures
            r@ == self.value(),
    {
        let mut out: Vec<Json> = Vec::new();
        let mut i: usize = 0;
        while i < self.content.len()
            invariant
                i <= self.content@.len(),
                out@.len() == i,
                forall|k: int| 0 <= k < i ==> (#[trigger] out@[k])@ == self.content@[k].value(),
            decreases self.content@.len() - i,
        {
            out.push(self.content[i].to_json());
            i = i + 1;
        }
        proof {
            assert(items_value(out@) =~= content_values(self.content@));
        }
        let mut m = no_members();
        push_member(&mut m, "content", json_array(out));
        json_object(m)
    }
}

/// Who the client says it is.
#[derive(Debug, PartialEq, Eq)]
pub struct ClientIdentity {
    pub name: String,
    pub version: Option<String>,
}

/// What the client says it can do.
#[derive(Debug, PartialEq, Eq)]
pub struct ClientCapabilities {
    pub experimental: Json,
}

/// The parameters of `initialize`.
#[derive(Debug, PartialEq, Eq)]
pub struct InitializeParams {
    pub client: ClientIdentity,
    pub capabilities: ClientCapabilities,
    pub protocol_version: Option<String>,
}

/// The member `experimental` of the member `capabilities`; null where
/// either is missing.
pub open spec fn client_experimental(j: JsonValue) -> JsonValue {
    match j.field("capabilities"@) {
        Some(c) => match c.field("experimental"@) {
            Some(e) => e,
            None => JsonValue::Null,
        },
        None => JsonValue::Null,
    }
}

/// Whether a value can be read as the parameters of `initialize`: its
/// member `client` has a string member `name`.
pub open spec fn is_initialize_params(j: JsonValue) -> bool {
    j.field("client"@) matches Some(c) && c.text_field("name"@).is_some()
}

impl InitializeParams {
    /// Reads the parameters of `initialize`.
    pub fn from_json(j: &Json) -> (r: Option<InitializeParams>)
        ensures
            r.is_some() == is_initialize_params(j@),
            r matches Some(p) ==> {
                &&& j@.field("client"@) matches Some(c) && Some(p.client.name@) == c.text_field("name"@)
                    && p.client.version.is_some() == c.text_field("version"@).is_some()
                    && (p.client.version matches Some(v) ==> Some(v@) == c.text_field("version"@))
                &&& p.protocol_version.is_some() == j@.text_field("protocol_version"@).is_some()
                &&& p.protocol_version matches Some(v) ==> Some(v@) == j@.text_field(
                    "protocol_version"@,
                )
                &&& p.capabilities.experimental@ == client_experimental(j@)
            },
    {
        let client = match j.get("client") {
            Some(c) => c,
            None => {
                return None;
            },
        };
        let name = match client.get_str("name") {
            Some(n) => n.to_owned(),
            None => {
                return None;
            },
        };
        let version = match client.get_str("version") {
            Some(v) => Some(v.to_owned()),
            None => None,
        };
        let protocol_version = match j.get_str("protocol_version") {
            Some(v) => Some(v.to_owned()),
            None => None,
        };
        let experimental = match j.get("capabilities") {
            Some(c) => match c.get("experimental") {
                Some(e) => e.duplicate(),
                None => Json::Null,
            },
            None => Json::Null,
        };
        Some(
            InitializeParams {
                client: ClientIdentity { name, version },
                capabilities: ClientCapabilities { experimental },
                protocol_version,
            },
        )
    }
}

/// The parameters of `tools/call`.
#[derive(Debug, PartialEq, Eq)]
pub struct ToolCallParams {
    pub name: String,
    pub arguments: Json,
}

/// The member `arguments`; null where it is missing.
pub open spec fn call_arguments(j: JsonValue) -> JsonValue {
    match j.field("arguments"@) {
        Some(a) => a,
        None => JsonValue::Null,
    }
}

impl ToolCallParams {
    /// Reads the parameters of `tools/call`: the member `name` must be
    /// a string.
    pub fn from_json(j: &Json) -> (r: Option<ToolCallParams>)
        ensures
            r.is_some() == j@.text_field("name"@).is_some(),
            r matches Some(p) ==> Some(p.name@) == j@.text_field("name"@) && p.arguments@
                == call_arguments(j@),
    {
        let name = match j.get_str("name") {
            Some(n) => n.to_owned(),
            None => {
                return None;
            },
        };
        let arguments = match j.get("arguments") {
            Some(a) => a.duplicate(),
            None => Json::Null,
        };
        Some(ToolCallParams { name, arguments })
    }
}

} // verus!
