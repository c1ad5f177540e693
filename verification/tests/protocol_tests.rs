use rust_mcp_server::json::{Json, Member};
use rust_mcp_server::protocol::{
    jsonrpc_version, InitializeParams, InitializeResult, RequestEnvelope, ResourceDescription,
    ResponseEnvelope, ResponseError, ServerCapabilities, ServerInfo, ToolCallParams,
    ToolCallResult, ToolDescription, ToolListParams, ToolListResult, ToolResultContent,
    PROTOCOL_VERSION,
};

fn s(text: &str) -> Json {
    Json::Str(text.to_string())
}

fn obj(members: Vec<(&str, Json)>) -> Json {
    Json::Object(members.into_iter().map(|(n, v)| Member { name: n.to_string(), value: v }).collect())
}

#[test]
fn version_tags() {
    assert_eq!(jsonrpc_version(), "2.0");
    assert_eq!(PROTOCOL_VERSION, "2024-10-30");
}

#[test]
fn request_with_all_members() {
    let j = obj(vec![
        ("jsonrpc", s("2.0")),
        ("id", Json::Int(7)),
        ("method", s("ping")),
        ("params", obj(vec![("message", s("hi"))])),
        ("extra", Json::Bool(true)),
    ]);
    let r = RequestEnvelope::from_json(&j).expect("request");
    assert_eq!(r.protocol, "2.0");
    assert_eq!(r.id, Some(Json::Int(7)));
    assert_eq!(r.method, "ping");
    assert_eq!(r.params, obj(vec![("message", s("hi"))]));
}

#[test]
fn request_defaults() {
    let r = RequestEnvelope::from_json(&obj(vec![("method", s("ping"))])).expect("request");
    assert_eq!(r.protocol, "2.0");
    assert_eq!(r.id, None);
    assert_eq!(r.params, Json::Object(Vec::new()));
    let r = RequestEnvelope::from_json(&obj(vec![("id", Json::Null), ("method", s("x")), ("jsonrpc", s("1.0"))]))
        .expect("request");
    assert_eq!(r.id, None);
    assert_eq!(r.protocol, "1.0");
}

#[test]
fn request_keeps_a_string_id() {
    let r = RequestEnvelope::from_json(&obj(vec![("id", s("abc")), ("method", s("x"))])).expect("request");
    assert_eq!(r.id, Some(s("abc")));
}

#[test]
fn what_is_no_request_is_refused() {
    assert_eq!(RequestEnvelope::from_json(&Json::Null), None);
    assert_eq!(RequestEnvelope::from_json(&Json::Array(Vec::new())), None);
    assert_eq!(RequestEnvelope::from_json(&obj(vec![("id", Json::Int(1))])), None);
    assert_eq!(RequestEnvelope::from_json(&obj(vec![("method", Json::Int(1))])), None);
    assert_eq!(RequestEnvelope::from_json(&obj(vec![("method", s("x")), ("jsonrpc", Json::Int(2))])), None);
}

#[test]
fn success_response_has_no_error_member() {
    let r = ResponseEnvelope::success(Json::Int(1), obj(vec![("ok", Json::Bool(true))]));
    assert_eq!(
        r.to_json(),
        obj(vec![("jsonrpc", s("2.0")), ("id", Json::Int(1)), ("result", obj(vec![("ok", Json::Bool(true))]))])
    );
}

#[test]
fn error_response_has_no_result_member() {
    let e = ResponseError { code: -32601, message: "nope".to_string(), data: None };
    let r = ResponseEnvelope::error(s("a"), e);
    assert_eq!(
        r.to_json(),
        obj(vec![
            ("jsonrpc", s("2.0")),
            ("id", s("a")),
            ("error", obj(vec![("code", Json::Int(-32601)), ("message", s("nope"))])),
        ])
    );
    let e = ResponseError { code: -32010, message: "m".to_string(), data: Some(Json::Int(3)) };
    assert_eq!(e.to_json(), obj(vec![("code", Json::Int(-32010)), ("message", s("m")), ("data", Json::Int(3))]));
}

#[test]
fn json_lookup_takes_the_first_member() {
    let j = obj(vec![("a", Json::Int(1)), ("b", s("x")), ("a", Json::Int(2))]);
    assert_eq!(j.get("a"), Some(&Json::Int(1)));
    assert_eq!(j.get_str("b"), Some("x"));
    assert_eq!(j.get_str("a"), None);
    assert_eq!(j.get("c"), None);
    assert_eq!(Json::Int(1).get("a"), None);
    assert_eq!(s("x").as_str(), Some("x"));
    assert_eq!(Json::Null.as_str(), None);
}

#[test]
fn json_duplicate_is_equal() {
    let j = obj(vec![
        ("a", Json::Array(vec![Json::Null, Json::Bool(false), Json::Real("1.5".to_string())])),
        ("b", obj(vec![("c", s("d"))])),
    ]);
    assert_eq!(j.duplicate(), j);
}

#[test]
fn initialize_params_need_a_client_name() {
    let p = InitializeParams::from_json(&obj(vec![
        ("client", obj(vec![("name", s("c")), ("version", s("1"))])),
        ("protocol_version", s("2025-01-01")),
        ("capabilities", obj(vec![("experimental", Json::Bool(true))])),
    ]))
    .expect("params");
    assert_eq!(p.client.name, "c");
    assert_eq!(p.client.version, Some("1".to_string()));
    assert_eq!(p.protocol_version, Some("2025-01-01".to_string()));
    assert_eq!(p.capabilities.experimental, Json::Bool(true));
    let p = InitializeParams::from_json(&obj(vec![("client", obj(vec![("name", s("c"))]))])).expect("params");
    assert_eq!(p.client.version, None);
    assert_eq!(p.protocol_version, None);
    assert_eq!(p.capabilities.experimental, Json::Null);
    assert_eq!(InitializeParams::from_json(&obj(vec![])), None);
    assert_eq!(InitializeParams::from_json(&obj(vec![("client", obj(vec![]))])), None);
    assert_eq!(InitializeParams::from_json(&obj(vec![("client", obj(vec![("name", Json::Int(1))]))])), None);
}

#[test]
fn tool_call_params_need_a_name() {
    let p = ToolCallParams::from_json(&obj(vec![("name", s("app.x")), ("arguments", obj(vec![("script", s("y"))]))]))
        .expect("params");
    assert_eq!(p.name, "app.x");
    assert_eq!(p.arguments, obj(vec![("script", s("y"))]));
    let p = ToolCallParams::from_json(&obj(vec![("name", s("app.x"))])).expect("params");
    assert_eq!(p.arguments, Json::Null);
    assert_eq!(ToolCallParams::from_json(&obj(vec![("arguments", obj(vec![]))])), None);
    assert_eq!(ToolCallParams::from_json(&Json::Null), None);
}

#[test]
fn tool_list_params_accept_anything() {
    assert_eq!(ToolListParams::from_json(&Json::Null), ToolListParams::default());
    assert_eq!(ToolListParams::from_json(&obj(vec![("cursor", s("c"))])).cursor, Some("c".to_string()));
    assert_eq!(ToolListParams::from_json(&obj(vec![("cursor", Json::Int(1))])).cursor, None);
}

#[test]
fn capabilities_leave_out_what_is_empty() {
    assert_eq!(ServerCapabilities::default().to_json(), obj(vec![]));
    let caps = ServerCapabilities {
        tools: vec![ToolDescription { name: "n".to_string(), description: "d".to_string(), input_schema: None }],
        resources: vec![ResourceDescription { uri: "u".to_string(), description: "r".to_string() }],
        logging: Some(Json::Bool(true)),
        experimental: Some(Json::Null),
    };
    assert_eq!(
        caps.to_json(),
        obj(vec![
            ("tools", Json::Array(vec![obj(vec![("name", s("n")), ("description", s("d"))])])),
            ("resources", Json::Array(vec![obj(vec![("uri", s("u")), ("description", s("r"))])])),
            ("logging", Json::Bool(true)),
            ("experimental", Json::Null),
        ])
    );
}

#[test]
fn server_info_sends_a_missing_version_as_null() {
    let info = ServerInfo { name: "n".to_string(), version: None, description: None };
    assert_eq!(info.to_json(), obj(vec![("name", s("n")), ("version", Json::Null)]));
    let info = ServerInfo { name: "n".to_string(), version: Some("1".to_string()), description: Some("d".to_string()) };
    assert_eq!(info.to_json(), obj(vec![("name", s("n")), ("version", s("1")), ("description", s("d"))]));
}

#[test]
fn results_on_the_wire() {
    let init = InitializeResult {
        protocol_version: "v".to_string(),
        capabilities: ServerCapabilities::default(),
        server_info: ServerInfo { name: "n".to_string(), version: None, description: None },
    };
    assert_eq!(
        init.to_json(),
        obj(vec![
            ("protocol_version", s("v")),
            ("capabilities", obj(vec![])),
            ("server_info", obj(vec![("name", s("n")), ("version", Json::Null)])),
        ])
    );
    let list = ToolListResult { tools: Vec::new(), next_cursor: None };
    assert_eq!(list.to_json(), obj(vec![("tools", Json::Array(Vec::new()))]));
    let list = ToolListResult { tools: Vec::new(), next_cursor: Some("c".to_string()) };
    assert_eq!(list.to_json(), obj(vec![("tools", Json::Array(Vec::new())), ("next_cursor", s("c"))]));
    let call = ToolCallResult {
        content: vec![ToolResultContent { kind: "text".to_string(), text: "out".to_string() }],
    };
    assert_eq!(
        call.to_json(),
        obj(vec![("content", Json::Array(vec![obj(vec![("type", s("text")), ("text", s("out"))])]))])
    );
}
