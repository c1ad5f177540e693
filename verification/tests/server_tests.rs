use rust_mcp_server::client::{build_request, call_params, opening_params, ClientOptions};
use rust_mcp_server::config::{Cli, ConfigError, TransportConfig, TransportKind};
use rust_mcp_server::json::{Json, Member};
use rust_mcp_server::protocol::{RequestEnvelope, ResponseEnvelope};
use rust_mcp_server::server::{build_applescript, Action, Server, ToolOutput};
use rust_mcp_server::state::AppState;
use rust_mcp_server::tools::{load_tools, DirItem, Tool};

fn s(text: &str) -> Json {
    Json::Str(text.to_string())
}

fn obj(members: Vec<(&str, Json)>) -> Json {
    Json::Object(members.into_iter().map(|(n, v)| Member { name: n.to_string(), value: v }).collect())
}

fn server() -> Server {
    let root = vec![
        DirItem { file_name: "Finder.pdf".to_string(), is_dir: false },
        DirItem { file_name: "text".to_string(), is_dir: true },
    ];
    let text = vec![DirItem { file_name: "Notes.txt".to_string(), is_dir: false }];
    Server::new(AppState::default(), load_tools(Some(&root), Some(&text)))
}

fn request(id: Option<Json>, method: &str, params: Json) -> RequestEnvelope {
    RequestEnvelope { protocol: "2.0".to_string(), id, method: method.to_string(), params }
}

fn reply(a: Action) -> ResponseEnvelope {
    match a {
        Action::Reply(r) => r,
        other => panic!("no reply: {:?}", other),
    }
}

fn error_of(r: &ResponseEnvelope) -> (i64, String, Option<Json>) {
    assert!(r.result.is_none());
    let e = r.error.as_ref().expect("error");
    (e.code, e.message.clone(), e.data.as_ref().map(|d| d.duplicate()))
}

fn schema() -> Json {
    obj(vec![
        (
            "properties",
            obj(vec![(
                "script",
                obj(vec![
                    ("description", s("AppleScript commands to execute inside a 'tell application' block")),
                    ("type", s("string")),
                ]),
            )]),
        ),
        ("required", Json::Array(vec![s("script")])),
        ("type", s("object")),
    ])
}

fn catalog() -> Json {
    Json::Array(vec![
        obj(vec![
            ("name", s("app.finder")),
            ("description", s("Execute AppleScript commands in the Finder application context.")),
            ("input_schema", schema()),
        ]),
        obj(vec![
            ("name", s("app.notes")),
            ("description", s("Execute AppleScript commands in the Notes application context.")),
            ("input_schema", schema()),
        ]),
    ])
}

#[test]
fn program_wraps_the_script() {
    let tool = Tool::new("Finder".to_string());
    assert_eq!(
        build_applescript(&tool, "activate"),
        "tell application \"Finder\"\nactivate\nend tell\n"
    );
    assert_eq!(
        build_applescript(&tool, "activate\n"),
        "tell application \"Finder\"\nactivate\nend tell\n"
    );
    assert_eq!(
        build_applescript(&tool, "a\n\n"),
        "tell application \"Finder\"\na\n\nend tell\n"
    );
    assert_eq!(build_applescript(&tool, ""), "tell application \"Finder\"\n\nend tell\n");
    assert_eq!(
        build_applescript(&Tool::new("A \"q\"".to_string()), "say \"h\u{e9}\""),
        "tell application \"A \"q\"\"\nsay \"h\u{e9}\"\nend tell\n"
    );
}

#[test]
fn ping_echoes_the_message() {
    let mut srv = server();
    let r = reply(srv.handle(request(Some(Json::Int(1)), "ping", obj(vec![("message", s("hi"))]))));
    assert_eq!(r.id, Json::Int(1));
    assert_eq!(r.result, Some(obj(vec![("message", s("hi"))])));
    assert!(r.error.is_none());
}

#[test]
fn ping_without_message_says_pong() {
    let mut srv = server();
    let r = reply(srv.handle(request(Some(Json::Int(2)), "ping", Json::Object(Vec::new()))));
    assert_eq!(r.result, Some(obj(vec![("message", s("pong"))])));
    let r = reply(srv.handle(request(Some(Json::Int(3)), "ping", obj(vec![("message", Json::Int(1))]))));
    assert_eq!(r.result, Some(obj(vec![("message", s("pong"))])));
    let r = reply(srv.handle(request(Some(Json::Int(3)), "ping", Json::Null)));
    assert_eq!(r.result, Some(obj(vec![("message", s("pong"))])));
}

#[test]
fn unknown_method_with_id_is_an_error() {
    let mut srv = server();
    let r = reply(srv.handle(request(Some(s("k")), "foo/bar", Json::Null)));
    assert_eq!(r.id, s("k"));
    assert_eq!(error_of(&r), (-32601, "method 'foo/bar' not implemented".to_string(), None));
    assert_eq!(r.protocol, "2.0");
}

#[test]
fn unknown_method_without_id_is_silent() {
    let mut srv = server();
    assert_eq!(srv.handle(request(None, "foo/bar", Json::Null)), Action::Ignored);
    assert_eq!(srv.handle(request(None, "ping", Json::Null)), Action::Ignored);
    assert_eq!(srv.handle(request(None, "initialize", Json::Null)), Action::Ignored);
    assert!(!srv.state.is_initialized());
}

#[test]
fn shutdown_notification_is_noted() {
    let mut srv = server();
    assert_eq!(srv.handle(request(None, "shutdown", Json::Null)), Action::ShutdownNoted);
    let r = reply(srv.handle(request(Some(Json::Int(1)), "shutdown", Json::Null)));
    assert_eq!(error_of(&r).0, -32601);
}

#[test]
fn initialize_succeeds_once() {
    let mut srv = server();
    let params = obj(vec![("client", obj(vec![("name", s("c"))])), ("protocol_version", s("2025-06-18"))]);
    let r = reply(srv.handle(request(Some(Json::Int(1)), "initialize", params.duplicate())));
    assert!(srv.state.is_initialized());
    assert_eq!(
        r.result,
        Some(obj(vec![
            ("protocol_version", s("2025-06-18")),
            ("capabilities", obj(vec![("tools", catalog())])),
            (
                "server_info",
                obj(vec![
                    ("name", s("rust-mcp-server")),
                    ("version", s("0.1.0")),
                    ("description", s("Rust skeleton MCP server")),
                ]),
            ),
        ]))
    );
    for id in [2, 3] {
        let r = reply(srv.handle(request(Some(Json::Int(id)), "initialize", params.duplicate())));
        assert_eq!(r.id, Json::Int(id));
        assert_eq!(error_of(&r), (-32600, "initialize already called".to_string(), None));
        assert!(srv.state.is_initialized());
        assert_eq!(srv.tool_registry.descriptions().len(), 2);
    }
    let r = reply(srv.handle(request(Some(Json::Int(4)), "initialize", Json::Null)));
    assert_eq!(error_of(&r).0, -32600);
}

#[test]
fn initialize_answers_with_the_default_version() {
    let mut srv = server();
    let params = obj(vec![("client", obj(vec![("name", s("c"))]))]);
    let r = srv.handle_initialize(Json::Int(1), &params);
    let result = r.result.expect("result");
    assert_eq!(result.get_str("protocol_version"), Some("2024-10-30"));
}

#[test]
fn initialize_with_bad_params_changes_nothing() {
    let mut srv = server();
    let r = reply(srv.handle(request(Some(Json::Int(1)), "initialize", obj(vec![]))));
    assert_eq!(error_of(&r), (-32600, "invalid initialize params".to_string(), None));
    assert!(!srv.state.is_initialized());
    let params = obj(vec![("client", obj(vec![("name", s("c"))]))]);
    let r = reply(srv.handle(request(Some(Json::Int(2)), "initialize", params)));
    assert!(r.result.is_some());
    assert!(srv.state.is_initialized());
}

#[test]
fn empty_catalog_is_left_out_of_capabilities() {
    let mut srv = Server::new(AppState::default(), load_tools(None, None));
    let params = obj(vec![("client", obj(vec![("name", s("c"))]))]);
    let r = srv.handle_initialize(Json::Int(1), &params);
    assert_eq!(r.result.expect("result").get("capabilities"), Some(&obj(vec![])));
}

#[test]
fn tools_list_gives_the_whole_catalog() {
    let mut srv = server();
    let r = reply(srv.handle(request(Some(Json::Int(1)), "tools/list", obj(vec![("cursor", s("x"))]))));
    assert_eq!(r.result, Some(obj(vec![("tools", catalog())])));
    let r = reply(srv.handle(request(Some(Json::Int(1)), "tools/list", Json::Null)));
    assert_eq!(r.result, Some(obj(vec![("tools", catalog())])));
}

#[test]
fn tools_call_hands_out_the_program() {
    let mut srv = server();
    let params = obj(vec![("name", s("app.notes")), ("arguments", obj(vec![("script", s("activate"))]))]);
    let a = srv.handle(request(Some(Json::Int(9)), "tools/call", params));
    assert_eq!(
        a,
        Action::RunTool {
            id: Json::Int(9),
            tool: "app.notes".to_string(),
            program: "tell application \"Notes\"\nactivate\nend tell\n".to_string(),
        }
    );
}

#[test]
fn tools_call_without_script_string_is_an_error() {
    let mut srv = server();
    for arguments in [obj(vec![("script", Json::Int(1))]), obj(vec![]), Json::Null, obj(vec![("script", Json::Null)])] {
        let params = obj(vec![("name", s("app.finder")), ("arguments", arguments)]);
        let r = reply(srv.handle(request(Some(Json::Int(1)), "tools/call", params)));
        assert_eq!(
            error_of(&r),
            (-32600, "tool `app.finder` requires a `script` string argument".to_string(), None)
        );
    }
    let params = obj(vec![("name", s("app.finder"))]);
    let r = reply(srv.handle(request(Some(Json::Int(1)), "tools/call", params)));
    assert_eq!(error_of(&r).1, "tool `app.finder` requires a `script` string argument");
}

#[test]
fn tools_call_of_unknown_tool_is_an_error() {
    let mut srv = server();
    let params = obj(vec![("name", s("app.safari")), ("arguments", obj(vec![("script", s("x"))]))]);
    let r = reply(srv.handle(request(Some(Json::Int(5)), "tools/call", params)));
    assert_eq!(r.id, Json::Int(5));
    assert_eq!(error_of(&r), (-32600, "unknown tool `app.safari`".to_string(), None));
    let r = reply(srv.handle(request(Some(Json::Int(6)), "tools/call", obj(vec![]))));
    assert_eq!(error_of(&r), (-32600, "invalid tools/call params".to_string(), None));
}

#[test]
fn failed_tool_reports_stderr_and_status() {
    let out = ToolOutput { success: false, code: Some(3), stdout: "ignored".to_string(), stderr: "boom: \u{2018}x\u{2019}\n".to_string() };
    let r = Server::finish_tools_call(Json::Int(4), "app.finder", &out);
    assert_eq!(r.id, Json::Int(4));
    assert_eq!(
        error_of(&r),
        (
            -32010,
            "tool `app.finder` execution failed".to_string(),
            Some(obj(vec![("status", Json::Int(3)), ("stderr", s("boom: \u{2018}x\u{2019}\n"))])),
        )
    );
    let out = ToolOutput { success: false, code: None, stdout: String::new(), stderr: String::new() };
    let r = Server::finish_tools_call(Json::Int(4), "t", &out);
    assert_eq!(error_of(&r).2, Some(obj(vec![("status", Json::Null), ("stderr", s(""))])));
    let out = ToolOutput { success: false, code: Some(-1), stdout: String::new(), stderr: "e".to_string() };
    let r = Server::finish_tools_call(Json::Int(4), "t", &out);
    assert_eq!(error_of(&r).2, Some(obj(vec![("status", Json::Int(-1)), ("stderr", s("e"))])));
}

#[test]
fn successful_tool_returns_stdout() {
    let out = ToolOutput { success: true, code: Some(0), stdout: "front window\n".to_string(), stderr: "warn".to_string() };
    let r = Server::finish_tools_call(s("id"), "app.finder", &out);
    assert_eq!(r.id, s("id"));
    assert!(r.error.is_none());
    assert_eq!(
        r.result,
        Some(obj(vec![(
            "content",
            Json::Array(vec![obj(vec![("type", s("text")), ("text", s("front window\n"))])]),
        )]))
    );
}

#[test]
fn payload_that_is_no_request_is_dropped() {
    let mut srv = server();
    assert_eq!(srv.receive(&Json::Null), Action::Ignored);
    assert_eq!(srv.receive(&obj(vec![("id", Json::Int(1))])), Action::Ignored);
    let a = srv.receive(&obj(vec![("id", Json::Int(1)), ("method", s("ping"))]));
    assert_eq!(reply(a).result, Some(obj(vec![("message", s("pong"))])));
    assert_eq!(srv.receive(&obj(vec![("method", s("ping"))])), Action::Ignored);
    assert_eq!(srv.receive(&obj(vec![("id", Json::Null), ("method", s("shutdown"))])), Action::ShutdownNoted);
}

#[test]
fn state_changes_once() {
    let mut state = AppState::default();
    assert!(!state.is_initialized());
    state.mark_initialized();
    assert!(state.is_initialized());
    state.mark_initialized();
    assert!(state.is_initialized());
}

#[test]
fn stdio_needs_no_socket() {
    let cli = Cli { transport: TransportKind::Stdio, socket_path: None, scripts_dir: "../AppScripts".to_string() };
    assert_eq!(cli.transport_config(), Ok(TransportConfig::Stdio));
    let cli = Cli { transport: TransportKind::Stdio, socket_path: Some("/tmp/s".to_string()), scripts_dir: String::new() };
    assert_eq!(cli.transport_config(), Ok(TransportConfig::Stdio));
}

#[test]
fn unix_socket_needs_its_path() {
    let cli = Cli { transport: TransportKind::UnixSocket, socket_path: Some("/tmp/s".to_string()), scripts_dir: String::new() };
    assert_eq!(cli.transport_config(), Ok(TransportConfig::UnixSocket("/tmp/s".to_string())));
    let cli = Cli { transport: TransportKind::UnixSocket, socket_path: None, scripts_dir: String::new() };
    assert_eq!(cli.transport_config(), Err(ConfigError::MissingSocketPath));
    assert_eq!(
        ConfigError::MissingSocketPath.message(),
        "--socket-path is required when using --transport unix-socket"
    );
}

#[test]
fn api_key_of_white_space_is_none() {
    let mut opts = ClientOptions {
        api_key: String::new(),
        server_path: String::new(),
        scripts_dir: String::new(),
        model: String::new(),
        prompt: String::new(),
    };
    assert!(!opts.has_api_key());
    opts.api_key = " \t\n\u{a0}".to_string();
    assert!(!opts.has_api_key());
    opts.api_key = "  k ".to_string();
    assert!(opts.has_api_key());
}

#[test]
fn client_requests_on_the_wire() {
    assert_eq!(
        build_request(1, "initialize", opening_params("0.1.0")),
        obj(vec![
            ("jsonrpc", s("2.0")),
            ("id", Json::Int(1)),
            ("method", s("initialize")),
            (
                "params",
                obj(vec![
                    ("client", obj(vec![("name", s("mcp-client")), ("version", s("0.1.0"))])),
                    ("protocol_version", s("2024-10-30")),
                ]),
            ),
        ])
    );
    assert_eq!(
        call_params("app.finder", "activate"),
        obj(vec![("name", s("app.finder")), ("arguments", obj(vec![("script", s("activate"))]))])
    );
}

#[test]
fn client_and_server_understand_each_other() {
    let mut srv = server();
    let a = srv.receive(&build_request(1, "initialize", opening_params("0.1.0")));
    assert!(reply(a).result.is_some());
    let a = srv.receive(&build_request(2, "tools/call", call_params("app.finder", "activate")));
    assert_eq!(
        a,
        Action::RunTool {
            id: Json::Int(2),
            tool: "app.finder".to_string(),
            program: "tell application \"Finder\"\nactivate\nend tell\n".to_string(),
        }
    );
}
