//! The dispatcher: what the server answers to each message, and what
//! it asks its host to run.

use vstd::prelude::*;
use crate::json::{
    Json, JsonValue, MemberValue, entry, json_object, json_str, no_members, opt_value, push_member,
};
use crate::protocol::{
    InitializeParams, RequestEnvelope, ResponseEnvelope, ResponseError, ServerCapabilities,
    ServerInfo, ToolCallParams, ToolCallResult, ToolDescription, ToolListParams, ToolListResult,
    ToolResultContent, call_arguments, capabilities_json, capabilities_value, content_values,
    initialize_value, is_initialize_params, is_request, jsonrpc_version, request_id,
    request_params, resource_values, tool_list_value, tool_values, INVALID_REQUEST,
    METHOD_NOT_FOUND, PROTOCOL_VERSION, TOOL_FAILED,
};
use crate::state::AppState;
use crate::text::str_eq;
use crate::tools::{Tool, ToolRegistry, find_tool};

verus! {

/// The program that runs `script` inside the application `app`: the
/// opening line, the script as it is, a line break unless the script
/// ends in one, and the closing line.
pub open spec fn program_of(app: Seq<char>, script: Seq<char>) -> Seq<char> {
    let head = "tell application \""@ + app + "\"\n"@ + script;
    let body = if script.len() > 0 && script.last() == '\n' {
        head
    } else {
        head.push('\n')
    };
    body + "end tell\n"@
}

/// Composes the program for one call of `tool`.
pub fn build_applescript(tool: &Tool, script: &str) -> (program: String)
    ensures
        program@ == program_of(tool.app_name@, script@),
{
    let mut block = "tell application \"".to_owned();
    block.append(tool.app_name.as_str());
    block.append("\"\n");
    block.append(script);
    let n: usize = script.unicode_len();
    if !(n > 0 && script.get_char(n - 1) == '\n') {
        block.push('\n');
    }
    block.append("end tell\n");
    block
}

/// What an external interpreter left behind.
#[derive(Debug, PartialEq, Eq)]
pub struct ToolOutput {
    /// Whether the interpreter exited with status zero.
    pub success: bool,
    /// The exit code, where the interpreter exited with one.
    pub code: Option<i32>,
    pub stdout: String,
    pub stderr: String,
}

/// What the host does after a message was routed.
#[derive(Debug, PartialEq, Eq)]
pub enum Action {
    /// Send this response.
    Reply(ResponseEnvelope),
    /// Run `program` in the interpreter, then hand its output to
    /// [`Server::finish_tools_call`] with this `id` and `tool`.
    RunTool { id: Json, tool: String, program: String },
    /// The client announced that it shuts down; nothing is sent.
    ShutdownNoted,
    /// Nothing is sent.
    Ignored,
}

/// A response that reports an error without data.
pub open spec fn is_error_reply(r: ResponseEnvelope, id: Json, code: int, message: Seq<char>) -> bool {
    &&& r.protocol@ == "2.0"@
    &&& r.id == id
    &&& r.result.is_none()
    &&& r.error matches Some(e) && e.code == code && e.message@ == message && e.data.is_none()
}

/// A response that carries the result `value`.
pub open spec fn is_result_reply(r: ResponseEnvelope, id: Json, value: JsonValue) -> bool {
    &&& r.protocol@ == "2.0"@
    &&& r.id == id
    &&& r.error.is_none()
    &&& r.result matches Some(j) && j@ == value
}

/// The result of `ping`.
pub open spec fn ping_value(params: JsonValue) -> JsonValue {
    JsonValue::Object(
        Seq::<MemberValue>::empty().push(
            entry(
                "message"@,
                JsonValue::Str(
                    match params.text_field("message"@) {
                        Some(m) => m,
                        None => "pong"@,
                    },
                ),
            ),
        ),
    )
}

/// The descriptor of `tool` on the wire.
pub open spec fn tool_value(tool: Tool) -> JsonValue {
    JsonValue::Object(
        Seq::<MemberValue>::empty().push(entry("name"@, JsonValue::Str(tool.name@))).push(
            entry("description"@, JsonValue::Str(tool.description@)),
        ).push(entry("input_schema"@, crate::protocol::input_schema())),
    )
}

/// The catalog on the wire: the descriptor of each tool, in listing order.
pub open spec fn catalog_value(tools: Seq<Tool>) -> Seq<JsonValue> {
    Seq::new(tools.len(), |i: int| tool_value(tools[i]))
}

/// The result of a tool that ran to success.
pub open spec fn call_value(stdout: Seq<char>) -> JsonValue {
    JsonValue::Object(
        Seq::<MemberValue>::empty().push(
            entry(
                "content"@,
                JsonValue::Array(
                    Seq::<JsonValue>::empty().push(
                        JsonValue::Object(
                            Seq::<MemberValue>::empty().push(entry("type"@, JsonValue::Str("text"@))).push(
                                entry("text"@, JsonValue::Str(stdout)),
                            ),
                        ),
                    ),
                ),
            ),
        ),
    )
}

/// The data of the error for a tool that failed: its exit code, null
/// where it had none, and what it wrote to standard error.
pub open spec fn failure_value(code: Option<i32>, stderr: Seq<char>) -> JsonValue {
    JsonValue::Object(
        Seq::<MemberValue>::empty().push(
            entry(
                "status"@,
                match code {
                    Some(c) => JsonValue::Int(c as int),
                    None => JsonValue::Null,
                },
            ),
        ).push(entry("stderr"@, JsonValue::Str(stderr))),
    )
}

/// The message for a method that the server does not know.
pub open spec fn unknown_method_text(method: Seq<char>) -> Seq<char> {
    "method '"@ + method + "' not implemented"@
}

/// The message for a tool that the catalog does not hold.
pub open spec fn unknown_tool_text(name: Seq<char>) -> Seq<char> {
    "unknown tool `"@ + name + "`"@
}

/// The message for arguments without a string `script`.
pub open spec fn missing_script_text(name: Seq<char>) -> Seq<char> {
    "tool `"@ + name + "` requires a `script` string argument"@
}

/// The message for a tool whose program failed.
pub open spec fn tool_failed_text(name: Seq<char>) -> Seq<char> {
    "tool `"@ + name + "` execution failed"@
}

fn quoted(before: &str, name: &str, after: &str) -> (r: String)
    ensures
        r@ == before@ + name@ + after@,
{
    let mut s = before.to_owned();
    s.append(name);
    s.append(after);
    s
}

fn error_reply(id: Json, code: i64, message: String) -> (r: ResponseEnvelope)
    ensures
        is_error_reply(r, id, code as int, message@),
        r.well_formed(),
{
    ResponseEnvelope::error(id, ResponseError { code, message, data: None })
}

/// The descriptors of the tools of `registry`, in listing order.
fn catalog_of(registry: &ToolRegistry) -> (r: Vec<ToolDescription>)
    ensures
        tool_values(r@) == catalog_value(registry.tools@),
{
    let r = registry.descriptions();
    proof {
        assert forall|i: int| 0 <= i < r@.len() implies (#[trigger] r@[i]).value() == tool_value(
            registry.tools@[i],
        ) by {
            assert(r@[i].members() =~= tool_value(registry.tools@[i])->Object_0);
        }
        assert(tool_values(r@) =~= catalog_value(registry.tools@));
    }
    r
}

/// The server: the session's state, what the server is and can do, and
/// its tools.
#[derive(Debug)]
pub struct Server {
    pub state: AppState,
    pub capabilities: ServerCapabilities,
    pub info: ServerInfo,
    pub tool_registry: ToolRegistry,
}

/// The version that `initialize` answers with: the one the client
/// asked for, else the server's own.
pub open spec fn negotiated_version(params: JsonValue) -> Seq<char> {
    match params.text_field("protocol_version"@) {
        Some(v) => v,
        None => PROTOCOL_VERSION@,
    }
}

impl Server {
    /// The result of a successful `initialize` on the wire: the
    /// negotiated version, the catalog as it is now, and the server's
    /// identity.
    pub open spec fn initialize_result(self, params: JsonValue) -> JsonValue {
        initialize_value(
            negotiated_version(params),
            capabilities_value(
                catalog_value(self.tool_registry.tools@),
                resource_values(self.capabilities.resources@),
                opt_value(self.capabilities.logging),
                opt_value(self.capabilities.experimental),
            ),
            self.info.value(),
        )
    }

    /// What `initialize` does: refused once the session is initialised,
    /// and refused for parameters that cannot be read, both without a
    /// change; else the session becomes initialised and the result is sent.
    pub open spec fn initialize_outcome(
        self,
        after: Server,
        id: Json,
        params: JsonValue,
        r: ResponseEnvelope,
    ) -> bool {
        &&& after.tool_registry == self.tool_registry
        &&& after.capabilities == self.capabilities
        &&& after.info == self.info
        &&& if self.state.initialized {
            after.state == self.state && is_error_reply(
                r,
                id,
                INVALID_REQUEST as int,
                "initialize already called"@,
            )
        } else if !is_initialize_params(params) {
            after.state == self.state && is_error_reply(
                r,
                id,
                INVALID_REQUEST as int,
                "invalid initialize params"@,
            )
        } else {
            after.state.initialized && is_result_reply(r, id, self.initialize_result(params))
        }
    }

    /// What `tools/call` asks for: an error for parameters without a
    /// name, for a name that no tool has, and for arguments without a
    /// string `script`; else one run of the composed program.
    pub open spec fn call_outcome(self, id: Json, params: JsonValue, a: Action) -> bool {
        match params.text_field("name"@) {
            None => a matches Action::Reply(r) && is_error_reply(
                r,
                id,
                INVALID_REQUEST as int,
                "invalid tools/call params"@,
            ),
            Some(name) => match find_tool(self.tool_registry.tools@, name) {
                None => a matches Action::Reply(r) && is_error_reply(
                    r,
                    id,
                    INVALID_REQUEST as int,
                    unknown_tool_text(name),
                ),
                Some(i) => match call_arguments(params).text_field("script"@) {
                    None => a matches Action::Reply(r) && is_error_reply(
                        r,
                        id,
                        INVALID_REQUEST as int,
                        missing_script_text(name),
                    ),
                    Some(script) => a matches Action::RunTool { id: rid, tool, program } && rid
                        == id && tool@ == name && program@ == program_of(
                        self.tool_registry.tools@[i].app_name@,
                        script,
                    ),
                },
            },
        }
    }

    /// A server for a session in `state` that offers the tools of `tool_registry`.
    pub fn new(state: AppState, tool_registry: ToolRegistry) -> (r: Server)
        ensures
            r.state == state,
            r.tool_registry == tool_registry,
            tool_values(r.capabilities.tools@) == catalog_value(tool_registry.tools@),
            r.capabilities.resources@.len() == 0,
            r.capabilities.logging.is_none(),
            r.capabilities.experimental.is_none(),
            r.info.name@ == "rust-mcp-server"@,
            r.info.version matches Some(v) && v@ == "0.1.0"@,
            r.info.description matches Some(d) && d@ == "Rust skeleton MCP server"@,
    {
        let capabilities = ServerCapabilities {
            tools: catalog_of(&tool_registry),
            resources: Vec::new(),
            logging: None,
            experimental: None,
        };
        let info = ServerInfo {
            name: "rust-mcp-server".to_owned(),
            version: Some("0.1.0".to_owned()),
            description: Some("Rust skeleton MCP server".to_owned()),
        };
        Server { state, capabilities, info, tool_registry }
    }

    /// The descriptors of the tools as they are now.
    fn catalog(&self) -> (r: Vec<ToolDescription>)
        ensures
            tool_values(r@) == catalog_value(self.tool_registry.tools@),
    {
        catalog_of(&self.tool_registry)
    }

    /// Answers `initialize`.
    pub fn handle_initialize(&mut self, id: Json, params: &Json) -> (r: ResponseEnvelope)
        ensures
            old(self).initialize_outcome(*final(self), id, params@, r),
            r.well_formed(),
    {
        if self.state.is_initialized() {
            return error_reply(id, INVALID_REQUEST, "initialize already called".to_owned());
        }
        let decoded = match InitializeParams::from_json(params) {
            Some(p) => p,
            None => {
                return error_reply(id, INVALID_REQUEST, "invalid initialize params".to_owned());
            },
        };
        self.state.mark_initialized();
        let version = match decoded.protocol_version {
            Some(v) => v,
            None => PROTOCOL_VERSION.to_owned(),
        };
        let tools = self.catalog();
        let mut m = no_members();
        push_member(&mut m, "protocol_version", json_str(version.as_str()));
        push_member(&mut m, "capabilities", capabilities_json(&tools, &self.capabilities));
        push_member(&mut m, "server_info", self.info.to_json());
        ResponseEnvelope::success(id, json_object(m))
    }

    /// Answers `ping`: the member `message` of the parameters where it
    /// is a string, else `pong`.
    pub fn handle_ping(&self, id: Json, params: &Json) -> (r: ResponseEnvelope)
        ensures
            is_result_reply(r, id, ping_value(params@)),
            r.well_formed(),
    {
        let message = match params.get_str("message") {
            Some(m) => m,
            None => "pong",
        };
        let mut m = no_members();
        push_member(&mut m, "message", json_str(message));
        ResponseEnvelope::success(id, json_object(m))
    }

    /// Answers `tools/list` with the whole catalog on one page. The
    /// cursor in the parameters is read and not used.
    pub fn handle_tools_list(&self, id: Json, params: &Json) -> (r: ResponseEnvelope)
        ensures
            is_result_reply(
                r,
                id,
                tool_list_value(catalog_value(self.tool_registry.tools@), None),
            ),
            r.well_formed(),
    {
        let _params = ToolListParams::from_json(params);
        let result = ToolListResult { tools: self.catalog(), next_cursor: None };
        ResponseEnvelope::success(id, result.to_json())
    }

    /// Routes `tools/call` up to the point where the interpreter has to run.
    pub fn handle_tools_call(&self, id: Json, params: &Json) -> (a: Action)
        ensures
            self.call_outcome(id, params@, a),
            a matches Action::Reply(r) ==> r.id == id && r.well_formed(),
            a is Reply || a is RunTool,
    {
        let decoded = match ToolCallParams::from_json(params) {
            Some(p) => p,
            None => {
                return Action::Reply(
                    error_reply(id, INVALID_REQUEST, "invalid tools/call params".to_owned()),
                );
            },
        };
        let tool = match self.tool_registry.get(decoded.name.as_str()) {
            Some(t) => t,
            None => {
                let text = quoted("unknown tool `", decoded.name.as_str(), "`");
                return Action::Reply(error_reply(id, INVALID_REQUEST, text));
            },
        };
        let script = match decoded.arguments.get_str("script") {
            Some(s) => s,
            None => {
                let text = quoted(
                    "tool `",
                    decoded.name.as_str(),
                    "` requires a `script` string argument",
                );
                return Action::Reply(error_reply(id, INVALID_REQUEST, text));
            },
        };
        let program = build_applescript(tool, script);
        Action::RunTool { id, tool: decoded.name, program }
    }

    /// The response to a `tools/call` whose program has run: the
    /// captured standard output where the interpreter exited with zero;
    /// else the error for a failed tool, with the captured standard
    /// error and the exit code as its data.
    pub fn finish_tools_call(id: Json, tool: &str, output: &ToolOutput) -> (r: ResponseEnvelope)
        ensures
            r.well_formed(),
            r.protocol@ == "2.0"@,
            r.id == id,
            output.success ==> is_result_reply(r, id, call_value(output.stdout@)),
            !output.success ==> r.result.is_none() && (r.error matches Some(e) && e.code
                == TOOL_FAILED && e.message@ == tool_failed_text(tool@) && (e.data matches Some(d)
                && d@ == failure_value(output.code, output.stderr@))),
    {
        if !output.success {
            let mut data = no_members();
            let status = match output.code {
                Some(c) => Json::Int(c as i64),
                None => Json::Null,
            };
            push_member(&mut data, "status", status);
            push_member(&mut data, "stderr", json_str(output.stderr.as_str()));
            let error = ResponseError {
                code: TOOL_FAILED,
                message: quoted("tool `", tool, "` execution failed"),
                data: Some(json_object(data)),
            };
            return ResponseEnvelope::error(id, error);
        }
        let mut content: Vec<ToolResultContent> = Vec::new();
        content.push(ToolResultContent { kind: "text".to_owned(), text: output.stdout.clone() });
        let result = ToolCallResult { content };
        proof {
            assert(content_values(result.content@) =~= Seq::<JsonValue>::empty().push(
                result.content@[0].value(),
            ));
        }
        ResponseEnvelope::success(id, result.to_json())
    }

    /// What a request gets: the answer of its method, or the error for
    /// a method that the server does not know.
    pub open spec fn request_outcome(
        self,
        after: Server,
        id: Json,
        method: Seq<char>,
        params: JsonValue,
        a: Action,
    ) -> bool {
        if method == "initialize"@ {
            a matches Action::Reply(r) && self.initialize_outcome(after, id, params, r)
        } else if method == "ping"@ {
            after == self && (a matches Action::Reply(r) && is_result_reply(r, id, ping_value(params)))
        } else if method == "tools/list"@ {
            after == self && (a matches Action::Reply(r) && is_result_reply(
                r,
                id,
                tool_list_value(catalog_value(self.tool_registry.tools@), None),
            ))
        } else if method == "tools/call"@ {
            after == self && self.call_outcome(id, params, a)
        } else {
            after == self && (a matches Action::Reply(r) && is_error_reply(
                r,
                id,
                METHOD_NOT_FOUND as int,
                unknown_method_text(method),
            ))
        }
    }

    /// Routes a request, that is a message with an id.
    pub fn handle_request(&mut self, id: Json, method: &str, params: &Json) -> (a: Action)
        ensures
            old(self).request_outcome(*final(self), id, method@, params@, a),
            a is Reply || a is RunTool,
            a matches Action::Reply(r) ==> r.id == id && r.well_formed(),
            a matches Action::RunTool { id: rid, .. } ==> rid == id,
            old(self).state.initialized ==> final(self).state.initialized,
            final(self).tool_registry == old(self).tool_registry,
    {
        if str_eq(method, "initialize") {
            Action::Reply(self.handle_initialize(id, params))
        } else if str_eq(method, "ping") {
            Action::Reply(self.handle_ping(id, params))
        } else if str_eq(method, "tools/list") {
            Action::Reply(self.handle_tools_list(id, params))
        } else if str_eq(method, "tools/call") {
            self.handle_tools_call(id, params)
        } else {
            let text = quoted("method '", method, "' not implemented");
            Action::Reply(error_reply(id, METHOD_NOT_FOUND, text))
        }
    }

    /// Routes a notification, that is a message without an id: nothing
    /// is ever sent. `shutdown` is noted, every other method is ignored.
    pub fn handle_notification(&self, request: &RequestEnvelope) -> (a: Action)
        ensures
            request.method@ == "shutdown"@ ==> a is ShutdownNoted,
            request.method@ != "shutdown"@ ==> a is Ignored,
    {
        if str_eq(request.method.as_str(), "shutdown") {
            Action::ShutdownNoted
        } else {
            Action::Ignored
        }
    }

    /// Routes one message. A message with an id is a request and is
    /// answered under that id; one without is a notification and is
    /// never answered.
    pub fn handle(&mut self, request: RequestEnvelope) -> (a: Action)
        ensures
            match request.id {
                Some(id) => {
                    &&& old(self).request_outcome(
                        *final(self),
                        id,
                        request.method@,
                        request.params@,
                        a,
                    )
                    &&& a matches Action::Reply(r) ==> r.id == id && r.well_formed()
                    &&& a matches Action::RunTool { id: rid, .. } ==> rid == id
                    &&& a is Reply || a is RunTool
                },
                None => {
                    &&& *final(self) == *old(self)
                    &&& request.method@ == "shutdown"@ ==> a is ShutdownNoted
                    &&& request.method@ != "shutdown"@ ==> a is Ignored
                },
            },
            old(self).state.initialized ==> final(self).state.initialized,
            final(self).tool_registry == old(self).tool_registry,
    {
        let RequestEnvelope { protocol: _, id, method, params } = request;
        match id {
            Some(id) => self.handle_request(id, method.as_str(), &params),
            None => {
                let note = RequestEnvelope { protocol: jsonrpc_version(), id: None, method, params };
                self.handle_notification(&note)
            },
        }
    }

    /// Routes one decoded payload. A payload that is no request is
    /// dropped: nothing is sent and nothing changes.
    pub fn receive(&mut self, payload: &Json) -> (a: Action)
        ensures
            !is_request(payload@) ==> a is Ignored && *final(self) == *old(self),
            is_request(payload@) ==> match request_id(payload@) {
                Some(id) => {
                    &&& a matches Action::Reply(r) ==> r.id@ == id && r.well_formed()
                    &&& a matches Action::RunTool { id: rid, .. } ==> rid@ == id
                    &&& a is Reply || a is RunTool
                    &&& exists|rid: Json|
                        rid@ == id && #[trigger] old(self).request_outcome(
                            *final(self),
                            rid,
                            payload@.text_field("method"@)->Some_0,
                            request_params(payload@),
                            a,
                        )
                },
                None => {
                    &&& *final(self) == *old(self)
                    &&& a is ShutdownNoted || a is Ignored
                    &&& a is ShutdownNoted <==> payload@.text_field("method"@) == Some("shutdown"@)
                },
            },
            old(self).state.initialized ==> final(self).state.initialized,
            final(self).tool_registry == old(self).tool_registry,
    {
        match RequestEnvelope::from_json(payload) {
            Some(request) => {
                let ghost rid = request.id;
                let ghost method = request.method@;
                let ghost params = request.params@;
                let a = self.handle(request);
                proof {
                    if let Some(id) = rid {
                        assert(id@ == request_id(payload@)->Some_0);
                        assert(method == payload@.text_field("method"@)->Some_0);
                        assert(params == request_params(payload@));
                        assert(old(self).request_outcome(
                            *self,
                            id,
                            payload@.text_field("method"@)->Some_0,
                            request_params(payload@),
                            a,
                        ));
                    }
                }
                a
            },
            None => Action::Ignored,
        }
    }
}

/// `initialize` succeeds once in a session. The first call with
/// readable parameters answers with the catalog as it is then and
/// leaves the session initialised; a call after that, whatever its
/// parameters, is refused as a duplicate and changes nothing.
pub proof fn lemma_initialize_once(
    fresh: Server,
    first: Server,
    second: Server,
    id1: Json,
    id2: Json,
    params1: JsonValue,
    params2: JsonValue,
    r1: ResponseEnvelope,
    r2: ResponseEnvelope,
)
    requires
        !fresh.state.initialized,
        is_initialize_params(params1),
        fresh.initialize_outcome(first, id1, params1, r1),
        first.initialize_outcome(second, id2, params2, r2),
    ensures
        is_result_reply(r1, id1, fresh.initialize_result(params1)),
        first.state.initialized,
        is_error_reply(r2, id2, -32600, "initialize already called"@),
        second == first,
        second.tool_registry == fresh.tool_registry,
{
}

/// Once a session is initialised, every `initialize` is refused and
/// leaves the server as it was.
pub proof fn lemma_initialize_refused(server: Server, after: Server, id: Json, params: JsonValue, r: ResponseEnvelope)
    requires
        server.state.initialized,
        server.initialize_outcome(after, id, params, r),
    ensures
        is_error_reply(r, id, -32600, "initialize already called"@),
        after == server,
{
}

/// A call of a known tool whose arguments hold no string `script` is
/// answered with the error that names the missing argument, and no
/// program is handed out to run.
pub proof fn lemma_call_needs_script(server: Server, id: Json, params: JsonValue, a: Action)
    requires
        server.call_outcome(id, params, a),
        params.text_field("name"@) matches Some(name) && find_tool(server.tool_registry.tools@, name)
            is Some,
        call_arguments(params).text_field("script"@) is None,
    ensures
        !(a is RunTool),
        a matches Action::Reply(r) && is_error_reply(
            r,
            id,
            -32600,
            missing_script_text(params.text_field("name"@)->Some_0),
        ),
{
}

} // verus!
