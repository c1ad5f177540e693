//! The client's side: what it is given, what it sends, what it keeps.

use vstd::prelude::*;
use crate::json::{Json, JsonValue, MemberValue, entry, json_str, json_object, no_members, push_member};
use crate::protocol::{is_request, request_id, request_params, request_protocol};
use crate::text::{is_space, char_is_space, chars_of};
use crate::json::lookup;

verus! {

/// What one interaction needs.
#[derive(Debug, Clone)]
pub struct ClientOptions {
    pub api_key: String,
    pub server_path: String,
    pub scripts_dir: String,
    pub model: String,
    pub prompt: String,
}

/// What one interaction gave.
#[derive(Debug, Clone)]
pub struct InteractionResult {
    pub generated_script: String,
    pub initialize_response: String,
    pub tool_response: String,
}

/// Whether `s` holds anything but white space.
pub open spec fn has_text(s: Seq<char>) -> bool {
    exists|i: int| 0 <= i < s.len() && !is_space(#[trigger] s[i])
}

impl ClientOptions {
    /// Whether an API key was given: one of white space only is none.
    pub fn has_api_key(&self) -> (r: bool)
        ensures
            r == has_text(self.api_key@),
    {
        let chars = chars_of(self.api_key.as_str());
        let mut i: usize = 0;
        while i < chars.len()
            invariant
                i <= chars@.len(),
                chars@ == self.api_key@,
                forall|k: int| 0 <= k < i ==> is_space(#[trigger] chars@[k]),
            decreases chars@.len() - i,
        {
            if !char_is_space(chars[i]) {
                return true;
            }
            i = i + 1;
        }
        false
    }
}

/// A request on the wire.
pub open spec fn request_value(id: int, method: Seq<char>, params: JsonValue) -> JsonValue {
    JsonValue::Object(
        Seq::<MemberValue>::empty().push(entry("jsonrpc"@, JsonValue::Str("2.0"@))).push(
            entry("id"@, JsonValue::Int(id)),
        ).push(entry("method"@, JsonValue::Str(method))).push(entry("params"@, params)),
    )
}

/// The request `method` with `params`, to be answered under `id`.
pub fn build_request(id: i64, method: &str, params: Json) -> (r: Json)
    ensures
        r@ == request_value(id as int, method@, params@),
{
    let mut m = no_members();
    push_member(&mut m, "jsonrpc", json_str("2.0"));
    push_member(&mut m, "id", Json::Int(id));
    push_member(&mut m, "method", json_str(method));
    push_member(&mut m, "params", params);
    json_object(m)
}

/// The server reads a request that the client built as what the
/// client meant: a request under the same id, for the same method, with
/// the same parameters.
pub proof fn lemma_request_is_read(id: int, method: Seq<char>, params: JsonValue)
    ensures
        is_request(request_value(id, method, params)),
        request_id(request_value(id, method, params)) == Some(JsonValue::Int(id)),
        request_value(id, method, params).text_field("method"@) == Some(method),
        request_params(request_value(id, method, params)) == params,
        request_protocol(request_value(id, method, params)) == "2.0"@,
{
    reveal_strlit("jsonrpc");
    reveal_strlit("id");
    reveal_strlit("method");
    reveal_strlit("params");
    let m0 = request_value(id, method, params)->Object_0;
    let m1 = m0.drop_first();
    let m2 = m1.drop_first();
    let m3 = m2.drop_first();
    assert(m0[0] == entry("jsonrpc"@, JsonValue::Str("2.0"@)));
    assert(m1[0] == m0[1] && m0[1] == entry("id"@, JsonValue::Int(id)));
    assert(m2[0] == m0[2] && m0[2] == entry("method"@, JsonValue::Str(method)));
    assert(m3[0] == m0[3] && m0[3] == entry("params"@, params));
    assert("jsonrpc"@.len() == 7 && "id"@.len() == 2 && "method"@.len() == 6 && "params"@.len()
        == 6);
    assert("method"@[0] == 'm' && "params"@[0] == 'p');
    assert(lookup(m0, "jsonrpc"@) == Some(JsonValue::Str("2.0"@)));
    assert(lookup(m1, "id"@) == Some(JsonValue::Int(id)));
    assert(lookup(m0, "id"@) == lookup(m1, "id"@));
    assert(lookup(m2, "method"@) == Some(JsonValue::Str(method)));
    assert(lookup(m1, "method"@) == lookup(m2, "method"@));
    assert(lookup(m0, "method"@) == lookup(m1, "method"@));
    assert(lookup(m3, "params"@) == Some(params));
    assert(lookup(m2, "params"@) == lookup(m3, "params"@));
    assert(lookup(m1, "params"@) == lookup(m2, "params"@));
    assert(lookup(m0, "params"@) == lookup(m1, "params"@));
}

/// The parameters with which the client opens a session.
pub open spec fn opening_value(version: Seq<char>) -> JsonValue {
    JsonValue::Object(
        Seq::<MemberValue>::empty().push(
            entry(
                "client"@,
                JsonValue::Object(
                    Seq::<MemberValue>::empty().push(entry("name"@, JsonValue::Str("mcp-client"@))).push(
                        entry("version"@, JsonValue::Str(version)),
                    ),
                ),
            ),
        ).push(entry("protocol_version"@, JsonValue::Str("2024-10-30"@))),
    )
}

/// Builds the parameters of the client's `initialize`.
pub fn opening_params(version: &str) -> (r: Json)
    ensures
        r@ == opening_value(version@),
{
    let mut client = no_members();
    push_member(&mut client, "name", json_str("mcp-client"));
    push_member(&mut client, "version", json_str(version));
    let mut m = no_members();
    push_member(&mut m, "client", json_object(client));
    push_member(&mut m, "protocol_version", json_str("2024-10-30"));
    json_object(m)
}

/// The parameters that call `tool` with `script`.
pub open spec fn call_params_value(tool: Seq<char>, script: Seq<char>) -> JsonValue {
    JsonValue::Object(
        Seq::<MemberValue>::empty().push(entry("name"@, JsonValue::Str(tool))).push(
            entry(
                "arguments"@,
                JsonValue::Object(
                    Seq::<MemberValue>::empty().push(entry("script"@, JsonValue::Str(script))),
                ),
            ),
        ),
    )
}

/// Builds the parameters of a `tools/call`.
pub fn call_params(tool: &str, script: &str) -> (r: Json)
    ensures
        r@ == call_params_value(tool@, script@),
{
    let mut arguments = no_members();
    push_member(&mut arguments, "script", json_str(script));
    let mut m = no_members();
    push_member(&mut m, "name", json_str(tool));
    push_member(&mut m, "arguments", json_object(arguments));
    json_object(m)
}

} // verus!
