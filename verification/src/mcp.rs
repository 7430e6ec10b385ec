//! The JSON-RPC side of the MCP stdio client: numbering requests, building
//! them, and reading what a response or a tool call reports. Spawning the
//! server and moving lines over its pipes is left to the caller.

use vstd::prelude::*;
use crate::errors::ClientError;
use crate::json::{json_get, items_view, json_of_text, number, pairs_view, parse_json_text, push_member, text, Json, JsonView};
use crate::num::parse_i64_spec;
use crate::text::{chars_of, int_to_text, int_text, string_of, trim, trim_chars};

verus! {

/// Hands out request ids 1, 2, 3, ...
pub struct RequestIds {
    next: i64,
}

impl RequestIds {
    /// The id the next request gets.
    pub closed spec fn upcoming(&self) -> i64 {
        self.next
    }

    /// A counter whose first id is 1.
    pub fn new() -> (r: RequestIds)
        ensures
            r.upcoming() == 1,
    {
        RequestIds { next: 1 }
    }

    /// Whether another id can be handed out.
    pub fn can_issue(&self) -> (r: bool)
        ensures
            r == (self.upcoming() < i64::MAX),
    {
        self.next < i64::MAX
    }

    /// The next id; each call returns one more than the last.
    pub fn next_request_id(&mut self) -> (id: i64)
        requires
            old(self).upcoming() < i64::MAX,
        ensures
            id == old(self).upcoming(),
            final(self).upcoming() == old(self).upcoming() + 1,
    {
        let id = self.next;
        self.next = self.next + 1;
        id
    }
}

/// The JSON-RPC 2.0 request `{"id", "jsonrpc": "2.0", "method", "params"}`.
pub open spec fn request_view(id: i64, method: Seq<char>, params: JsonView) -> JsonView {
    JsonView::Object(
        seq![
            ("id"@, JsonView::Number(int_text(id as int))),
            ("jsonrpc"@, JsonView::Text("2.0"@)),
            ("method"@, JsonView::Text(method)),
            ("params"@, params),
        ],
    )
}

/// Builds the request with id `id` calling `method` with `params`.
pub fn rpc_request(id: i64, method: &str, params: Json) -> (r: Json)
    ensures
        r@ == request_view(id, method@, params@),
{
    let ghost pv = params@;
    let mut o: Vec<(String, Json)> = Vec::new();
    let id_text = int_to_text(id);
    push_member(&mut o, "id", number(id_text.as_str()));
    push_member(&mut o, "jsonrpc", text("2.0"));
    push_member(&mut o, "method", text(method));
    push_member(&mut o, "params", params);
    assert(pairs_view(o@) =~= seq![
        ("id"@, JsonView::Number(int_text(id as int))),
        ("jsonrpc"@, JsonView::Text("2.0"@)),
        ("method"@, JsonView::Text(method@)),
        ("params"@, pv),
    ]);
    Json::Object(o)
}

/// The parameters of a `tools/call` request: `{"name", "arguments"}`.
pub fn tool_call_params(name: &str, arguments: Json) -> (r: Json)
    ensures
        r@ == JsonView::Object(seq![("name"@, JsonView::Text(name@)), ("arguments"@, arguments@)]),
{
    let ghost av = arguments@;
    let mut o: Vec<(String, Json)> = Vec::new();
    push_member(&mut o, "name", text(name));
    push_member(&mut o, "arguments", arguments);
    assert(pairs_view(o@) =~= seq![("name"@, JsonView::Text(name@)), ("arguments"@, av)]);
    Json::Object(o)
}

/// A JSON integer in range, as `serde_json::Value::as_i64` reads it.
pub open spec fn as_i64_view(v: JsonView) -> Option<i64> {
    match v {
        JsonView::Number(t) => match parse_i64_spec(t) {
            Some(n) => Some(n as i64),
            None => None,
        },
        _ => None,
    }
}

/// The code of an error object: its `code` member when that is an
/// integer, else 0.
pub open spec fn error_code(e: JsonView) -> i64 {
    match json_get(e, "code"@) {
        Some(c) => match as_i64_view(c) {
            Some(n) => n,
            None => 0,
        },
        None => 0,
    }
}

/// The message of an error object: its `message` member when that is a
/// string, else empty.
pub open spec fn error_message(e: JsonView) -> Seq<char> {
    match json_get(e, "message"@) {
        Some(JsonView::Text(m)) => m,
        _ => Seq::empty(),
    }
}

/// What a response reports: a protocol error when it has an `error`
/// member, else its `result` member (`null` when there is none).
pub fn response_outcome(response: &Json) -> (r: Result<Json, ClientError>)
    ensures
        match json_get(response@, "error"@) {
            Some(e) => r matches Err(ClientError::Protocol { code, message }) && code == error_code(e)
                && message@ == error_message(e),
            None => r matches Ok(v) && v@ == match json_get(response@, "result"@) {
                Some(x) => x,
                None => JsonView::Null,
            },
        },
{
    match response.get("error") {
        Some(error) => {
            let code = match error.get("code") {
                Some(c) => match c.as_i64() {
                    Some(n) => n,
                    None => 0,
                },
                None => 0,
            };
            let message = match error.get("message") {
                Some(m) => match m.as_str() {
                    Some(s) => s.to_owned(),
                    None => String::new(),
                },
                None => String::new(),
            };
            Err(ClientError::Protocol { code, message })
        },
        None => match response.get("result") {
            Some(v) => Ok(v.deep_copy()),
            None => Ok(Json::Null),
        },
    }
}

/// The text of a tool result: the `text` member of the first element of
/// its `content` array, when all of those exist and it is a string; else
/// empty.
pub open spec fn tool_text(result: JsonView) -> Seq<char> {
    match json_get(result, "content"@) {
        Some(JsonView::Array(items)) => if items.len() > 0 {
            match json_get(items[0], "text"@) {
                Some(JsonView::Text(t)) => t,
                _ => Seq::empty(),
            }
        } else {
            Seq::empty()
        },
        _ => Seq::empty(),
    }
}

/// Whether a tool result reports failure: its `isError` member, when that
/// is a boolean; else false.
pub open spec fn tool_failed(result: JsonView) -> bool {
    match json_get(result, "isError"@) {
        Some(JsonView::Bool(b)) => b,
        _ => false,
    }
}

/// What a `tools/call` result reports: the tool's text, or a tool error
/// carrying that text when the tool reported failure.
pub fn tool_outcome(result: &Json) -> (r: Result<String, ClientError>)
    ensures
        tool_failed(result@) ==> (r matches Err(ClientError::Tool(t)) && t@ == tool_text(result@)),
        !tool_failed(result@) ==> (r matches Ok(t) && t@ == tool_text(result@)),
{
    let text = match result.get("content") {
        Some(c) => match c.as_array() {
            Some(items) => {
                proof {
                    crate::json::lemma_items_view(items@);
                }
                if items.len() > 0 {
                    match items[0].get("text") {
                        Some(t) => match t.as_str() {
                            Some(s) => s.to_owned(),
                            None => String::new(),
                        },
                        None => String::new(),
                    }
                } else {
                    String::new()
                }
            },
            None => String::new(),
        },
        None => String::new(),
    };
    let is_error = match result.get("isError") {
        Some(b) => match b.as_bool() {
            Some(x) => x,
            None => false,
        },
        None => false,
    };
    if is_error {
        Err(ClientError::Tool(text))
    } else {
        Ok(text)
    }
}

/// The arguments of the guard's order tool: the intent, and the evidence
/// when there is some.
pub fn order_arguments(intent: Json, evidence: Option<Json>) -> (r: Json)
    ensures
        r@ == JsonView::Object(
            match evidence {
                Some(e) => seq![("intent"@, intent@), ("evidence"@, e@)],
                None => seq![("intent"@, intent@)],
            },
        ),
{
    let ghost iv = intent@;
    let mut o: Vec<(String, Json)> = Vec::new();
    push_member(&mut o, "intent", intent);
    match evidence {
        Some(e) => {
            let ghost ev = e@;
            push_member(&mut o, "evidence", e);
            assert(pairs_view(o@) =~= seq![("intent"@, iv), ("evidence"@, ev)]);
        },
        None => {
            assert(pairs_view(o@) =~= seq![("intent"@, iv)]);
        },
    }
    Json::Object(o)
}

/// The strings among `items`, in order.
pub open spec fn texts_of(items: Seq<JsonView>) -> Seq<Seq<char>>
    decreases items.len(),
{
    if items.len() == 0 {
        Seq::empty()
    } else {
        let rest = texts_of(items.drop_last());
        match items.last() {
            JsonView::Text(t) => rest.push(t),
            _ => rest,
        }
    }
}

/// The source ids that `list-configured-sources` reports: the strings of
/// its `source_ids` array; none when there is no such array.
pub open spec fn source_ids_of(result: JsonView) -> Seq<Seq<char>> {
    match json_get(result, "source_ids"@) {
        Some(JsonView::Array(items)) => texts_of(items),
        _ => Seq::empty(),
    }
}

/// The source ids in a `list-configured-sources` result.
pub fn source_ids(result: &Json) -> (r: Vec<String>)
    ensures
        r@.map_values(|s: String| s@) == source_ids_of(result@),
{
    let mut out: Vec<String> = Vec::new();
    let items = match result.get("source_ids") {
        Some(v) => match v.as_array() {
            Some(items) => items,
            None => {
                assert(out@.map_values(|s: String| s@) =~= Seq::<Seq<char>>::empty());
                return out;
            },
        },
        None => {
            assert(out@.map_values(|s: String| s@) =~= Seq::<Seq<char>>::empty());
            return out;
        },
    };
    let ghost iv = items_view(items@);
    proof {
        crate::json::lemma_items_view(items@);
    }
    let n = items.len();
    let mut i: usize = 0;
    assert(iv.subrange(0, 0) =~= Seq::<JsonView>::empty());
    assert(out@.map_values(|s: String| s@) =~= Seq::<Seq<char>>::empty());
    while i < n
        invariant
            n == items@.len(),
            iv == items_view(items@),
            iv.len() == n,
            forall|j: int| 0 <= j < n ==> #[trigger] iv[j] == items@[j]@,
            i <= n,
            out@.map_values(|s: String| s@) == texts_of(iv.subrange(0, i as int)),
        decreases n - i,
    {
        let ghost before = out@.map_values(|s: String| s@);
        assert(iv.subrange(0, i + 1).drop_last() =~= iv.subrange(0, i as int));
        assert(iv.subrange(0, i + 1).last() == items@[i as int]@);
        match items[i].as_str() {
            Some(t) => {
                out.push(t.to_owned());
                assert(out@.map_values(|s: String| s@) =~= before.push(t@));
            },
            None => {},
        }
        i = i + 1;
    }
    assert(iv.subrange(0, n as int) =~= iv);
    out
}

/// The arguments of `build-evidence-bundle`.
pub fn evidence_bundle_arguments(bundle_id: &str, items: Vec<Json>, purpose: &str, decision_time: &str) -> (r: Json)
    ensures
        r@ == JsonView::Object(
            seq![
                ("evidence_bundle_id"@, JsonView::Text(bundle_id@)),
                ("items"@, JsonView::Array(items_view(items@))),
                ("purpose"@, JsonView::Text(purpose@)),
                ("decision_time"@, JsonView::Text(decision_time@)),
            ],
        ),
{
    let ghost iv = items_view(items@);
    let mut o: Vec<(String, Json)> = Vec::new();
    push_member(&mut o, "evidence_bundle_id", text(bundle_id));
    push_member(&mut o, "items", Json::Array(items));
    push_member(&mut o, "purpose", text(purpose));
    push_member(&mut o, "decision_time", text(decision_time));
    assert(pairs_view(o@) =~= seq![
        ("evidence_bundle_id"@, JsonView::Text(bundle_id@)),
        ("items"@, JsonView::Array(iv)),
        ("purpose"@, JsonView::Text(purpose@)),
        ("decision_time"@, JsonView::Text(decision_time@)),
    ]);
    Json::Object(o)
}

/// What a server's response line reports: the line, without surrounding
/// white space, must be JSON (else a parse error with the parser's
/// message); the response then reports as [`response_outcome`] says.
pub fn response_from_line(line: &str) -> (r: Result<Json, ClientError>)
    ensures
        match json_of_text(trim(line@)) {
            None => r matches Err(ClientError::Parse(_)),
            Some(response) => match json_get(response, "error"@) {
                Some(e) => r matches Err(ClientError::Protocol { code, message }) && code == error_code(e)
                    && message@ == error_message(e),
                None => r matches Ok(v) && v@ == match json_get(response, "result"@) {
                    Some(x) => x,
                    None => JsonView::Null,
                },
            },
        },
{
    let trimmed = string_of(&trim_chars(&chars_of(line)));
    match parse_json_text(trimmed.as_str()) {
        Ok(response) => response_outcome(&response),
        Err(message) => Err(ClientError::Parse(message)),
    }
}

/// The JSON value a tool's text holds, or a parse error with the parser's
/// message.
pub fn tool_json(text: &str) -> (r: Result<Json, ClientError>)
    ensures
        match json_of_text(text@) {
            None => r matches Err(ClientError::Parse(_)),
            Some(v) => r matches Ok(j) && j@ == v,
        },
{
    match parse_json_text(text) {
        Ok(v) => Ok(v),
        Err(message) => Err(ClientError::Parse(message)),
    }
}

} // verus!
