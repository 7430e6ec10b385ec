//! The dashboard's routing rules: which handler a request goes to, and how
//! its query parameters are validated. Running the handlers (the engine,
//! the cache, JSON rendering) is left to the caller.

use vstd::prelude::*;
use crate::http::{QueryMap, ParsedRequest};
use crate::text::{ascii_upper, ascii_uppercase, chars_of, chars_eq, copy_range, find_char, find_char_from, lemma_find_char_from_bounds, occurs_at, starts_at, string_of};
use crate::num::{parse_i64_str, parse_i64_spec};
use crate::errors::{is_engine_message, EngineError};
use crate::evidence_file::{json_text, to_json_text};
use crate::json::{push_member, text, Json, JsonView};
use crate::html::INDEX_HTML;

verus! {

/// A response ready to be written.
#[derive(Debug)]
pub struct RenderedResponse {
    pub status: u16,
    pub reason: &'static str,
    pub content_type: &'static str,
    pub body: Vec<u8>,
}

/// A `200 OK` HTML response with `body` as its content.
pub fn html_response(body: &str) -> (r: RenderedResponse)
    ensures
        r.status == 200,
        r.reason@ == "OK"@,
        r.content_type@ == "text/html; charset=utf-8"@,
        r.body@ == vstd::utf8::encode_utf8(body@),
{
    let bytes = body.as_bytes();
    let mut v: Vec<u8> = Vec::new();
    crate::http::push_bytes(&mut v, bytes);
    assert(v@ =~= bytes@);
    RenderedResponse { status: 200, reason: "OK", content_type: "text/html; charset=utf-8", body: v }
}

/// Characters a ticker symbol may hold: ASCII letters and digits, `.`,
/// `_` and `-`.
pub open spec fn symbol_char(c: char) -> bool {
    ('A' <= c && c <= 'Z') || ('a' <= c && c <= 'z') || ('0' <= c && c <= '9') || c == '.' || c
        == '_' || c == '-'
}

/// A valid ticker symbol: 1 to 12 symbol characters.
pub open spec fn is_valid_symbol(s: Seq<char>) -> bool {
    1 <= s.len() <= 12 && forall|i: int| 0 <= i < s.len() ==> symbol_char(s[i])
}

/// Whether `s` is 1 to 12 characters of `[A-Za-z0-9._-]`.
pub fn valid_symbol(s: &str) -> (r: bool)
    ensures
        r == is_valid_symbol(s@),
{
    let chars = chars_of(s);
    let n = chars.len();
    if n < 1 || n > 12 {
        return false;
    }
    let mut i: usize = 0;
    while i < n
        invariant
            chars@ == s@,
            chars@.len() == n,
            i <= n,
            forall|j: int| 0 <= j < i ==> symbol_char(chars@[j]),
        decreases n - i,
    {
        let c = chars[i];
        if !(('A' <= c && c <= 'Z') || ('a' <= c && c <= 'z') || ('0' <= c && c <= '9') || c == '.'
            || c == '_' || c == '-') {
            return false;
        }
        i = i + 1;
    }
    true
}

/// The spellings of a true flag.
pub open spec fn is_true_spelling(s: Seq<char>) -> bool {
    s == "true"@ || s == "1"@ || s == "yes"@ || s == "True"@ || s == "TRUE"@
}

/// Whether a query flag is set: `true`, `1`, `yes`, `True` or `TRUE`.
pub fn parse_bool_flag(value: Option<&String>) -> (r: bool)
    ensures
        r == (value matches Some(v) && is_true_spelling(v@)),
{
    match value {
        None => false,
        Some(v) => {
            let s = v.as_str();
            let c = chars_of(s);
            let t = chars_of("true");
            let one = chars_of("1");
            let yes = chars_of("yes");
            let t2 = chars_of("True");
            let t3 = chars_of("TRUE");
            chars_eq(&c, &t) || chars_eq(&c, &one) || chars_eq(&c, &yes) || chars_eq(&c, &t2)
                || chars_eq(&c, &t3)
        },
    }
}

/// A query number: the parsed value, or `default` when absent or not an
/// `i64`.
pub fn parse_positive_i64(value: Option<&String>, default: i64) -> (r: i64)
    ensures
        r == (match value {
            Some(v) => match parse_i64_spec(v@) {
                Some(x) => x,
                None => default as int,
            },
            None => default as int,
        }),
{
    match value {
        Some(v) => match parse_i64_str(v.as_str()) {
            Some(x) => x,
            None => default,
        },
        None => default,
    }
}

/// Where a request goes.
#[derive(Debug, PartialEq, Eq)]
pub enum Route {
    /// Anything but `GET`.
    MethodNotAllowed,
    /// `/`: the HTML console.
    Index,
    /// `/api/health`.
    Health,
    /// `/api/recommendation`.
    Recommendation,
    /// `/api/history`.
    History,
    /// `/api/replay/<decision_id>`.
    Replay(String),
    /// Any other path.
    NotFound,
}

/// A route as a mathematical value.
pub enum RouteView {
    MethodNotAllowed,
    Index,
    Health,
    Recommendation,
    History,
    Replay(Seq<char>),
    NotFound,
}

impl View for Route {
    type V = RouteView;

    open spec fn view(&self) -> RouteView {
        match self {
            Route::MethodNotAllowed => RouteView::MethodNotAllowed,
            Route::Index => RouteView::Index,
            Route::Health => RouteView::Health,
            Route::Recommendation => RouteView::Recommendation,
            Route::History => RouteView::History,
            Route::Replay(id) => RouteView::Replay(id@),
            Route::NotFound => RouteView::NotFound,
        }
    }
}

pub open spec fn replay_prefix() -> Seq<char> {
    "/api/replay/"@
}

/// The route of a request: `GET` only; `/`, `/api/health`,
/// `/api/recommendation`, `/api/history`, and `/api/replay/<id>` with a
/// non-empty `id` holding no `/`; anything else is not found.
pub open spec fn route_of(method: Seq<char>, path: Seq<char>) -> RouteView {
    if method != "GET"@ {
        RouteView::MethodNotAllowed
    } else if path == "/"@ {
        RouteView::Index
    } else if path == "/api/health"@ {
        RouteView::Health
    } else if path == "/api/recommendation"@ {
        RouteView::Recommendation
    } else if path == "/api/history"@ {
        RouteView::History
    } else if occurs_at(path, 0, replay_prefix()) && path.len() > replay_prefix().len()
        && find_char_from(path, replay_prefix().len() as int, '/') is None {
        RouteView::Replay(path.subrange(replay_prefix().len() as int, path.len() as int))
    } else {
        RouteView::NotFound
    }
}

/// Routes a request by method and path.
pub fn route(method: &str, path: &str) -> (r: Route)
    ensures
        r@ == route_of(method@, path@),
{
    let m = chars_of(method);
    let p = chars_of(path);
    let get = chars_of("GET");
    if !chars_eq(&m, &get) {
        return Route::MethodNotAllowed;
    }
    let root = chars_of("/");
    let health = chars_of("/api/health");
    let rec = chars_of("/api/recommendation");
    let hist = chars_of("/api/history");
    let prefix = chars_of("/api/replay/");
    if chars_eq(&p, &root) {
        return Route::Index;
    }
    if chars_eq(&p, &health) {
        return Route::Health;
    }
    if chars_eq(&p, &rec) {
        return Route::Recommendation;
    }
    if chars_eq(&p, &hist) {
        return Route::History;
    }
    let n = p.len();
    let k = prefix.len();
    if starts_at(&p, 0, &prefix) && n > k {
        if find_char(&p, k, '/').is_none() {
            let id = copy_range(&p, k, n);
            return Route::Replay(string_of(&id));
        }
    }
    Route::NotFound
}


/// A validated `/api/recommendation` request.
pub struct RecommendationRequest {
    /// The symbol, uppercased.
    pub symbol: String,
    /// Whether a cached result must be bypassed.
    pub fresh: bool,
}

/// The symbol a query names, `SPY` when it names none.
pub open spec fn requested_symbol(query: Map<Seq<char>, Seq<char>>) -> Seq<char> {
    if query.contains_key("symbol"@) {
        query["symbol"@]
    } else {
        "SPY"@
    }
}

/// The parameters of `/api/recommendation`: `symbol` (default `SPY`) must
/// be a valid symbol and is uppercased; `fresh` is a flag. `None` when the
/// symbol is invalid (answered with 422).
pub fn recommendation_request(query: &QueryMap) -> (r: Option<RecommendationRequest>)
    ensures
        match r {
            None => !is_valid_symbol(requested_symbol(query@)),
            Some(req) => is_valid_symbol(requested_symbol(query@)) && req.symbol@
                == requested_symbol(query@).map_values(|c: char| ascii_upper(c)) && req.fresh == (
            query@.contains_key("fresh"@) && is_true_spelling(query@["fresh"@])),
        },
{
    let raw = match query.get("symbol") {
        Some(s) => chars_of(s.as_str()),
        None => chars_of("SPY"),
    };
    let raw_text = string_of(&raw);
    if !valid_symbol(raw_text.as_str()) {
        return None;
    }
    let upper = ascii_uppercase(&raw);
    let fresh = parse_bool_flag(query.get("fresh"));
    Some(RecommendationRequest { symbol: string_of(&upper), fresh })
}

/// A validated `/api/history` request.
pub struct HistoryRequest {
    /// How many decisions to list.
    pub limit: i64,
    /// Only decisions for this symbol, when given.
    pub symbol: Option<String>,
}

/// The parameters of `/api/history`: `limit` (default 20, also when not a
/// number) and an optional `symbol` filter, where an empty symbol means no
/// filter and a non-empty one must be valid. `None` when the symbol is
/// invalid (answered with 422).
pub fn history_request(query: &QueryMap) -> (r: Option<HistoryRequest>)
    ensures
        ({
            let has = query@.contains_key("symbol"@);
            let sym = query@["symbol"@];
            match r {
                None => has && sym.len() > 0 && !is_valid_symbol(sym),
                Some(req) => !(has && sym.len() > 0 && !is_valid_symbol(sym)) && req.limit == (
                if query@.contains_key("limit"@) {
                    match parse_i64_spec(query@["limit"@]) {
                        Some(x) => x,
                        None => 20,
                    }
                } else {
                    20
                }) && match req.symbol {
                    Some(s) => has && sym.len() > 0 && s@ == sym,
                    None => !(has && sym.len() > 0),
                },
            }
        }),
{
    let limit = parse_positive_i64(query.get("limit"), 20);
    match query.get("symbol") {
        Some(s) => {
            let text = s.as_str();
            if text.is_empty() {
                return Some(HistoryRequest { limit, symbol: None });
            }
            if !valid_symbol(text) {
                return None;
            }
            Some(HistoryRequest { limit, symbol: Some(s.clone()) })
        },
        None => Some(HistoryRequest { limit, symbol: None }),
    }
}

// ---------------------------------------------------------------------------
// JSON responses
// ---------------------------------------------------------------------------

/// A JSON response with `value`, in compact JSON text, as its body.
pub fn json_response(status: u16, reason: &'static str, value: &Json) -> (r: RenderedResponse)
    ensures
        r.status == status,
        r.reason == reason,
        r.content_type@ == "application/json; charset=utf-8"@,
        r.body@ == vstd::utf8::encode_utf8(json_text(value@)),
{
    let t = to_json_text(value);
    let bytes = t.as_str().as_bytes();
    let mut v: Vec<u8> = Vec::new();
    crate::http::push_bytes(&mut v, bytes);
    assert(v@ =~= bytes@);
    RenderedResponse { status, reason, content_type: "application/json; charset=utf-8", body: v }
}

/// The object `{"detail": detail}`.
pub open spec fn detail_view(detail: Seq<char>) -> JsonView {
    JsonView::Object(seq![("detail"@, JsonView::Text(detail))])
}

/// An error response whose body is `{"detail": detail}`.
pub fn detail_error(status: u16, reason: &'static str, detail: &str) -> (r: RenderedResponse)
    ensures
        r.status == status,
        r.reason == reason,
        r.content_type@ == "application/json; charset=utf-8"@,
        r.body@ == vstd::utf8::encode_utf8(json_text(detail_view(detail@))),
{
    let mut members: Vec<(String, Json)> = Vec::new();
    push_member(&mut members, "detail", text(detail));
    let value = Json::Object(members);
    assert(value@ =~= detail_view(detail@));
    json_response(status, reason, &value)
}

/// The answer to a method other than `GET`.
pub fn method_not_allowed(method: &str) -> (r: RenderedResponse)
    ensures
        r.status == 405,
        r.reason@ == "Method Not Allowed"@,
        r.body@ == vstd::utf8::encode_utf8(json_text(detail_view(method@ + " is not supported"@))),
{
    let d = crate::text::concat(method, " is not supported");
    detail_error(405, "Method Not Allowed", d.as_str())
}

/// The answer to a path that no route serves.
pub fn not_found(path: &str) -> (r: RenderedResponse)
    ensures
        r.status == 404,
        r.reason@ == "Not Found"@,
        r.body@ == vstd::utf8::encode_utf8(json_text(detail_view("no route for "@ + path@))),
{
    let d = crate::text::concat("no route for ", path);
    detail_error(404, "Not Found", d.as_str())
}

/// The body of the answer to an invalid `symbol` parameter.
pub open spec fn invalid_symbol_body() -> Seq<u8> {
    vstd::utf8::encode_utf8(json_text(detail_view("symbol must be 1-12 characters of [A-Za-z0-9._-]"@)))
}

/// The answer to an invalid `symbol` parameter.
pub fn invalid_symbol() -> (r: RenderedResponse)
    ensures
        r.status == 422,
        r.reason@ == "Unprocessable Entity"@,
        r.body@ == invalid_symbol_body(),
{
    detail_error(422, "Unprocessable Entity", "symbol must be 1-12 characters of [A-Za-z0-9._-]")
}

/// The answer to `/api/recommendation` once the engine has run: the
/// decision, or `400` with the engine's message.
pub fn recommendation_response(result: &Result<Json, EngineError>) -> (r: RenderedResponse)
    ensures
        match result {
            Ok(v) => r.status == 200 && r.reason@ == "OK"@ && r.body@ == vstd::utf8::encode_utf8(json_text(v@)),
            Err(e) => r.status == 400 && r.reason@ == "Bad Request"@ && exists|m: Seq<char>|
                is_engine_message(*e, m) && r.body@ == vstd::utf8::encode_utf8(json_text(detail_view(m))),
        },
{
    match result {
        Ok(v) => json_response(200, "OK", v),
        Err(e) => {
            let m = e.message();
            detail_error(400, "Bad Request", m.as_str())
        },
    }
}

/// The answer to `/api/history` once the engine has run: the decisions
/// as an array, or `500` with the engine's message.
pub fn history_response(result: Result<Vec<Json>, EngineError>) -> (r: RenderedResponse)
    ensures
        match result {
            Ok(vs) => r.status == 200 && r.reason@ == "OK"@ && r.body@ == vstd::utf8::encode_utf8(
                json_text(Json::Array(vs)@),
            ),
            Err(e) => r.status == 500 && r.reason@ == "Internal Server Error"@ && exists|m: Seq<char>|
                is_engine_message(e, m) && r.body@ == vstd::utf8::encode_utf8(json_text(detail_view(m))),
        },
{
    match result {
        Ok(vs) => json_response(200, "OK", &Json::Array(vs)),
        Err(e) => {
            let m = e.message();
            detail_error(500, "Internal Server Error", m.as_str())
        },
    }
}

/// The answer to `/api/replay/<id>` once the engine has run: the replayed
/// decision, `404` when no decision has that ID, or `500` with the
/// engine's message.
pub fn replay_response(result: &Result<Json, EngineError>) -> (r: RenderedResponse)
    ensures
        match result {
            Ok(v) => r.status == 200 && r.reason@ == "OK"@ && r.body@ == vstd::utf8::encode_utf8(json_text(v@)),
            Err(EngineError::DecisionNotFound(id)) => r.status == 404 && r.reason@ == "Not Found"@ && r.body@
                == vstd::utf8::encode_utf8(json_text(detail_view("decision not found: "@ + id@))),
            Err(e) => r.status == 500 && r.reason@ == "Internal Server Error"@ && exists|m: Seq<char>|
                is_engine_message(*e, m) && r.body@ == vstd::utf8::encode_utf8(json_text(detail_view(m))),
        },
{
    match result {
        Ok(v) => json_response(200, "OK", v),
        Err(EngineError::DecisionNotFound(id)) => {
            let d = crate::text::concat("decision not found: ", id.as_str());
            detail_error(404, "Not Found", d.as_str())
        },
        Err(e) => {
            let m = e.message();
            detail_error(500, "Internal Server Error", m.as_str())
        },
    }
}

// ---------------------------------------------------------------------------
// Requests
// ---------------------------------------------------------------------------

/// What to do with a request.
pub enum RequestPlan {
    /// Answer at once with this response.
    Respond(RenderedResponse),
    /// Report the engine's health.
    Health,
    /// Recommend for this request (from the cache unless `fresh`).
    Recommendation(RecommendationRequest),
    /// List recent decisions.
    History(HistoryRequest),
    /// Replay the decision with this ID.
    Replay(String),
}

/// Whether a `/api/history` query names a symbol that is not valid.
pub open spec fn history_symbol_invalid(query: Map<Seq<char>, Seq<char>>) -> bool {
    query.contains_key("symbol"@) && query["symbol"@].len() > 0 && !is_valid_symbol(query["symbol"@])
}

/// The `limit` of a `/api/history` query: its number, 20 when it has none.
pub open spec fn history_limit(query: Map<Seq<char>, Seq<char>>) -> int {
    if query.contains_key("limit"@) {
        match parse_i64_spec(query["limit"@]) {
            Some(x) => x,
            None => 20,
        }
    } else {
        20
    }
}

/// Decides what a request needs: the routing rules, the validation of
/// query parameters, and the answers that need no engine (the HTML page,
/// `405`, `404` and `422`).
pub fn plan_request(req: &ParsedRequest) -> (r: RequestPlan)
    ensures
        match route_of(req.method@, req.path@) {
            RouteView::MethodNotAllowed => r matches RequestPlan::Respond(resp) && resp.status == 405 && resp.body@
                == vstd::utf8::encode_utf8(json_text(detail_view(req.method@ + " is not supported"@))),
            RouteView::Index => r matches RequestPlan::Respond(resp) && resp.status == 200 && resp.content_type@
                == "text/html; charset=utf-8"@ && resp.body@ == vstd::utf8::encode_utf8(INDEX_HTML@),
            RouteView::Health => r is Health,
            RouteView::Recommendation => if is_valid_symbol(requested_symbol(req.query@)) {
                r matches RequestPlan::Recommendation(q) && q.symbol@ == requested_symbol(req.query@).map_values(
                    |c: char| ascii_upper(c),
                ) && q.fresh == (req.query@.contains_key("fresh"@) && is_true_spelling(req.query@["fresh"@]))
            } else {
                r matches RequestPlan::Respond(resp) && resp.status == 422 && resp.body@ == invalid_symbol_body()
            },
            RouteView::History => if history_symbol_invalid(req.query@) {
                r matches RequestPlan::Respond(resp) && resp.status == 422 && resp.body@ == invalid_symbol_body()
            } else {
                r matches RequestPlan::History(h) && h.limit == history_limit(req.query@) && match h.symbol {
                    Some(s) => s@ == req.query@["symbol"@] && !(s@.len() == 0),
                    None => !(req.query@.contains_key("symbol"@) && req.query@["symbol"@].len() > 0),
                }
            },
            RouteView::Replay(id) => r matches RequestPlan::Replay(d) && d@ == id,
            RouteView::NotFound => r matches RequestPlan::Respond(resp) && resp.status == 404 && resp.body@
                == vstd::utf8::encode_utf8(json_text(detail_view("no route for "@ + req.path@))),
        },
{
    let target = route(req.method.as_str(), req.path.as_str());
    match target {
        Route::MethodNotAllowed => RequestPlan::Respond(method_not_allowed(req.method.as_str())),
        Route::Index => RequestPlan::Respond(html_response(INDEX_HTML)),
        Route::Health => RequestPlan::Health,
        Route::Recommendation => match recommendation_request(&req.query) {
            Some(q) => RequestPlan::Recommendation(q),
            None => RequestPlan::Respond(invalid_symbol()),
        },
        Route::History => match history_request(&req.query) {
            Some(h) => RequestPlan::History(h),
            None => RequestPlan::Respond(invalid_symbol()),
        },
        Route::Replay(id) => RequestPlan::Replay(id),
        Route::NotFound => RequestPlan::Respond(not_found(req.path.as_str())),
    }
}

} // verus!
