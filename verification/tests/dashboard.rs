use smart_hedge::engine::health_report;
use smart_hedge::errors::EngineError;
use smart_hedge::http::{read_request_text, write_response};
use smart_hedge::routes::{history_response, json_response, plan_request, replay_response, RequestPlan};

/// Answers one raw request the way the dashboard does, for a dashboard
/// whose decision store is empty: the library reads the request, plans
/// it, and renders the answer; the engine's part is the empty store.
fn raw_request(request: &str) -> String {
    let req = read_request_text(request).expect("a well-formed request");
    let response = match plan_request(&req) {
        RequestPlan::Respond(r) => r,
        RequestPlan::Health => {
            json_response(200, "OK", &health_report("SyntheticProvider", "HeuristicAdvisor", "decisions.sqlite3"))
        }
        RequestPlan::Replay(id) => replay_response(&Err(EngineError::DecisionNotFound(id))),
        RequestPlan::History(_) => history_response(Ok(vec![])),
        RequestPlan::Recommendation(_) => panic!("recommendations need the engine"),
    };
    let mut bytes = Vec::new();
    write_response(&mut bytes, response.status, response.reason, response.content_type, &response.body).unwrap();
    String::from_utf8(bytes).unwrap()
}

#[test]
fn health_endpoint_returns_200_and_reports_no_order_endpoint() {
    let response = raw_request("GET /api/health HTTP/1.1\r\nHost: localhost\r\nConnection: close\r\n\r\n");
    assert!(response.starts_with("HTTP/1.1 200"), "response was: {response}");
    assert!(response.contains("\"broker_order_endpoint_present\":false"), "response was: {response}");
}

#[test]
fn index_page_returns_the_html_console() {
    let response = raw_request("GET / HTTP/1.1\r\nHost: localhost\r\nConnection: close\r\n\r\n");
    assert!(response.starts_with("HTTP/1.1 200"), "response was: {response}");
    assert!(response.contains("Content-Type: text/html"), "response was: {response}");
    assert!(response.contains("Smart Dynamic Hedge"), "response was: {response}");
}

#[test]
fn an_invalid_symbol_is_rejected_with_422() {
    let response =
        raw_request("GET /api/recommendation?symbol=bad%20symbol HTTP/1.1\r\nHost: localhost\r\nConnection: close\r\n\r\n");
    assert!(response.starts_with("HTTP/1.1 422"), "response was: {response}");
}

#[test]
fn replay_of_an_unknown_decision_returns_404() {
    let response = raw_request("GET /api/replay/does-not-exist HTTP/1.1\r\nHost: localhost\r\nConnection: close\r\n\r\n");
    assert!(response.starts_with("HTTP/1.1 404"), "response was: {response}");
}

#[test]
fn an_unknown_route_returns_404() {
    let response = raw_request("GET /nope HTTP/1.1\r\nHost: localhost\r\nConnection: close\r\n\r\n");
    assert!(response.starts_with("HTTP/1.1 404"), "response was: {response}");
}

#[test]
fn a_non_get_method_returns_405() {
    let response = raw_request("POST /api/health HTTP/1.1\r\nHost: localhost\r\nConnection: close\r\n\r\n");
    assert!(response.starts_with("HTTP/1.1 405"), "response was: {response}");
}

#[test]
fn history_endpoint_returns_a_json_array() {
    let response = raw_request("GET /api/history?limit=5 HTTP/1.1\r\nHost: localhost\r\nConnection: close\r\n\r\n");
    assert!(response.starts_with("HTTP/1.1 200"), "response was: {response}");
    let body_start = response.find("\r\n\r\n").map(|i| i + 4).unwrap_or(0);
    assert!(response[body_start..].trim_start().starts_with('['), "response was: {response}");
}
