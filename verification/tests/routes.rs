use smart_hedge::html::INDEX_HTML;
use smart_hedge::http::{parse_query, ParsedRequest, QueryMap};
use smart_hedge::routes::{
    history_request, html_response, parse_bool_flag, parse_positive_i64, plan_request, recommendation_request,
    route, valid_symbol, RequestPlan, Route,
};

#[test]
fn valid_symbol_accepts_typical_tickers() {
    assert!(valid_symbol("SPY"));
    assert!(valid_symbol("BRK.B"));
    assert!(valid_symbol("a"));
}

#[test]
fn valid_symbol_rejects_empty_and_overlong_and_bad_characters() {
    assert!(!valid_symbol(""));
    assert!(!valid_symbol(&"x".repeat(13)));
    assert!(!valid_symbol("SP Y"));
    assert!(!valid_symbol("SPY;DROP"));
}

#[test]
fn parse_bool_flag_recognizes_common_true_spellings() {
    assert!(parse_bool_flag(Some(&"true".to_string())));
    assert!(parse_bool_flag(Some(&"1".to_string())));
    assert!(!parse_bool_flag(Some(&"false".to_string())));
    assert!(!parse_bool_flag(None));
}

#[test]
fn parse_positive_i64_falls_back_to_default_on_garbage() {
    assert_eq!(parse_positive_i64(Some(&"not-a-number".to_string()), 20), 20);
    assert_eq!(parse_positive_i64(Some(&"5".to_string()), 20), 5);
    assert_eq!(parse_positive_i64(None, 20), 20);
}

#[test]
fn every_true_spelling_is_accepted_and_nothing_else() {
    for s in ["true", "1", "yes", "True", "TRUE"] {
        assert!(parse_bool_flag(Some(&s.to_string())), "{s}");
    }
    for s in ["tRUE", "on", "", "0", "no"] {
        assert!(!parse_bool_flag(Some(&s.to_string())), "{s}");
    }
}

#[test]
fn routes_follow_the_method_and_path() {
    assert!(matches!(route("POST", "/api/health"), Route::MethodNotAllowed));
    assert!(matches!(route("GET", "/"), Route::Index));
    assert!(matches!(route("GET", "/api/health"), Route::Health));
    assert!(matches!(route("GET", "/api/recommendation"), Route::Recommendation));
    assert!(matches!(route("GET", "/api/history"), Route::History));
    match route("GET", "/api/replay/abc-123") {
        Route::Replay(id) => assert_eq!(id, "abc-123"),
        _ => panic!("expected a replay route"),
    }
    assert!(matches!(route("GET", "/api/replay/"), Route::NotFound));
    assert!(matches!(route("GET", "/api/replay/a/b"), Route::NotFound));
    assert!(matches!(route("GET", "/nope"), Route::NotFound));
}

#[test]
fn recommendation_requests_default_to_spy_and_uppercase_the_symbol() {
    let r = recommendation_request(&QueryMap::new()).unwrap();
    assert_eq!(r.symbol, "SPY");
    assert!(!r.fresh);
    let r = recommendation_request(&parse_query("symbol=qqq&fresh=yes")).unwrap();
    assert_eq!(r.symbol, "QQQ");
    assert!(r.fresh);
    assert!(recommendation_request(&parse_query("symbol=bad%20sym")).is_none());
}

#[test]
fn history_requests_validate_a_non_empty_symbol() {
    let h = history_request(&parse_query("limit=5&symbol=SPY")).unwrap();
    assert_eq!(h.limit, 5);
    assert_eq!(h.symbol.as_deref(), Some("SPY"));
    let h = history_request(&parse_query("limit=x&symbol=")).unwrap();
    assert_eq!(h.limit, 20);
    assert!(h.symbol.is_none());
    assert!(history_request(&parse_query("symbol=no;way")).is_none());
}

#[test]
fn html_responses_are_ok_with_the_body_bytes() {
    let r = html_response("<p>hi</p>");
    assert_eq!(r.status, 200);
    assert_eq!(r.reason, "OK");
    assert_eq!(r.content_type, "text/html; charset=utf-8");
    assert_eq!(r.body, b"<p>hi</p>".to_vec());
}

fn request(method: &str, path: &str, query: &str) -> ParsedRequest {
    ParsedRequest { method: method.to_string(), path: path.to_string(), query: parse_query(query) }
}

#[test]
fn planning_answers_what_needs_no_engine() {
    match plan_request(&request("POST", "/api/health", "")) {
        RequestPlan::Respond(r) => {
            assert_eq!(r.status, 405);
            assert_eq!(String::from_utf8(r.body).unwrap(), "{\"detail\":\"POST is not supported\"}");
        }
        _ => panic!("expected a response"),
    }
    match plan_request(&request("GET", "/", "")) {
        RequestPlan::Respond(r) => {
            assert_eq!(r.status, 200);
            assert_eq!(r.content_type, "text/html; charset=utf-8");
            assert_eq!(r.body, INDEX_HTML.as_bytes());
            assert!(INDEX_HTML.starts_with("<!doctype html>"));
        }
        _ => panic!("expected the page"),
    }
    match plan_request(&request("GET", "/api/nowhere", "")) {
        RequestPlan::Respond(r) => {
            assert_eq!(r.status, 404);
            assert_eq!(String::from_utf8(r.body).unwrap(), "{\"detail\":\"no route for /api/nowhere\"}");
        }
        _ => panic!("expected not found"),
    }
}

#[test]
fn planning_validates_queries_before_the_engine_runs() {
    assert!(matches!(plan_request(&request("GET", "/api/health", "")), RequestPlan::Health));
    match plan_request(&request("GET", "/api/recommendation", "symbol=qqq&fresh=1")) {
        RequestPlan::Recommendation(q) => {
            assert_eq!(q.symbol, "QQQ");
            assert!(q.fresh);
        }
        _ => panic!("expected a recommendation"),
    }
    match plan_request(&request("GET", "/api/recommendation", "symbol=SP%20Y")) {
        RequestPlan::Respond(r) => assert_eq!(r.status, 422),
        _ => panic!("expected 422"),
    }
    match plan_request(&request("GET", "/api/history", "limit=5&symbol=")) {
        RequestPlan::History(h) => {
            assert_eq!(h.limit, 5);
            assert_eq!(h.symbol, None);
        }
        _ => panic!("expected history"),
    }
    match plan_request(&request("GET", "/api/history", "symbol=bad;symbol")) {
        RequestPlan::Respond(r) => assert_eq!(r.status, 422),
        _ => panic!("expected 422"),
    }
    match plan_request(&request("GET", "/api/replay/abc-123", "")) {
        RequestPlan::Replay(id) => assert_eq!(id, "abc-123"),
        _ => panic!("expected a replay"),
    }
}
