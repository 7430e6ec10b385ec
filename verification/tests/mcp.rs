use smart_hedge::errors::ClientError;
use smart_hedge::json::Json;
use smart_hedge::mcp::{
    evidence_bundle_arguments, order_arguments, response_from_line, response_outcome, rpc_request, source_ids,
    tool_call_params, tool_json, tool_outcome, RequestIds,
};

fn obj(members: Vec<(&str, Json)>) -> Json {
    Json::Object(members.into_iter().map(|(k, v)| (k.to_string(), v)).collect())
}

#[test]
fn request_ids_count_up_from_one() {
    let mut ids = RequestIds::new();
    assert_eq!(ids.next_request_id(), 1);
    assert_eq!(ids.next_request_id(), 2);
    assert_eq!(ids.next_request_id(), 3);
}

#[test]
fn requests_carry_the_id_method_and_params() {
    let r = rpc_request(7, "tools/list", Json::Null);
    assert_eq!(
        r,
        obj(vec![
            ("id", Json::Number("7".to_string())),
            ("jsonrpc", Json::Text("2.0".to_string())),
            ("method", Json::Text("tools/list".to_string())),
            ("params", Json::Null),
        ])
    );
    let p = tool_call_params("health", obj(vec![]));
    assert_eq!(p, obj(vec![("name", Json::Text("health".to_string())), ("arguments", obj(vec![]))]));
}

#[test]
fn an_error_response_is_a_protocol_error() {
    let resp = obj(vec![(
        "error",
        obj(vec![("code", Json::Number("-32601".to_string())), ("message", Json::Text("Method not found".to_string()))]),
    )]);
    match response_outcome(&resp) {
        Err(ClientError::Protocol { code, message }) => {
            assert_eq!(code, -32601);
            assert_eq!(message, "Method not found");
        }
        other => panic!("expected a protocol error, got {other:?}"),
    }
    match response_outcome(&obj(vec![("error", Json::Null)])) {
        Err(ClientError::Protocol { code, message }) => {
            assert_eq!(code, 0);
            assert_eq!(message, "");
        }
        other => panic!("expected a protocol error, got {other:?}"),
    }
}

#[test]
fn a_result_response_yields_its_result_or_null() {
    let resp = obj(vec![("result", obj(vec![("tools", Json::Array(vec![]))]))]);
    assert_eq!(response_outcome(&resp).unwrap(), obj(vec![("tools", Json::Array(vec![]))]));
    assert_eq!(response_outcome(&obj(vec![])).unwrap(), Json::Null);
}

#[test]
fn tool_results_yield_their_first_text_or_a_tool_error() {
    let content = |t: &str| Json::Array(vec![obj(vec![("type", Json::Text("text".to_string())), ("text", Json::Text(t.to_string()))])]);
    assert_eq!(tool_outcome(&obj(vec![("content", content("{\"ok\":true}"))])).unwrap(), "{\"ok\":true}");
    match tool_outcome(&obj(vec![("content", content("boom")), ("isError", Json::Bool(true))])) {
        Err(ClientError::Tool(t)) => assert_eq!(t, "boom"),
        other => panic!("expected a tool error, got {other:?}"),
    }
    assert_eq!(tool_outcome(&obj(vec![("content", Json::Array(vec![]))])).unwrap(), "");
    assert_eq!(tool_outcome(&Json::Null).unwrap(), "");
}

#[test]
fn order_arguments_carry_the_evidence_only_when_given() {
    let intent = obj(vec![("side", Json::Text("buy".to_string()))]);
    assert_eq!(order_arguments(intent.deep_copy(), None), obj(vec![("intent", intent.deep_copy())]));
    assert_eq!(
        order_arguments(intent.deep_copy(), Some(Json::Null)),
        obj(vec![("intent", intent.deep_copy()), ("evidence", Json::Null)])
    );
}

#[test]
fn source_ids_keep_only_the_strings() {
    let result = obj(vec![(
        "source_ids",
        Json::Array(vec![Json::Text("a".to_string()), Json::Number("3".to_string()), Json::Text("b".to_string())]),
    )]);
    assert_eq!(source_ids(&result), vec!["a".to_string(), "b".to_string()]);
    assert!(source_ids(&obj(vec![("source_ids", Json::Null)])).is_empty());
    assert!(source_ids(&Json::Null).is_empty());
}

#[test]
fn evidence_bundle_arguments_name_every_field() {
    let args = evidence_bundle_arguments("bundle-1", vec![Json::Null], "research", "2026-07-20T00:00:00Z");
    assert_eq!(
        args,
        obj(vec![
            ("evidence_bundle_id", Json::Text("bundle-1".to_string())),
            ("items", Json::Array(vec![Json::Null])),
            ("purpose", Json::Text("research".to_string())),
            ("decision_time", Json::Text("2026-07-20T00:00:00Z".to_string())),
        ])
    );
}

#[test]
fn response_lines_are_parsed_then_read() {
    let ok = response_from_line("  {\"jsonrpc\":\"2.0\",\"id\":1,\"result\":{\"x\":1}}\r\n").unwrap();
    assert_eq!(ok, obj(vec![("x", Json::Number("1".to_string()))]));
    match response_from_line("{\"error\":{\"code\":-32601,\"message\":\"nope\"}}") {
        Err(ClientError::Protocol { code, message }) => {
            assert_eq!(code, -32601);
            assert_eq!(message, "nope");
        }
        other => panic!("unexpected {other:?}"),
    }
    assert!(matches!(response_from_line("not json"), Err(ClientError::Parse(_))));
}

#[test]
fn tool_text_is_parsed_as_json() {
    assert_eq!(tool_json("[1,true]").unwrap(), Json::Array(vec![Json::Number("1".to_string()), Json::Bool(true)]));
    assert!(matches!(tool_json("{"), Err(ClientError::Parse(_))));
}
