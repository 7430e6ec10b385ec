use smart_hedge::engine::{
    advisor_source, check_contract_kinds, health_report, mark_replay, select_advisor, select_provider, AdvisorKind,
    AdvisorSource, ProviderKind, ENGINE_VERSION, REPLAY_MODE,
};
use smart_hedge::errors::EngineError;
use smart_hedge::json::Json;
use smart_hedge::routes::{
    detail_error, history_response, invalid_symbol, json_response, method_not_allowed, not_found,
    recommendation_response, replay_response,
};

fn obj(members: Vec<(&str, Json)>) -> Json {
    Json::Object(members.into_iter().map(|(k, v)| (k.to_string(), v)).collect())
}

fn text(s: &str) -> Json {
    Json::Text(s.to_string())
}

fn body(r: &smart_hedge::routes::RenderedResponse) -> String {
    String::from_utf8(r.body.clone()).unwrap()
}

#[test]
fn provider_kinds_are_matched_case_insensitively() {
    assert_eq!(select_provider("synthetic").unwrap(), ProviderKind::Synthetic);
    assert_eq!(select_provider("Synthetic").unwrap(), ProviderKind::Synthetic);
    assert_eq!(select_provider("alpaca").unwrap(), ProviderKind::AlpacaReadOnly);
    assert_eq!(select_provider("ALPACA-READONLY").unwrap(), ProviderKind::AlpacaReadOnly);
    assert_eq!(select_provider("alpaca_readonly").unwrap(), ProviderKind::AlpacaReadOnly);
}

#[test]
fn an_unknown_provider_kind_is_named_in_lower_case() {
    match select_provider("Totally-Made-Up") {
        Err(EngineError::UnknownProviderKind(k)) => assert_eq!(k, "totally-made-up"),
        other => panic!("unexpected {other:?}"),
    }
}

#[test]
fn advisor_kinds_are_matched_case_insensitively() {
    for k in ["heuristic", "none", "LOCAL"] {
        assert_eq!(select_advisor(k).unwrap(), AdvisorKind::Heuristic);
    }
    for k in ["openai", "Responses"] {
        assert_eq!(select_advisor(k).unwrap(), AdvisorKind::OpenAI);
    }
    match select_advisor("gpt") {
        Err(EngineError::UnknownAdvisorKind(k)) => assert_eq!(k, "gpt"),
        other => panic!("unexpected {other:?}"),
    }
}

#[test]
fn a_registered_adviser_name_takes_priority_over_the_legacy_kind() {
    assert_eq!(
        advisor_source("default", Some("openai://gpt-4.1")).unwrap(),
        AdvisorSource::Registry("openai://gpt-4.1".to_string())
    );
    assert_eq!(advisor_source("default", None).unwrap(), AdvisorSource::LegacyKind);
}

#[test]
fn an_unregistered_non_default_adviser_name_is_an_error() {
    match advisor_source("totally-unconfigured", None) {
        Err(EngineError::UnknownAdvisorKind(m)) => assert_eq!(
            m,
            "no model named \"totally-unconfigured\" in config.model.models (configure it there, or use \"default\" for the legacy model.kind/model.name selection)"
        ),
        other => panic!("unexpected {other:?}"),
    }
}

#[test]
fn contract_kinds_are_checked_option_type_first() {
    assert!(check_contract_kinds("call", "american").is_ok());
    assert!(check_contract_kinds("put", "european").is_ok());
    assert!(matches!(check_contract_kinds("straddle", "bermudan"), Err(EngineError::InvalidOptionType(s)) if s == "straddle"));
    assert!(matches!(check_contract_kinds("call", "bermudan"), Err(EngineError::InvalidExerciseStyle(s)) if s == "bermudan"));
    assert!(matches!(check_contract_kinds("Call", "american"), Err(EngineError::InvalidOptionType(_))));
}

#[test]
fn health_reports_paper_mode_and_no_broker_endpoint() {
    let h = health_report("SyntheticProvider", "HeuristicAdvisor", "/tmp/decisions.sqlite3");
    assert_eq!(
        h,
        obj(vec![
            ("advisor", text("HeuristicAdvisor")),
            ("broker_order_endpoint_present", Json::Bool(false)),
            ("database", text("/tmp/decisions.sqlite3")),
            ("engine_version", text(ENGINE_VERSION)),
            ("mode", text("paper")),
            ("provider", text("SyntheticProvider")),
            ("status", text("ok")),
        ])
    );
    assert_eq!(ENGINE_VERSION, "smart-orchestrator-rust-v0.1.0");
}

#[test]
fn a_replayed_decision_is_marked_in_its_audit() {
    let mut payload = obj(vec![
        ("audit", obj(vec![("engine_version", text("v")), ("secrets_sent_to_model", Json::Bool(false))])),
        ("decision_id", text("d1")),
    ]);
    mark_replay(&mut payload);
    assert_eq!(
        payload,
        obj(vec![
            (
                "audit",
                obj(vec![
                    ("engine_version", text("v")),
                    ("replay_mode", text(REPLAY_MODE)),
                    ("secrets_sent_to_model", Json::Bool(false)),
                ])
            ),
            ("decision_id", text("d1")),
        ])
    );
    assert_eq!(REPLAY_MODE, "stored_inputs_and_outputs_no_network");
}

#[test]
fn a_replayed_decision_without_audit_gains_one() {
    let mut payload = obj(vec![("decision_id", text("d1")), ("mode", text("paper"))]);
    mark_replay(&mut payload);
    assert_eq!(
        payload,
        obj(vec![
            ("audit", obj(vec![("replay_mode", text(REPLAY_MODE))])),
            ("decision_id", text("d1")),
            ("mode", text("paper")),
        ])
    );
}

#[test]
fn a_non_object_audit_is_left_alone_on_replay() {
    let mut payload = obj(vec![("audit", text("legacy"))]);
    mark_replay(&mut payload);
    assert_eq!(payload, obj(vec![("audit", text("legacy"))]));
}

#[test]
fn a_replay_mark_overwrites_an_earlier_one() {
    let mut payload = obj(vec![("audit", obj(vec![("replay_mode", text("old"))]))]);
    mark_replay(&mut payload);
    assert_eq!(payload, obj(vec![("audit", obj(vec![("replay_mode", text(REPLAY_MODE))]))]));
}

#[test]
fn json_responses_carry_compact_json() {
    let r = json_response(200, "OK", &obj(vec![("a", Json::Number("1".to_string())), ("b", Json::Null)]));
    assert_eq!(r.status, 200);
    assert_eq!(r.reason, "OK");
    assert_eq!(r.content_type, "application/json; charset=utf-8");
    assert_eq!(body(&r), "{\"a\":1,\"b\":null}");
    let e = detail_error(418, "I'm a teapot", "short \"and\" stout");
    assert_eq!(body(&e), "{\"detail\":\"short \\\"and\\\" stout\"}");
}

#[test]
fn rejected_requests_are_answered_with_a_detail() {
    let r = method_not_allowed("POST");
    assert_eq!((r.status, r.reason), (405, "Method Not Allowed"));
    assert_eq!(body(&r), "{\"detail\":\"POST is not supported\"}");
    let r = not_found("/nope");
    assert_eq!((r.status, r.reason), (404, "Not Found"));
    assert_eq!(body(&r), "{\"detail\":\"no route for /nope\"}");
    let r = invalid_symbol();
    assert_eq!((r.status, r.reason), (422, "Unprocessable Entity"));
    assert_eq!(body(&r), "{\"detail\":\"symbol must be 1-12 characters of [A-Za-z0-9._-]\"}");
}

#[test]
fn engine_results_become_responses() {
    let ok = recommendation_response(&Ok(obj(vec![("mode", text("paper"))])));
    assert_eq!((ok.status, body(&ok)), (200, "{\"mode\":\"paper\"}".to_string()));
    let bad = recommendation_response(&Err(EngineError::UnknownSymbol("NOPE".to_string())));
    assert_eq!(bad.status, 400);
    assert_eq!(body(&bad), "{\"detail\":\"no contract configured for NOPE; add contracts.NOPE to the config\"}");
    let hist = history_response(Ok(vec![text("a"), text("b")]));
    assert_eq!((hist.status, body(&hist)), (200, "[\"a\",\"b\"]".to_string()));
    let broken = history_response(Err(EngineError::Store("disk full".to_string())));
    assert_eq!((broken.status, broken.reason), (500, "Internal Server Error"));
    assert_eq!(body(&broken), "{\"detail\":\"disk full\"}");
    let missing = replay_response(&Err(EngineError::DecisionNotFound("d9".to_string())));
    assert_eq!((missing.status, body(&missing)), (404, "{\"detail\":\"decision not found: d9\"}".to_string()));
    let failed = replay_response(&Err(EngineError::Store("locked".to_string())));
    assert_eq!(failed.status, 500);
    let replayed = replay_response(&Ok(obj(vec![])));
    assert_eq!((replayed.status, body(&replayed)), (200, "{}".to_string()));
}
