use smart_hedge::autonomous::{
    breaker_message, cycle_error_line, iteration_limit_line, stop_file_line, AutonomousLoop, CycleVerdict, LoopStart,
};
use smart_hedge::errors::ClientError;
use smart_hedge::evidence::TradeSide;
use smart_hedge::guard_cycle::{
    autonomous_cycle_line, demo_source_use_decision, guard_outcome, plan_guard_cycle, CyclePlan, GuardCycleOutcome,
    DEMO_SOURCE_ID, DEMO_SOURCE_RECORD_ID,
};
use smart_hedge::json::Json;
use smart_hedge::self_test::{check_recommendation, check_replay};

fn obj(members: Vec<(&str, Json)>) -> Json {
    Json::Object(members.into_iter().map(|(k, v)| (k.to_string(), v)).collect())
}

fn text(s: &str) -> Json {
    Json::Text(s.to_string())
}

#[test]
fn a_stop_file_halts_before_any_cycle() {
    let lp = AutonomousLoop::new(Some(5), 3);
    assert_eq!(lp.before_cycle(true), LoopStart::StopFile);
    assert_eq!(lp.before_cycle(false), LoopStart::RunCycle);
}

#[test]
fn the_iteration_limit_halts_after_that_many_cycles() {
    let mut lp = AutonomousLoop::new(Some(2), 3);
    assert_eq!(lp.before_cycle(false), LoopStart::RunCycle);
    assert_eq!(lp.after_cycle(true), CycleVerdict::Next);
    assert_eq!(lp.before_cycle(false), LoopStart::RunCycle);
    assert_eq!(lp.after_cycle(false), CycleVerdict::Retry { consecutive_errors: 1 });
    assert_eq!(lp.iteration(), 2);
    assert_eq!(lp.before_cycle(false), LoopStart::IterationLimit);
    // The stop file is checked first.
    assert_eq!(lp.before_cycle(true), LoopStart::StopFile);
}

#[test]
fn a_zero_iteration_limit_runs_nothing() {
    let lp = AutonomousLoop::new(Some(0), 3);
    assert_eq!(lp.before_cycle(false), LoopStart::IterationLimit);
}

#[test]
fn no_iteration_limit_keeps_running() {
    let mut lp = AutonomousLoop::new(None, 1);
    for _ in 0..100 {
        assert_eq!(lp.before_cycle(false), LoopStart::RunCycle);
        assert_eq!(lp.after_cycle(true), CycleVerdict::Next);
    }
    assert_eq!(lp.iteration(), 100);
}

#[test]
fn the_breaker_trips_on_the_third_error_in_a_row() {
    let mut lp = AutonomousLoop::new(None, 3);
    assert_eq!(lp.after_cycle(false), CycleVerdict::Retry { consecutive_errors: 1 });
    assert_eq!(lp.after_cycle(false), CycleVerdict::Retry { consecutive_errors: 2 });
    assert_eq!(lp.after_cycle(false), CycleVerdict::Halt { consecutive_errors: 3 });
}

#[test]
fn a_completed_cycle_resets_the_error_count() {
    let mut lp = AutonomousLoop::new(None, 3);
    assert_eq!(lp.after_cycle(false), CycleVerdict::Retry { consecutive_errors: 1 });
    assert_eq!(lp.after_cycle(false), CycleVerdict::Retry { consecutive_errors: 2 });
    assert_eq!(lp.after_cycle(true), CycleVerdict::Next);
    assert_eq!(lp.consecutive_errors(), 0);
    assert_eq!(lp.after_cycle(false), CycleVerdict::Retry { consecutive_errors: 1 });
    assert_eq!(lp.after_cycle(false), CycleVerdict::Retry { consecutive_errors: 2 });
    assert_eq!(lp.after_cycle(false), CycleVerdict::Halt { consecutive_errors: 3 });
    assert_eq!(lp.iteration(), 5);
}

#[test]
fn a_zero_error_limit_is_taken_as_one() {
    let mut lp = AutonomousLoop::new(None, 0);
    assert_eq!(lp.max_consecutive_errors(), 1);
    assert_eq!(lp.after_cycle(false), CycleVerdict::Halt { consecutive_errors: 1 });
}

#[test]
fn loop_lines_read_as_the_loop_prints_them() {
    assert_eq!(stop_file_line("/tmp/stop", 4), "stop file /tmp/stop present -- halting after 4 iteration(s)");
    assert_eq!(iteration_limit_line(10), "reached --max-iterations=10 -- halting");
    assert_eq!(cycle_error_line(7, 2, 5, "boom"), "iteration 7: error (2/5 consecutive): boom");
    assert_eq!(
        breaker_message(5, 5, "boom"),
        "halting after 5 consecutive errors (max_consecutive_errors=5); last error: boom"
    );
}

#[test]
fn cycle_lines_name_the_outcome() {
    let decision = obj(vec![("created_at", text("2026-07-19T00:00:00Z"))]);
    let none = GuardCycleOutcome::NoTradeProposed { action: "hold".to_string(), approved: false };
    assert_eq!(
        autonomous_cycle_line(3, "SPY", &decision, &none),
        "[3] 2026-07-19T00:00:00Z SPY no trade proposed (action=hold, approved=false)"
    );
    let rejected = GuardCycleOutcome::Rejected("insufficient buying power".to_string());
    assert_eq!(
        autonomous_cycle_line(0, "SPY", &decision, &rejected),
        "[0] 2026-07-19T00:00:00Z SPY rejected by trade-guard-mcp: insufficient buying power"
    );
    let filled = GuardCycleOutcome::Filled(obj(vec![(
        "order",
        obj(vec![("state", text("filled")), ("filled-quantity", text("12"))]),
    )]));
    assert_eq!(
        autonomous_cycle_line(12, "QQQ", &decision, &filled),
        "[12] 2026-07-19T00:00:00Z QQQ filled: state=filled quantity=12"
    );
}

#[test]
fn cycle_lines_fill_in_what_is_missing() {
    let decision = obj(vec![]);
    let filled = GuardCycleOutcome::Filled(obj(vec![("order", obj(vec![]))]));
    assert_eq!(autonomous_cycle_line(1, "SPY", &decision, &filled), "[1]  SPY filled: state=? quantity=?");
    let approved = GuardCycleOutcome::NoTradeProposed { action: "paper_rebalance_preview".to_string(), approved: true };
    assert_eq!(
        autonomous_cycle_line(2, "SPY", &Json::Null, &approved),
        "[2]  SPY no trade proposed (action=paper_rebalance_preview, approved=true)"
    );
}

fn safe_recommendation() -> Json {
    obj(vec![
        ("mode", text("paper")),
        ("policy", obj(vec![("live_execution_allowed", Json::Bool(false))])),
        ("audit", obj(vec![("broker_order_endpoint_present", Json::Bool(false))])),
    ])
}

#[test]
fn a_paper_only_recommendation_passes_the_self_test() {
    assert_eq!(check_recommendation(&safe_recommendation()), None);
}

#[test]
fn each_paper_only_check_has_its_message() {
    let live = obj(vec![("mode", text("live"))]);
    assert_eq!(check_recommendation(&live), Some("mode was not paper".to_string()));
    let allowed = obj(vec![
        ("mode", text("paper")),
        ("policy", obj(vec![("live_execution_allowed", Json::Bool(true))])),
    ]);
    assert_eq!(check_recommendation(&allowed), Some("live_execution_allowed was not false".to_string()));
    let endpoint = obj(vec![
        ("mode", text("paper")),
        ("policy", obj(vec![("live_execution_allowed", Json::Bool(false))])),
        ("audit", obj(vec![])),
    ]);
    assert_eq!(check_recommendation(&endpoint), Some("broker_order_endpoint_present was not false".to_string()));
}

#[test]
fn a_replay_must_confirm_its_content_hash() {
    let good = obj(vec![("audit", obj(vec![("stored_content_hash_valid", Json::Bool(true))]))]);
    assert_eq!(check_replay(&good), None);
    let bad = obj(vec![("audit", obj(vec![("stored_content_hash_valid", Json::Bool(false))]))]);
    assert_eq!(check_replay(&bad), Some("stored_content_hash_valid was not true on replay".to_string()));
    assert_eq!(check_replay(&Json::Null), Some("stored_content_hash_valid was not true on replay".to_string()));
}

fn decision(action: &str, approved: bool, shares: Json) -> Json {
    obj(vec![
        ("created_at", text("2026-07-19T15:00:00Z")),
        ("decision_id", text("d-42")),
        (
            "policy",
            obj(vec![
                ("action", text(action)),
                ("paper_preview_approved", Json::Bool(approved)),
                ("paper_trade_preview_shares", shares),
            ]),
        ),
    ])
}

fn number(t: &str) -> Json {
    Json::Number(t.to_string())
}

#[test]
fn an_approved_nonzero_preview_is_a_trade() {
    match plan_guard_cycle(&decision("paper_rebalance_preview", true, number("-12.5")), "SpY") {
        CyclePlan::Trade(t) => {
            assert_eq!(t.decision_id, "d-42");
            assert_eq!(t.created_at, "2026-07-19T15:00:00Z");
            assert_eq!(t.evidence_bundle_id, "bundle-d-42");
            assert_eq!(t.instrument_id, "us-equity-spy");
            assert_eq!(t.side, TradeSide::Sell);
            assert_eq!(t.preview_shares, "-12.5");
        }
        CyclePlan::NoTrade { .. } => panic!("expected a trade"),
    }
    match plan_guard_cycle(&decision("paper_rebalance_preview", true, number("3")), "QQQ") {
        CyclePlan::Trade(t) => assert_eq!(t.side, TradeSide::Buy),
        CyclePlan::NoTrade { .. } => panic!("expected a trade"),
    }
}

#[test]
fn no_trade_is_proposed_without_an_approved_nonzero_preview() {
    for d in [
        decision("hold", true, number("5")),
        decision("paper_rebalance_preview", false, number("5")),
        decision("paper_rebalance_preview", true, number("0.0")),
        decision("paper_rebalance_preview", true, text("5")),
    ] {
        assert!(matches!(plan_guard_cycle(&d, "SPY"), CyclePlan::NoTrade { .. }));
    }
    match plan_guard_cycle(&decision("hold", true, number("5")), "SPY") {
        CyclePlan::NoTrade { action, approved } => {
            assert_eq!(action, "hold");
            assert!(approved);
        }
        CyclePlan::Trade(_) => panic!("expected no trade"),
    }
}

#[test]
fn a_trade_without_ids_gets_the_defaults() {
    let d = obj(vec![(
        "policy",
        obj(vec![
            ("action", text("paper_rebalance_preview")),
            ("paper_preview_approved", Json::Bool(true)),
            ("paper_trade_preview_shares", number("1")),
        ]),
    )]);
    match plan_guard_cycle(&d, "SPY") {
        CyclePlan::Trade(t) => {
            assert_eq!(t.decision_id, "unknown-decision");
            assert_eq!(t.created_at, "1970-01-01T00:00:00Z");
            assert_eq!(t.evidence_bundle_id, "bundle-unknown-decision");
        }
        CyclePlan::NoTrade { .. } => panic!("expected a trade"),
    }
}

#[test]
fn the_guards_answer_is_read_as_fill_rejection_or_error() {
    let reply = obj(vec![("order", obj(vec![("state", text("filled"))]))]);
    assert!(matches!(guard_outcome(Ok(reply)), Ok(GuardCycleOutcome::Filled(_))));
    match guard_outcome(Err(ClientError::Tool("insufficient buying power".to_string()))) {
        Ok(GuardCycleOutcome::Rejected(t)) => assert_eq!(t, "insufficient buying power"),
        _ => panic!("expected a rejection"),
    }
    match guard_outcome(Err(ClientError::UnexpectedEof)) {
        Err(m) => assert_eq!(
            m,
            "trade-guard-mcp authorize-and-submit-paper-order failed: MCP server process closed its output before responding"
        ),
        _ => panic!("expected an error"),
    }
}

#[test]
fn the_demo_decision_is_research_only() {
    let d = demo_source_use_decision();
    let Json::Object(members) = &d else { panic!("expected an object") };
    let get = |k: &str| members.iter().find(|(n, _)| n == k).map(|(_, v)| v);
    assert_eq!(get("source-id"), Some(&text(DEMO_SOURCE_ID)));
    assert_eq!(get("trading-use"), Some(&text("research-only")));
    assert_eq!(get("public-access"), Some(&Json::Bool(true)));
    assert_eq!(get("reason-codes"), Some(&Json::Array(vec![text("statutory-commercial-use-restriction")])));
    assert_eq!(members.len(), 11);
    assert_eq!(DEMO_SOURCE_RECORD_ID, "fixture-political-disclosure-1");
}
