use smart_hedge::evidence::TradeSide;
use smart_hedge::guard::{build_trade_intent, trim_decimal_text, TradeIntentParams};
use smart_hedge::json::Json;

/// The quantity text the guard expects: eight decimals, then trimmed.
fn format_decimal_string(value: f64) -> String {
    trim_decimal_text(&format!("{:.8}", value.abs()))
}

#[test]
fn format_decimal_string_trims_trailing_zeros() {
    assert_eq!(format_decimal_string(45.0), "45");
    assert_eq!(format_decimal_string(0.5), "0.5");
    assert_eq!(format_decimal_string(10.50000000), "10.5");
}

#[test]
fn format_decimal_string_rounds_to_eight_fractional_digits() {
    assert_eq!(format_decimal_string(1.0 / 3.0), "0.33333333");
}

#[test]
fn format_decimal_string_never_produces_a_negative_sign() {
    assert_eq!(format_decimal_string(-45.0), "45");
}

#[test]
fn format_decimal_string_zero_is_bare_zero() {
    assert_eq!(format_decimal_string(0.0), "0");
}

#[test]
fn trimming_keeps_significant_zeros() {
    assert_eq!(trim_decimal_text("100.00000000"), "100");
    assert_eq!(trim_decimal_text("0.00000000"), "0");
    assert_eq!(trim_decimal_text("20.05000000"), "20.05");
    assert_eq!(trim_decimal_text(""), "0");
}

fn params(side: TradeSide, quantity: &str, confidence: &str, bundle: Option<&str>) -> TradeIntentParams {
    TradeIntentParams {
        intent_id: "intent-1".to_string(),
        strategy_id: "smart-dynamic-hedge".to_string(),
        decision_id: "decision-1".to_string(),
        account_alias: "paper-default".to_string(),
        instrument_id: "us-equity-spy".to_string(),
        symbol: "SPY".to_string(),
        side,
        quantity: quantity.to_string(),
        decision_time: "2026-07-20T00:00:00Z".to_string(),
        confidence: confidence.to_string(),
        idempotency_key: "decision-1".to_string(),
        evidence_bundle_id: bundle.map(|b| b.to_string()),
    }
}

fn text_at<'a>(v: &'a Json, key: &str) -> Option<&'a str> {
    v.get(key).and_then(|x| x.as_str())
}

#[test]
fn build_trade_intent_produces_the_expected_kebab_case_shape() {
    let intent = build_trade_intent(&params(TradeSide::Buy, &format_decimal_string(45.0), "0.8", Some("bundle-1")));
    assert_eq!(text_at(&intent, "side"), Some("buy"));
    assert_eq!(text_at(&intent, "quantity"), Some("45"));
    assert_eq!(text_at(&intent, "mode"), Some("paper"));
    assert_eq!(intent.get("instrument").and_then(|i| text_at(i, "asset-class")), Some("equity"));
    assert_eq!(text_at(&intent, "evidence-bundle-id"), Some("bundle-1"));
    assert_eq!(intent.get("confidence"), Some(&Json::Number("0.8".to_string())));
    assert_eq!(intent.get("signal-ids"), Some(&Json::Array(vec![])));
}

#[test]
fn build_trade_intent_sell_side() {
    let intent = build_trade_intent(&params(TradeSide::Sell, &format_decimal_string(10.0), "0.5", None));
    assert_eq!(text_at(&intent, "side"), Some("sell"));
    assert_eq!(intent.get("evidence-bundle-id"), Some(&Json::Null));
}
