use smart_hedge::alpaca::{
    alpaca_bars, alpaca_bars_from_text, alpaca_credentials, alpaca_payload_from_text, alpaca_quote,
    is_zero_number_text, trim_end_slashes, BarText,
};
use smart_hedge::errors::DataError;
use smart_hedge::json::Json;

const NOW: &str = "2026-07-20T12:00:00Z";

fn payload(text: &str) -> Json {
    alpaca_payload_from_text(text).unwrap()
}

fn unexpected(r: Result<Vec<BarText>, DataError>) -> String {
    match r {
        Err(DataError::UnexpectedResponse(m)) => m,
        _ => panic!("expected an unexpected-response error"),
    }
}

#[test]
fn missing_api_key_is_rejected() {
    assert!(matches!(alpaca_credentials("", "secret"), Err(DataError::MissingEnvVar(_))));
}

#[test]
fn missing_api_secret_is_rejected() {
    assert!(matches!(alpaca_credentials("key", ""), Err(DataError::MissingEnvVar(_))));
}

#[test]
fn valid_credentials_construct_successfully() {
    assert!(alpaca_credentials("key", "secret").is_ok());
}

#[test]
fn missing_credentials_name_both_variables() {
    match alpaca_credentials("", "") {
        Err(DataError::MissingEnvVar(n)) => assert_eq!(n, "ALPACA_API_KEY_ID and ALPACA_API_SECRET_KEY"),
        _ => panic!("expected missing credentials"),
    }
}

#[test]
fn the_base_url_loses_its_trailing_slashes() {
    assert_eq!(trim_end_slashes("https://data.alpaca.markets//"), "https://data.alpaca.markets");
    assert_eq!(trim_end_slashes("http://127.0.0.1:8080"), "http://127.0.0.1:8080");
    assert_eq!(trim_end_slashes("///"), "");
}

#[test]
fn parse_bars_keeps_only_items_with_all_four_ohlc_keys() {
    let p = payload(r#"{"bars": [{"o": 1.0, "h": 2.0}, {"o": 1.0, "h": 2.0, "l": 0.5, "c": 1.5, "v": 100.0, "t": "2026-07-19T00:00:00Z"}]}"#);
    let bars = alpaca_bars(&p, NOW).unwrap();
    assert_eq!(bars.len(), 1);
    assert_eq!(bars[0].close, "1.5");
    assert_eq!(bars[0].volume.as_deref(), Some("100.0"));
}

#[test]
fn parse_bars_rejects_a_non_numeric_required_field() {
    let p = payload(r#"{"bars": [{"o": "not-a-number", "h": 2.0, "l": 0.5, "c": 1.5}]}"#);
    assert_eq!(unexpected(alpaca_bars(&p, NOW)), "bar field o was not numeric");
}

#[test]
fn parse_bars_defaults_missing_timestamp_to_now() {
    let p = payload(r#"{"bars": [{"o": 1.0, "h": 2.0, "l": 0.5, "c": 1.5}]}"#);
    let bars = alpaca_bars(&p, NOW).unwrap();
    assert_eq!(bars[0].timestamp, NOW);
}

#[test]
fn parse_bars_defaults_missing_volume_to_zero() {
    let p = payload(r#"{"bars": [{"o": 1.0, "h": 2.0, "l": 0.5, "c": 1.5}]}"#);
    let bars = alpaca_bars(&p, NOW).unwrap();
    assert_eq!(bars[0].volume, None);
}

#[test]
fn bars_come_out_oldest_first_with_utc_times_as_z() {
    let text = r#"{"bars": [
        {"t": "2026-07-19T20:00:00+00:00", "o": 99.8, "h": 100.2, "l": 99.5, "c": 100.0, "v": 700},
        {"t": "2026-07-19T19:59:00Z", "o": 99.0, "h": 100.0, "l": 98.5, "c": 99.8, "v": 500}
    ]}"#;
    let bars = alpaca_bars_from_text(text, NOW).unwrap();
    assert_eq!(bars.len(), 2);
    assert_eq!(bars[0].timestamp, "2026-07-19T19:59:00Z");
    assert_eq!(bars[0].close, "99.8");
    assert_eq!(bars[1].timestamp, "2026-07-19T20:00:00Z");
    assert_eq!(bars[1].close, "100.0");
    assert_eq!(bars[1].volume.as_deref(), Some("700"));
}

#[test]
fn the_first_non_numeric_price_in_time_order_is_reported() {
    let text = r#"{"bars": [{"o": 1, "h": 2, "l": 1, "c": null}, {"o": 1, "h": 2, "l": "x", "c": 1}]}"#;
    assert_eq!(unexpected(alpaca_bars_from_text(text, NOW)), "bar field l was not numeric");
}

#[test]
fn a_response_without_bars_is_an_error() {
    assert_eq!(unexpected(alpaca_bars_from_text(r#"{"bars": []}"#, NOW)), "market-data provider returned no bars");
    assert_eq!(unexpected(alpaca_bars_from_text(r#"{"bars": null}"#, NOW)), "market-data provider returned no bars");
    assert_eq!(unexpected(alpaca_bars_from_text(r#"{"bars": [1, {"o": 1}]}"#, NOW)), "market-data provider returned no bars");
}

#[test]
fn a_response_that_is_not_an_object_is_unexpected() {
    assert_eq!(unexpected(alpaca_bars_from_text("[1, 2]", NOW)), "expected a JSON object");
    assert!(matches!(alpaca_payload_from_text("\"text\""), Err(DataError::UnexpectedResponse(_))));
}

#[test]
fn a_response_that_is_not_json_is_invalid_json() {
    assert!(matches!(alpaca_bars_from_text("internal error", NOW), Err(DataError::InvalidJson(_))));
    assert!(matches!(alpaca_payload_from_text("{"), Err(DataError::InvalidJson(_))));
}

fn sample_bar() -> BarText {
    BarText {
        timestamp: "2026-07-19T00:00:00Z".to_string(),
        open: "1.0".to_string(),
        high: "2.0".to_string(),
        low: "0.5".to_string(),
        close: "1.5".to_string(),
        volume: Some("10.0".to_string()),
    }
}

#[test]
fn build_quote_uses_bp_ap_when_present_and_nonzero() {
    let p = payload(r#"{"quote": {"bp": 1.1, "ap": 1.2, "t": "2026-07-19T01:00:00Z"}}"#);
    let q = alpaca_quote(&p, &sample_bar(), "iex");
    assert_eq!(q.bid, "1.1");
    assert_eq!(q.ask, "1.2");
    assert_eq!(q.last, "1.5");
    assert_eq!(q.timestamp, "2026-07-19T01:00:00Z");
}

#[test]
fn build_quote_falls_back_to_last_close_when_bp_is_exactly_zero() {
    let p = payload(r#"{"quote": {"bp": 0.0, "ap": 1.2}}"#);
    let q = alpaca_quote(&p, &sample_bar(), "iex");
    assert_eq!(q.bid, "1.5");
    assert_eq!(q.ask, "1.2");
}

#[test]
fn build_quote_falls_back_to_last_close_when_quote_json_is_null() {
    let p = payload(r#"{"quote": null}"#);
    let q = alpaca_quote(&p, &sample_bar(), "iex");
    assert_eq!(q.bid, "1.5");
    assert_eq!(q.ask, "1.5");
    assert_eq!(q.timestamp, "2026-07-19T00:00:00Z");
}

#[test]
fn build_quote_source_includes_the_feed() {
    let q = alpaca_quote(&payload("{}"), &sample_bar(), "sip");
    assert_eq!(q.source, "alpaca:sip");
}

#[test]
fn the_quote_time_has_its_utc_offset_written_as_z() {
    let p = payload(r#"{"quote": {"bp": 99.5, "ap": 100.5, "t": "2026-07-19T20:00:00+00:00"}}"#);
    let q = alpaca_quote(&p, &sample_bar(), "iex");
    assert_eq!(q.timestamp, "2026-07-19T20:00:00Z");
    assert_eq!(q.bid, "99.5");
}

#[test]
fn number_texts_denoting_zero_are_recognised() {
    for t in ["0", "0.0", "-0.0", "0e5", "0.000E-3"] {
        assert!(is_zero_number_text(t), "{t}");
    }
    for t in ["1", "0.01", "1e-7", "-2.5", "10"] {
        assert!(!is_zero_number_text(t), "{t}");
    }
}
