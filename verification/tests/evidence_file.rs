use smart_hedge::evidence_file::{evidence_from_payload, evidence_from_text, row_applies_to_symbol, summarize, to_json_text, EvidenceRecord};
use smart_hedge::json::Json;

fn obj(members: Vec<(&str, Json)>) -> Json {
    Json::Object(members.into_iter().map(|(k, v)| (k.to_string(), v)).collect())
}

fn text(s: &str) -> Json {
    Json::Text(s.to_string())
}

fn file(rows: Vec<Json>) -> Json {
    obj(vec![("evidence", Json::Array(rows))])
}

const NOW: &str = "2026-07-19T12:00:00Z";

#[test]
fn absent_symbols_field_always_applies() {
    let payload = file(vec![obj(vec![("evidence_id", text("e1")), ("title", text("General note"))])]);
    assert_eq!(evidence_from_payload(&payload, "SPY", "evidence.json", NOW).len(), 1);
    assert_eq!(evidence_from_payload(&payload, "QQQ", "evidence.json", NOW).len(), 1);
}

#[test]
fn empty_symbols_list_always_applies() {
    let payload = file(vec![obj(vec![("symbols", Json::Array(vec![])), ("title", text("x"))])]);
    assert_eq!(evidence_from_payload(&payload, "SPY", "evidence.json", NOW).len(), 1);
}

#[test]
fn non_matching_symbols_list_excludes_the_item() {
    let payload = file(vec![obj(vec![("symbols", Json::Array(vec![text("AAPL")])), ("title", text("x"))])]);
    assert!(evidence_from_payload(&payload, "SPY", "evidence.json", NOW).is_empty());
    assert_eq!(evidence_from_payload(&payload, "AAPL", "evidence.json", NOW).len(), 1);
}

#[test]
fn wildcard_symbol_always_applies() {
    let payload = file(vec![obj(vec![("symbols", Json::Array(vec![text("*")])), ("title", text("x"))])]);
    assert_eq!(evidence_from_payload(&payload, "SPY", "evidence.json", NOW).len(), 1);
}

#[test]
fn symbol_match_is_case_insensitive() {
    let payload = file(vec![obj(vec![("symbols", Json::Array(vec![text("spy")])), ("title", text("x"))])]);
    assert_eq!(evidence_from_payload(&payload, "SPY", "evidence.json", NOW).len(), 1);
}

#[test]
fn untrusted_text_defaults_to_true() {
    let payload = file(vec![obj(vec![("title", text("x"))])]);
    let items = evidence_from_payload(&payload, "SPY", "evidence.json", NOW);
    assert!(items[0].untrusted_text);
}

#[test]
fn explicit_untrusted_text_false_is_honored() {
    let payload = file(vec![obj(vec![("title", text("x")), ("untrusted_text", Json::Bool(false))])]);
    let items = evidence_from_payload(&payload, "SPY", "evidence.json", NOW);
    assert!(!items[0].untrusted_text);
}

#[test]
fn title_is_truncated_to_240_characters() {
    let long_title = "x".repeat(500);
    let payload = file(vec![obj(vec![("title", text(&long_title))])]);
    let items = evidence_from_payload(&payload, "SPY", "evidence.json", NOW);
    assert_eq!(items[0].title.chars().count(), 240);
}

#[test]
fn non_object_rows_are_skipped_not_erroring() {
    let payload = file(vec![text("not-an-object"), obj(vec![("title", text("valid"))])]);
    let items = evidence_from_payload(&payload, "SPY", "evidence.json", NOW);
    assert_eq!(items.len(), 1);
    assert_eq!(items[0].title, "valid");
}

#[test]
fn bare_array_payload_is_also_accepted() {
    let payload = Json::Array(vec![obj(vec![("title", text("x"))])]);
    assert_eq!(evidence_from_payload(&payload, "SPY", "evidence.json", NOW).len(), 1);
}

#[test]
fn other_payload_shapes_give_nothing() {
    assert!(evidence_from_payload(&Json::Null, "SPY", "evidence.json", NOW).is_empty());
    assert!(evidence_from_payload(&obj(vec![("rows", Json::Array(vec![]))]), "SPY", "e.json", NOW).is_empty());
    assert!(evidence_from_payload(&obj(vec![("evidence", text("x"))]), "SPY", "e.json", NOW).is_empty());
}

#[test]
fn missing_fields_take_their_defaults() {
    let payload = file(vec![text("skipped"), obj(vec![])]);
    let items = evidence_from_payload(&payload, "SPY", "notes.json", NOW);
    assert_eq!(items.len(), 1);
    let item = &items[0];
    assert_eq!(item.evidence_id, "file-1");
    assert_eq!(item.kind, "external");
    assert_eq!(item.title, "Untitled evidence");
    assert_eq!(item.timestamp, NOW);
    assert_eq!(item.source, "file:notes.json");
    assert_eq!(item.value, Json::Null);
    assert_eq!(item.text, "");
    assert_eq!(item.quality, None);
    assert!(item.untrusted_text);
}

#[test]
fn empty_ids_fall_back_but_empty_kinds_are_kept() {
    let payload = file(vec![obj(vec![
        ("evidence_id", text("")),
        ("timestamp", Json::Null),
        ("kind", text("")),
        ("source", Json::Null),
    ])]);
    let items = evidence_from_payload(&payload, "SPY", "e.json", NOW);
    assert_eq!(items[0].evidence_id, "file-0");
    assert_eq!(items[0].timestamp, NOW);
    assert_eq!(items[0].kind, "");
    assert_eq!(items[0].source, "");
}

#[test]
fn non_text_fields_read_as_their_json_text() {
    let payload = file(vec![obj(vec![
        ("evidence_id", Json::Number("42".to_string())),
        ("title", Json::Bool(false)),
        ("text", Json::Array(vec![Json::Number("1".to_string()), text("a\"b")])),
        ("value", obj(vec![("level", Json::Number("4.25".to_string()))])),
        ("quality", Json::Number("5.0".to_string())),
    ])]);
    let items = evidence_from_payload(&payload, "SPY", "e.json", NOW);
    assert_eq!(items[0].evidence_id, "42");
    assert_eq!(items[0].title, "false");
    assert_eq!(items[0].text, "[1,\"a\\\"b\"]");
    assert_eq!(items[0].value, obj(vec![("level", Json::Number("4.25".to_string()))]));
    assert_eq!(items[0].quality, Some("5.0".to_string()));
}

#[test]
fn source_and_text_are_bounded() {
    let payload = file(vec![obj(vec![("source", text(&"s".repeat(300))), ("text", text(&"t".repeat(6000)))])]);
    let items = evidence_from_payload(&payload, "SPY", "e.json", NOW);
    assert_eq!(items[0].source.chars().count(), 120);
    assert_eq!(items[0].text.chars().count(), 5000);
}

#[test]
fn a_zero_untrusted_flag_means_trusted() {
    for (flag, expected) in [("0", false), ("0.0", false), ("-0.0", false), ("1", true), ("0.5", true), ("1e-7", true)] {
        let payload = file(vec![obj(vec![("untrusted_text", Json::Number(flag.to_string()))])]);
        let items = evidence_from_payload(&payload, "SPY", "e.json", NOW);
        assert_eq!(items[0].untrusted_text, expected, "flag {flag}");
    }
    let payload = file(vec![obj(vec![("untrusted_text", text("no"))])]);
    assert!(evidence_from_payload(&payload, "SPY", "e.json", NOW)[0].untrusted_text);
}

#[test]
fn symbols_that_are_not_a_list_do_not_exclude() {
    let row = obj(vec![("symbols", text("AAPL"))]);
    assert!(row_applies_to_symbol(&row, "SPY"));
    let numbers = obj(vec![("symbols", Json::Array(vec![Json::Number("7".to_string())]))]);
    assert!(row_applies_to_symbol(&numbers, "7"));
    assert!(!row_applies_to_symbol(&numbers, "8"));
}

#[test]
fn compact_json_text_matches_serde_json() {
    let value = obj(vec![
        ("a", Json::Array(vec![Json::Number("1".to_string()), Json::Bool(true), Json::Null])),
        ("b", obj(vec![("c", text("line\nbreak \\ \"quoted\""))])),
        ("d", Json::Array(vec![])),
        ("e", obj(vec![])),
    ]);
    let quoted = serde_json::to_string("line\nbreak \\ \"quoted\"").unwrap();
    let expected = format!("{{\"a\":[1,true,null],\"b\":{{\"c\":{quoted}}},\"d\":[],\"e\":{{}}}}");
    assert_eq!(quoted, "\"line\\nbreak \\\\ \\\"quoted\\\"\"");
    assert_eq!(to_json_text(&value), expected);
}

fn item(kind: &str, title: &str, value: Json) -> EvidenceRecord {
    EvidenceRecord {
        evidence_id: "id".to_string(),
        kind: kind.to_string(),
        title: title.to_string(),
        timestamp: "2026-07-19T00:00:00Z".to_string(),
        source: "test".to_string(),
        value,
        text: String::new(),
        quality: None,
        untrusted_text: true,
    }
}

fn number_at(numeric: &[(String, Json)], key: &str) -> Option<f64> {
    numeric.iter().find(|(k, _)| k == key).and_then(|(_, v)| match v {
        Json::Number(t) => t.parse::<f64>().ok(),
        _ => None,
    })
}

#[test]
fn numeric_value_is_extracted() {
    let s = summarize(&vec![item("option_metric", "Realized Vol", Json::Number("0.25".to_string()))]);
    assert_eq!(number_at(&s.numeric, "evidence_realized_vol"), Some(0.25));
}

#[test]
fn boolean_value_is_not_treated_as_numeric() {
    let s = summarize(&vec![item("event", "Flag", Json::Bool(true))]);
    assert!(s.numeric.is_empty());
}

#[test]
fn event_kind_with_true_value_sets_event_risk() {
    let s = summarize(&vec![item("event", "Something happened", Json::Bool(true))]);
    assert!(s.event_risk);
}

#[test]
fn event_kind_with_false_value_does_not_set_event_risk() {
    let s = summarize(&vec![item("event", "Nothing happened", Json::Bool(false))]);
    assert!(!s.event_risk);
}

#[test]
fn non_event_kind_never_sets_event_risk_even_with_true_value() {
    let s = summarize(&vec![item("news", "Not an event", Json::Bool(true))]);
    assert!(!s.event_risk);
}

#[test]
fn later_item_with_colliding_key_overwrites_earlier_one() {
    let s = summarize(&vec![
        item("option_metric", "Vol", Json::Number("0.1".to_string())),
        item("option_metric", "Vol", Json::Number("0.2".to_string())),
    ]);
    assert_eq!(number_at(&s.numeric, "evidence_vol"), Some(0.20));
    assert_eq!(s.numeric.len(), 1);
}

#[test]
fn numeric_evidence_is_kept_in_key_order() {
    let s = summarize(&vec![
        item("m", "Zeta", Json::Number("3".to_string())),
        item("m", "Alpha", Json::Number("1".to_string())),
        item("m", "Mid", Json::Number("2".to_string())),
    ]);
    let keys: Vec<&str> = s.numeric.iter().map(|(k, _)| k.as_str()).collect();
    assert_eq!(keys, vec!["evidence_alpha", "evidence_mid", "evidence_zeta"]);
}

#[test]
fn evidence_text_is_parsed_then_read() {
    let text = r#"{"evidence": [{"evidence_id": "e1", "symbols": ["SPY"], "title": "T"}, 3]}"#;
    let items = evidence_from_text(text, "spy", "evidence.json", NOW);
    assert_eq!(items.len(), 1);
    assert_eq!(items[0].evidence_id, "e1");
    assert!(evidence_from_text("{not valid json", "SPY", "evidence.json", NOW).is_empty());
    assert_eq!(evidence_from_text(r#"[{"title": "x"}]"#, "SPY", "evidence.json", NOW).len(), 1);
}

#[test]
fn control_characters_are_written_as_short_or_unicode_escapes() {
    let value = Json::Text("a\tb\u{1}c\u{1f}\u{8}\u{c}\r/é".to_string());
    assert_eq!(to_json_text(&value), "\"a\\tb\\u0001c\\u001f\\b\\f\\r/é\"");
}
