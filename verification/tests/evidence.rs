use smart_hedge::evidence::{
    capped_feeds, capped_series, entry_evidence, error_evidence, evidence_feature_key, feed_item_cap,
    fred_observation_evidence, iso,
    missing_key_evidence, netloc, series_error_evidence, TradeSide, MAX_FEEDS, MAX_SERIES,
};
use smart_hedge::json::Json;
use smart_hedge::rss_xml::FeedEntry;

#[test]
fn iso_replaces_the_utc_offset_suffix() {
    assert_eq!(iso("2026-07-19T00:00:00+00:00"), "2026-07-19T00:00:00Z");
}

#[test]
fn iso_leaves_other_offsets_alone() {
    assert_eq!(iso("2026-07-19T00:00:00-04:00"), "2026-07-19T00:00:00-04:00");
}

#[test]
fn series_list_is_capped_at_twenty() {
    let series: Vec<String> = (0..30).map(|i| format!("S{i}")).collect();
    assert_eq!(capped_series(&series).len(), MAX_SERIES);
}

#[test]
fn series_list_shorter_than_the_cap_is_unaffected() {
    let series: Vec<String> = (0..5).map(|i| format!("S{i}")).collect();
    assert_eq!(capped_series(&series).len(), 5);
}

#[test]
fn capping_keeps_the_first_entries_in_order() {
    let series: Vec<String> = (0..30).map(|i| format!("S{i}")).collect();
    let capped = capped_series(&series);
    assert_eq!(capped[0], "S0");
    assert_eq!(capped[19], "S19");
}

#[test]
fn netloc_extracts_the_host_from_a_full_url() {
    assert_eq!(netloc("https://example.com/feed.xml?x=1"), "example.com");
}

#[test]
fn netloc_handles_a_url_with_no_path() {
    assert_eq!(netloc("https://example.com"), "example.com");
}

#[test]
fn netloc_handles_a_url_with_a_port() {
    assert_eq!(netloc("http://example.com:8080/feed"), "example.com:8080");
}

#[test]
fn netloc_falls_back_to_the_whole_string_with_no_scheme() {
    assert_eq!(netloc("example.com/feed"), "example.com");
}

#[test]
fn feed_list_is_capped_at_ten() {
    let feeds: Vec<String> = (0..15).map(|i| format!("https://example.com/{i}")).collect();
    assert_eq!(capped_feeds(&feeds).len(), MAX_FEEDS);
}

#[test]
fn feed_list_shorter_than_the_cap_is_unaffected() {
    let feeds: Vec<String> = (0..3).map(|i| format!("https://example.com/{i}")).collect();
    assert_eq!(capped_feeds(&feeds).len(), 3);
}

#[test]
fn key_sanitizes_non_alphanumeric_and_lowercases() {
    assert_eq!(evidence_feature_key("Earnings: Q2 2026!"), "evidence_earnings__q2_2026_");
}

#[test]
fn key_truncates_the_sanitized_body_to_64_chars_before_prefixing() {
    let long_title = "a".repeat(100);
    let key = evidence_feature_key(&long_title);
    assert_eq!(key.len(), 9 + 64);
}

#[test]
fn trade_sides_spell_buy_and_sell() {
    assert_eq!(TradeSide::Buy.as_str(), "buy");
    assert_eq!(TradeSide::Sell.as_str(), "sell");
}

#[test]
fn the_per_feed_item_cap_is_kept_within_zero_and_twenty() {
    assert_eq!(feed_item_cap(3), 3);
    assert_eq!(feed_item_cap(-4), 0);
    assert_eq!(feed_item_cap(500), 20);
}

const NOW: &str = "2026-07-19T12:00:00+00:00";

fn entry(title: &str, description: &str, published: &str) -> FeedEntry {
    FeedEntry { title: title.to_string(), description: description.to_string(), published: published.to_string() }
}

#[test]
fn entry_evidence_prefixes_the_title_with_the_symbol() {
    let item = entry_evidence(0, 0, "SPY", "https://example.com/feed", &entry("Big News", "details", "2026-07-19"), NOW);
    assert_eq!(item.title, "SPY: Big News");
}

#[test]
fn entry_evidence_defaults_a_missing_title_to_rss_item() {
    let item = entry_evidence(0, 0, "SPY", "https://example.com/feed", &entry("", "details", "2026-07-19"), NOW);
    assert_eq!(item.title, "SPY: RSS item");
}

#[test]
fn entry_evidence_whitespace_only_title_ends_up_empty_not_rss_item() {
    let item = entry_evidence(0, 0, "SPY", "https://example.com/feed", &entry("   ", "details", "2026-07-19"), NOW);
    assert_eq!(item.title, "SPY: ");
}

#[test]
fn entry_evidence_defaults_a_missing_published_date_to_now() {
    let item = entry_evidence(0, 0, "SPY", "https://example.com/feed", &entry("t", "d", ""), NOW);
    assert!(!item.timestamp.is_empty());
    assert_eq!(item.timestamp, NOW);
}

#[test]
fn entry_evidence_truncates_title_to_240_and_text_to_5000_chars() {
    let long_title = "x".repeat(500);
    let long_desc = "y".repeat(6000);
    let item = entry_evidence(0, 0, "SPY", "https://example.com/feed", &entry(&long_title, &long_desc, "t"), NOW);
    assert_eq!(item.title.chars().count(), 240);
    assert_eq!(item.text.chars().count(), 5000);
}

#[test]
fn entry_evidence_marks_untrusted_text_true_and_lower_quality() {
    let item = entry_evidence(0, 0, "SPY", "https://example.com/feed", &entry("t", "d", "2026-07-19"), NOW);
    assert!(item.untrusted_text);
    assert_eq!(item.quality.as_deref().and_then(|q| q.parse::<f64>().ok()), Some(0.45));
}

#[test]
fn entry_evidence_names_its_feed_and_item() {
    let item = entry_evidence(3, 7, "QQQ", "https://news.example.org:8443/rss?x=1", &entry("  T  ", "d", "p"), NOW);
    assert_eq!(item.evidence_id, "rss-3-7");
    assert_eq!(item.kind, "news");
    assert_eq!(item.title, "QQQ: T");
    assert_eq!(item.source, "rss:news.example.org:8443");
    assert_eq!(item.timestamp, "p");
    assert_eq!(item.value, Json::Null);
}

#[test]
fn error_evidence_is_kind_data_quality_and_trusted() {
    let item = error_evidence(2, "https://example.com/feed", "Transport", NOW);
    assert_eq!(item.kind, "data_quality");
    assert!(!item.untrusted_text);
    assert_eq!(item.evidence_id, "rss-error-2");
    assert_eq!(item.source, "rss:example.com");
    assert_eq!(item.text, "Transport");
}

#[test]
fn error_evidence_is_kind_data_quality_not_macro() {
    let item = series_error_evidence("VIXCLS", "Transport", NOW);
    assert_eq!(item.kind, "data_quality");
    assert_eq!(item.text, "Transport");
    assert_eq!(item.evidence_id, "fred-error-VIXCLS");
    assert_eq!(item.title, "FRED VIXCLS retrieval error");
}

#[test]
fn a_missing_fred_key_is_reported_as_one_trusted_item() {
    let items = missing_key_evidence(NOW);
    assert_eq!(items.len(), 1);
    assert_eq!(items[0].evidence_id, "fred-missing-key");
    assert_eq!(items[0].text, "FRED_API_KEY is not set.");
    assert!(!items[0].untrusted_text);
}

#[test]
fn observation_evidence_parses_a_numeric_value() {
    let payload = r#"{"observations": [{"date": "2026-07-18", "value": "18.5"}]}"#;
    let item = fred_observation_evidence("VIXCLS", payload, NOW);
    assert_eq!(item.value_text.as_deref().and_then(|t| t.parse::<f64>().ok()), Some(18.5));
    assert_eq!(item.record.timestamp, "2026-07-18");
    assert_eq!(item.record.evidence_id, "fred-VIXCLS-2026-07-18");
    assert_eq!(item.record.kind, "macro");
}

#[test]
fn observation_evidence_treats_the_dot_placeholder_as_missing() {
    let payload = r#"{"observations": [{"date": "2026-07-18", "value": "."}]}"#;
    let item = fred_observation_evidence("VIXCLS", payload, NOW);
    assert_eq!(item.value_text, None);
    assert_eq!(item.record.value, Json::Null);
}

#[test]
fn observation_evidence_handles_an_empty_observations_array() {
    let item = fred_observation_evidence("VIXCLS", r#"{"observations": []}"#, NOW);
    assert_eq!(item.value_text, None);
    assert_eq!(item.record.evidence_id, "fred-VIXCLS-latest");
    assert_eq!(item.record.timestamp, NOW);
}

#[test]
fn a_numeric_observation_keeps_its_number_and_bad_text_is_an_error_item() {
    let item = fred_observation_evidence("DGS10", r#"{"observations": [{"date": "d", "value": 4.25}]}"#, NOW);
    assert_eq!(item.value_text.as_deref(), Some("4.25"));
    let bad = fred_observation_evidence("DGS10", "{not json", NOW);
    assert_eq!(bad.record.evidence_id, "fred-error-DGS10");
    assert_eq!(bad.record.kind, "data_quality");
    assert!(!bad.record.text.is_empty());
    assert_eq!(bad.value_text, None);
}
