//! The default configuration tree, which a user's configuration file is
//! deep-merged over.

use vstd::prelude::*;
use crate::json::{items_view, number, pairs_view, push_item, push_member, text, Json, JsonView};

verus! {

/// The default `alpaca` object.
pub open spec fn default_alpaca_view() -> JsonView {
    JsonView::Object(seq![
        ("data_base_url"@, JsonView::Text("https://data.alpaca.markets"@)),
        ("feed"@, JsonView::Text("iex"@)),
        ("bar_timeframe"@, JsonView::Text("1Min"@)),
        ("bar_limit"@, JsonView::Number("180"@)),
        ("timeout_seconds"@, JsonView::Number("8.0"@)),
    ])
}

fn default_alpaca() -> (r: Json)
    ensures
        r@ == default_alpaca_view(),
{
    let mut o: Vec<(String, Json)> = Vec::new();
    push_member(&mut o, "data_base_url", text("https://data.alpaca.markets"));
    push_member(&mut o, "feed", text("iex"));
    push_member(&mut o, "bar_timeframe", text("1Min"));
    push_member(&mut o, "bar_limit", number("180"));
    push_member(&mut o, "timeout_seconds", number("8.0"));
    assert(pairs_view(o@) =~= seq![
        ("data_base_url"@, JsonView::Text("https://data.alpaca.markets"@)),
        ("feed"@, JsonView::Text("iex"@)),
        ("bar_timeframe"@, JsonView::Text("1Min"@)),
        ("bar_limit"@, JsonView::Number("180"@)),
        ("timeout_seconds"@, JsonView::Number("8.0"@)),
    ]);
    Json::Object(o)
}

/// The default `fred` object.
pub open spec fn default_fred_view() -> JsonView {
    JsonView::Object(seq![
        ("enabled"@, JsonView::Bool(false)),
        ("series"@, JsonView::Array(seq![JsonView::Text("VIXCLS"@), JsonView::Text("DGS2"@), JsonView::Text("DGS10"@)])),
        ("timeout_seconds"@, JsonView::Number("8.0"@)),
    ])
}

fn default_fred() -> (r: Json)
    ensures
        r@ == default_fred_view(),
{
    let mut o: Vec<(String, Json)> = Vec::new();
    push_member(&mut o, "enabled", Json::Bool(false));
    let mut a: Vec<Json> = Vec::new();
    push_item(&mut a, text("VIXCLS"));
    push_item(&mut a, text("DGS2"));
    push_item(&mut a, text("DGS10"));
    assert(items_view(a@) =~= seq![JsonView::Text("VIXCLS"@), JsonView::Text("DGS2"@), JsonView::Text("DGS10"@)]);
    push_member(&mut o, "series", Json::Array(a));
    push_member(&mut o, "timeout_seconds", number("8.0"));
    assert(pairs_view(o@) =~= seq![
        ("enabled"@, JsonView::Bool(false)),
        ("series"@, JsonView::Array(seq![JsonView::Text("VIXCLS"@), JsonView::Text("DGS2"@), JsonView::Text("DGS10"@)])),
        ("timeout_seconds"@, JsonView::Number("8.0"@)),
    ]);
    Json::Object(o)
}

/// The default `rss` object.
pub open spec fn default_rss_view() -> JsonView {
    JsonView::Object(seq![
        ("enabled"@, JsonView::Bool(false)),
        ("feeds"@, JsonView::Array(Seq::empty())),
        ("max_items_per_feed"@, JsonView::Number("3"@)),
    ])
}

fn default_rss() -> (r: Json)
    ensures
        r@ == default_rss_view(),
{
    let mut o: Vec<(String, Json)> = Vec::new();
    push_member(&mut o, "enabled", Json::Bool(false));
    let mut a: Vec<Json> = Vec::new();
    assert(items_view(a@) =~= Seq::<JsonView>::empty());
    push_member(&mut o, "feeds", Json::Array(a));
    push_member(&mut o, "max_items_per_feed", number("3"));
    assert(pairs_view(o@) =~= seq![
        ("enabled"@, JsonView::Bool(false)),
        ("feeds"@, JsonView::Array(Seq::empty())),
        ("max_items_per_feed"@, JsonView::Number("3"@)),
    ]);
    Json::Object(o)
}

/// The default `provider` object.
pub open spec fn default_provider_view() -> JsonView {
    JsonView::Object(seq![
        ("kind"@, JsonView::Text("synthetic"@)),
        ("alpaca"@, default_alpaca_view()),
        ("evidence_file"@, JsonView::Text("data/evidence.example.json"@)),
        ("fred"@, default_fred_view()),
        ("rss"@, default_rss_view()),
    ])
}

fn default_provider() -> (r: Json)
    ensures
        r@ == default_provider_view(),
{
    let mut o: Vec<(String, Json)> = Vec::new();
    push_member(&mut o, "kind", text("synthetic"));
    push_member(&mut o, "alpaca", default_alpaca());
    push_member(&mut o, "evidence_file", text("data/evidence.example.json"));
    push_member(&mut o, "fred", default_fred());
    push_member(&mut o, "rss", default_rss());
    assert(pairs_view(o@) =~= seq![
        ("kind"@, JsonView::Text("synthetic"@)),
        ("alpaca"@, default_alpaca_view()),
        ("evidence_file"@, JsonView::Text("data/evidence.example.json"@)),
        ("fred"@, default_fred_view()),
        ("rss"@, default_rss_view()),
    ]);
    Json::Object(o)
}

/// The default `model` object.
pub open spec fn default_model_view() -> JsonView {
    JsonView::Object(seq![
        ("kind"@, JsonView::Text("heuristic"@)),
        ("name"@, JsonView::Text("configure-with-OPENAI_MODEL"@)),
        ("timeout_seconds"@, JsonView::Number("20.0"@)),
        ("max_evidence_items"@, JsonView::Number("20"@)),
        ("max_evidence_chars"@, JsonView::Number("1200"@)),
        ("fallback_to_heuristic"@, JsonView::Bool(true)),
    ])
}

fn default_model() -> (r: Json)
    ensures
        r@ == default_model_view(),
{
    let mut o: Vec<(String, Json)> = Vec::new();
    push_member(&mut o, "kind", text("heuristic"));
    push_member(&mut o, "name", text("configure-with-OPENAI_MODEL"));
    push_member(&mut o, "timeout_seconds", number("20.0"));
    push_member(&mut o, "max_evidence_items", number("20"));
    push_member(&mut o, "max_evidence_chars", number("1200"));
    push_member(&mut o, "fallback_to_heuristic", Json::Bool(true));
    assert(pairs_view(o@) =~= seq![
        ("kind"@, JsonView::Text("heuristic"@)),
        ("name"@, JsonView::Text("configure-with-OPENAI_MODEL"@)),
        ("timeout_seconds"@, JsonView::Number("20.0"@)),
        ("max_evidence_items"@, JsonView::Number("20"@)),
        ("max_evidence_chars"@, JsonView::Number("1200"@)),
        ("fallback_to_heuristic"@, JsonView::Bool(true)),
    ]);
    Json::Object(o)
}

/// The default `core` object.
pub open spec fn default_core_view() -> JsonView {
    JsonView::Object(seq![
        ("binary"@, JsonView::Text(""@)),
        ("tree_steps"@, JsonView::Number("600"@)),
        ("auto_build"@, JsonView::Bool(true)),
        ("timeout_seconds"@, JsonView::Number("12.0"@)),
    ])
}

fn default_core() -> (r: Json)
    ensures
        r@ == default_core_view(),
{
    let mut o: Vec<(String, Json)> = Vec::new();
    push_member(&mut o, "binary", text(""));
    push_member(&mut o, "tree_steps", number("600"));
    push_member(&mut o, "auto_build", Json::Bool(true));
    push_member(&mut o, "timeout_seconds", number("12.0"));
    assert(pairs_view(o@) =~= seq![
        ("binary"@, JsonView::Text(""@)),
        ("tree_steps"@, JsonView::Number("600"@)),
        ("auto_build"@, JsonView::Bool(true)),
        ("timeout_seconds"@, JsonView::Number("12.0"@)),
    ]);
    Json::Object(o)
}

/// The default `features` object.
pub open spec fn default_features_view() -> JsonView {
    JsonView::Object(seq![
        ("bars_per_year"@, JsonView::Number("98280.0"@)),
        ("ewma_lambda"@, JsonView::Number("0.94"@)),
        ("short_window"@, JsonView::Number("20"@)),
        ("long_window"@, JsonView::Number("90"@)),
    ])
}

fn default_features() -> (r: Json)
    ensures
        r@ == default_features_view(),
{
    let mut o: Vec<(String, Json)> = Vec::new();
    push_member(&mut o, "bars_per_year", number("98280.0"));
    push_member(&mut o, "ewma_lambda", number("0.94"));
    push_member(&mut o, "short_window", number("20"));
    push_member(&mut o, "long_window", number("90"));
    assert(pairs_view(o@) =~= seq![
        ("bars_per_year"@, JsonView::Number("98280.0"@)),
        ("ewma_lambda"@, JsonView::Number("0.94"@)),
        ("short_window"@, JsonView::Number("20"@)),
        ("long_window"@, JsonView::Number("90"@)),
    ]);
    Json::Object(o)
}

/// The default `policy` object.
pub open spec fn default_policy_view() -> JsonView {
    JsonView::Object(seq![
        ("paper_only"@, JsonView::Bool(true)),
        ("max_quote_age_seconds"@, JsonView::Number("45.0"@)),
        ("max_spread_bps"@, JsonView::Number("35.0"@)),
        ("min_data_quality"@, JsonView::Number("0.65"@)),
        ("min_model_confidence_for_band_change"@, JsonView::Number("0.55"@)),
        ("min_band_multiplier"@, JsonView::Number("0.5"@)),
        ("max_band_multiplier"@, JsonView::Number("3.0"@)),
        ("max_abs_trade_shares"@, JsonView::Number("500.0"@)),
        ("max_preview_notional"@, JsonView::Number("50000.0"@)),
        ("allow_fractional_shares"@, JsonView::Bool(true)),
        ("require_market_open_for_preview"@, JsonView::Bool(true)),
    ])
}

fn default_policy() -> (r: Json)
    ensures
        r@ == default_policy_view(),
{
    let mut o: Vec<(String, Json)> = Vec::new();
    push_member(&mut o, "paper_only", Json::Bool(true));
    push_member(&mut o, "max_quote_age_seconds", number("45.0"));
    push_member(&mut o, "max_spread_bps", number("35.0"));
    push_member(&mut o, "min_data_quality", number("0.65"));
    push_member(&mut o, "min_model_confidence_for_band_change", number("0.55"));
    push_member(&mut o, "min_band_multiplier", number("0.5"));
    push_member(&mut o, "max_band_multiplier", number("3.0"));
    push_member(&mut o, "max_abs_trade_shares", number("500.0"));
    push_member(&mut o, "max_preview_notional", number("50000.0"));
    push_member(&mut o, "allow_fractional_shares", Json::Bool(true));
    push_member(&mut o, "require_market_open_for_preview", Json::Bool(true));
    assert(pairs_view(o@) =~= seq![
        ("paper_only"@, JsonView::Bool(true)),
        ("max_quote_age_seconds"@, JsonView::Number("45.0"@)),
        ("max_spread_bps"@, JsonView::Number("35.0"@)),
        ("min_data_quality"@, JsonView::Number("0.65"@)),
        ("min_model_confidence_for_band_change"@, JsonView::Number("0.55"@)),
        ("min_band_multiplier"@, JsonView::Number("0.5"@)),
        ("max_band_multiplier"@, JsonView::Number("3.0"@)),
        ("max_abs_trade_shares"@, JsonView::Number("500.0"@)),
        ("max_preview_notional"@, JsonView::Number("50000.0"@)),
        ("allow_fractional_shares"@, JsonView::Bool(true)),
        ("require_market_open_for_preview"@, JsonView::Bool(true)),
    ]);
    Json::Object(o)
}

/// The default `storage` object.
pub open spec fn default_storage_view() -> JsonView {
    JsonView::Object(seq![
        ("sqlite_path"@, JsonView::Text(".smart_hedge/decisions.sqlite3"@)),
    ])
}

fn default_storage() -> (r: Json)
    ensures
        r@ == default_storage_view(),
{
    let mut o: Vec<(String, Json)> = Vec::new();
    push_member(&mut o, "sqlite_path", text(".smart_hedge/decisions.sqlite3"));
    assert(pairs_view(o@) =~= seq![
        ("sqlite_path"@, JsonView::Text(".smart_hedge/decisions.sqlite3"@)),
    ]);
    Json::Object(o)
}

/// The default `dashboard` object.
pub open spec fn default_dashboard_view() -> JsonView {
    JsonView::Object(seq![
        ("host"@, JsonView::Text("127.0.0.1"@)),
        ("port"@, JsonView::Number("8765"@)),
        ("cache_seconds"@, JsonView::Number("5.0"@)),
    ])
}

fn default_dashboard() -> (r: Json)
    ensures
        r@ == default_dashboard_view(),
{
    let mut o: Vec<(String, Json)> = Vec::new();
    push_member(&mut o, "host", text("127.0.0.1"));
    push_member(&mut o, "port", number("8765"));
    push_member(&mut o, "cache_seconds", number("5.0"));
    assert(pairs_view(o@) =~= seq![
        ("host"@, JsonView::Text("127.0.0.1"@)),
        ("port"@, JsonView::Number("8765"@)),
        ("cache_seconds"@, JsonView::Number("5.0"@)),
    ]);
    Json::Object(o)
}

/// The default `spy contract` object.
pub open spec fn default_spy_contract_view() -> JsonView {
    JsonView::Object(seq![
        ("option_type"@, JsonView::Text("put"@)),
        ("exercise_style"@, JsonView::Text("american"@)),
        ("strike"@, JsonView::Number("100.0"@)),
        ("days_to_expiry"@, JsonView::Number("30.0"@)),
        ("contracts"@, JsonView::Number("1"@)),
        ("multiplier"@, JsonView::Number("100.0"@)),
        ("current_shares"@, JsonView::Number("0.0"@)),
        ("rate"@, JsonView::Number("0.045"@)),
        ("dividend_yield"@, JsonView::Number("0.012"@)),
        ("implied_volatility"@, JsonView::Number("0.2"@)),
        ("base_no_trade_band_shares"@, JsonView::Number("2.0"@)),
    ])
}

fn default_spy_contract() -> (r: Json)
    ensures
        r@ == default_spy_contract_view(),
{
    let mut o: Vec<(String, Json)> = Vec::new();
    push_member(&mut o, "option_type", text("put"));
    push_member(&mut o, "exercise_style", text("american"));
    push_member(&mut o, "strike", number("100.0"));
    push_member(&mut o, "days_to_expiry", number("30.0"));
    push_member(&mut o, "contracts", number("1"));
    push_member(&mut o, "multiplier", number("100.0"));
    push_member(&mut o, "current_shares", number("0.0"));
    push_member(&mut o, "rate", number("0.045"));
    push_member(&mut o, "dividend_yield", number("0.012"));
    push_member(&mut o, "implied_volatility", number("0.2"));
    push_member(&mut o, "base_no_trade_band_shares", number("2.0"));
    assert(pairs_view(o@) =~= seq![
        ("option_type"@, JsonView::Text("put"@)),
        ("exercise_style"@, JsonView::Text("american"@)),
        ("strike"@, JsonView::Number("100.0"@)),
        ("days_to_expiry"@, JsonView::Number("30.0"@)),
        ("contracts"@, JsonView::Number("1"@)),
        ("multiplier"@, JsonView::Number("100.0"@)),
        ("current_shares"@, JsonView::Number("0.0"@)),
        ("rate"@, JsonView::Number("0.045"@)),
        ("dividend_yield"@, JsonView::Number("0.012"@)),
        ("implied_volatility"@, JsonView::Number("0.2"@)),
        ("base_no_trade_band_shares"@, JsonView::Number("2.0"@)),
    ]);
    Json::Object(o)
}

/// The default `contracts` object.
pub open spec fn default_contracts_view() -> JsonView {
    JsonView::Object(seq![
        ("SPY"@, default_spy_contract_view()),
    ])
}

fn default_contracts() -> (r: Json)
    ensures
        r@ == default_contracts_view(),
{
    let mut o: Vec<(String, Json)> = Vec::new();
    push_member(&mut o, "SPY", default_spy_contract());
    assert(pairs_view(o@) =~= seq![
        ("SPY"@, default_spy_contract_view()),
    ]);
    Json::Object(o)
}

/// The default configuration tree.
pub open spec fn default_config_view() -> JsonView {
    JsonView::Object(seq![
        ("mode"@, JsonView::Text("paper"@)),
        ("provider"@, default_provider_view()),
        ("model"@, default_model_view()),
        ("core"@, default_core_view()),
        ("features"@, default_features_view()),
        ("policy"@, default_policy_view()),
        ("storage"@, default_storage_view()),
        ("dashboard"@, default_dashboard_view()),
        ("contracts"@, default_contracts_view()),
    ])
}

/// The default configuration tree: paper mode, the synthetic provider,
/// the heuristic model, and one `SPY` contract.
pub fn default_config() -> (r: Json)
    ensures
        r@ == default_config_view(),
{
    let mut o: Vec<(String, Json)> = Vec::new();
    push_member(&mut o, "mode", text("paper"));
    push_member(&mut o, "provider", default_provider());
    push_member(&mut o, "model", default_model());
    push_member(&mut o, "core", default_core());
    push_member(&mut o, "features", default_features());
    push_member(&mut o, "policy", default_policy());
    push_member(&mut o, "storage", default_storage());
    push_member(&mut o, "dashboard", default_dashboard());
    push_member(&mut o, "contracts", default_contracts());
    assert(pairs_view(o@) =~= seq![
        ("mode"@, JsonView::Text("paper"@)),
        ("provider"@, default_provider_view()),
        ("model"@, default_model_view()),
        ("core"@, default_core_view()),
        ("features"@, default_features_view()),
        ("policy"@, default_policy_view()),
        ("storage"@, default_storage_view()),
        ("dashboard"@, default_dashboard_view()),
        ("contracts"@, default_contracts_view()),
    ]);
    Json::Object(o)
}

} // verus!
