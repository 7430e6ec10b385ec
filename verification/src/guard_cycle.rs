//! One recommendation, evidence and guard-authorization cycle: whether
//! the recommendation proposes a paper trade, what the trade is, how the
//! guard's answer is read, and the line the loop prints for it. Calling
//! the engine and the two MCP servers is left to the caller.

use vstd::prelude::*;
use crate::autonomous::count_text;
use crate::config::nested_get;
use crate::errors::{is_client_message, ClientError};
use crate::evidence::TradeSide;
use crate::evidence_file::zero_digits_from;
use crate::json::{json_get, push_item, push_member, text, Json, JsonView};
use crate::text::{chars_eq, chars_of, concat, nat_text, to_lowercase, unicode_lowercase};

verus! {

/// How one recommendation, evidence and guard-authorization cycle ended.
pub enum GuardCycleOutcome {
    /// The recommendation proposed no paper trade; the guard was not
    /// called.
    NoTradeProposed { action: String, approved: bool },
    /// The guard refused the order (a policy rejection), with its text.
    Rejected(String),
    /// The guard filled the paper order; its reply.
    Filled(Json),
}

/// The text member `key` of `v`, or `default` when there is none.
pub open spec fn text_or(v: Option<JsonView>, key: Seq<char>, default: Seq<char>) -> Seq<char> {
    match v {
        Some(o) => match json_get(o, key) {
            Some(JsonView::Text(t)) => t,
            _ => default,
        },
        None => default,
    }
}

/// The spelling of a `bool`.
pub open spec fn bool_text(b: bool) -> Seq<char> {
    if b {
        "true"@
    } else {
        "false"@
    }
}

/// What the line of a cycle says after its iteration, time and symbol.
pub open spec fn outcome_text(outcome: GuardCycleOutcome) -> Seq<char> {
    match outcome {
        GuardCycleOutcome::NoTradeProposed { action, approved } => "no trade proposed (action="@ + action@
            + ", approved="@ + bool_text(approved) + ")"@,
        GuardCycleOutcome::Rejected(text) => "rejected by trade-guard-mcp: "@ + text@,
        GuardCycleOutcome::Filled(reply) => "filled: state="@ + text_or(json_get(reply@, "order"@), "state"@, "?"@)
            + " quantity="@ + text_or(json_get(reply@, "order"@), "filled-quantity"@, "?"@),
    }
}

fn text_member_or<'a>(v: Option<&'a Json>, key: &str, default: &'a str) -> (r: &'a str)
    ensures
        r@ == text_or(
            match v {
                Some(o) => Some(o@),
                None => None,
            },
            key@,
            default@,
        ),
{
    match v {
        Some(o) => match o.get(key) {
            Some(m) => match m.as_str() {
                Some(t) => t,
                None => default,
            },
            None => default,
        },
        None => default,
    }
}

/// The line printed after a cycle of the autonomous loop:
/// `[iteration] created_at symbol` and what the cycle ended with, where
/// `created_at` is the recommendation's `created_at` text (empty when it
/// has none).
pub fn autonomous_cycle_line(iteration: u32, symbol: &str, decision: &Json, outcome: &GuardCycleOutcome) -> (r: String)
    ensures
        r@ == "["@ + nat_text(iteration as nat) + "] "@ + text_or(Some(decision@), "created_at"@, ""@) + " "@ + symbol@
            + " "@ + outcome_text(*outcome),
{
    let created_at = text_member_or(Some(decision), "created_at", "");
    let a = concat("[", count_text(iteration).as_str());
    let b = concat(a.as_str(), "] ");
    let c = concat(b.as_str(), created_at);
    let d = concat(c.as_str(), " ");
    let e = concat(d.as_str(), symbol);
    let f = concat(e.as_str(), " ");
    let tail = match outcome {
        GuardCycleOutcome::NoTradeProposed { action, approved } => {
            let g = concat("no trade proposed (action=", action.as_str());
            let h = concat(g.as_str(), ", approved=");
            let k = concat(h.as_str(), if *approved { "true" } else { "false" });
            concat(k.as_str(), ")")
        },
        GuardCycleOutcome::Rejected(text) => concat("rejected by trade-guard-mcp: ", text.as_str()),
        GuardCycleOutcome::Filled(reply) => {
            let order = reply.get("order");
            let state = text_member_or(order, "state", "?");
            let quantity = text_member_or(order, "filled-quantity", "?");
            let g = concat("filled: state=", state);
            let h = concat(g.as_str(), " quantity=");
            concat(h.as_str(), quantity)
        },
    };
    concat(f.as_str(), tail.as_str())
}

/// The source this demonstration gathers evidence from.
pub const DEMO_SOURCE_ID: &'static str = "us-house-periodic-transaction-report";

/// The fixture record of that source whose history is gathered.
pub const DEMO_SOURCE_RECORD_ID: &'static str = "fixture-political-disclosure-1";

/// What the recommendation asks of the guard.
pub enum CyclePlan {
    /// No paper trade: the action is not a rebalance preview, it is not
    /// approved, or it moves no shares.
    NoTrade { action: String, approved: bool },
    /// A paper trade to authorize.
    Trade(TradePlan),
}

/// The paper trade a recommendation proposes.
pub struct TradePlan {
    pub decision_id: String,
    /// When the recommendation was made (its `created_at`).
    pub created_at: String,
    /// `bundle-<decision_id>`.
    pub evidence_bundle_id: String,
    /// `us-equity-<symbol in lower case>`.
    pub instrument_id: String,
    pub side: TradeSide,
    /// The previewed share count as written (signed); its magnitude is the
    /// order's quantity.
    pub preview_shares: String,
}

/// The text at `path` in `v`, or `default` when there is none.
pub open spec fn text_at_or(v: JsonView, path: Seq<Seq<char>>, default: Seq<char>) -> Seq<char> {
    match nested_get(v, path) {
        Some(JsonView::Text(t)) => t,
        _ => default,
    }
}

/// The boolean at `path` in `v`, false when there is none.
pub open spec fn flag_at(v: JsonView, path: Seq<Seq<char>>) -> bool {
    nested_get(v, path) == Some(JsonView::Bool(true))
}

/// The previewed share count, when it is a number other than zero.
pub open spec fn preview_of(decision: JsonView) -> Option<Seq<char>> {
    match nested_get(decision, seq!["policy"@, "paper_trade_preview_shares"@]) {
        Some(JsonView::Number(t)) => if zero_digits_from(t, 0) {
            None
        } else {
            Some(t)
        },
        _ => None,
    }
}

/// Whether a recommendation proposes a paper trade: its policy action is
/// `paper_rebalance_preview`, the preview is approved, and it moves a
/// non-zero number of shares.
pub open spec fn proposes_trade(decision: JsonView) -> bool {
    &&& text_at_or(decision, seq!["policy"@, "action"@], ""@) == "paper_rebalance_preview"@
    &&& flag_at(decision, seq!["policy"@, "paper_preview_approved"@])
    &&& preview_of(decision) is Some
}

/// The plan of the cycle for `decision` about `symbol`.
pub open spec fn cycle_plan_matches(decision: JsonView, symbol: Seq<char>, plan: CyclePlan) -> bool {
    if proposes_trade(decision) {
        let id = text_at_or(decision, seq!["decision_id"@], "unknown-decision"@);
        let shares = preview_of(decision)->Some_0;
        plan matches CyclePlan::Trade(t) && t.decision_id@ == id && t.created_at@ == text_at_or(
            decision,
            seq!["created_at"@],
            "1970-01-01T00:00:00Z"@,
        ) && t.evidence_bundle_id@ == "bundle-"@ + id && t.instrument_id@ == "us-equity-"@ + unicode_lowercase(symbol)
            && t.side == (if shares.len() > 0 && shares[0] == '-' {
            TradeSide::Sell
        } else {
            TradeSide::Buy
        }) && t.preview_shares@ == shares
    } else {
        plan matches CyclePlan::NoTrade { action, approved } && action@ == text_at_or(
            decision,
            seq!["policy"@, "action"@],
            ""@,
        ) && approved == flag_at(decision, seq!["policy"@, "paper_preview_approved"@])
    }
}

fn text_at(v: &Json, a: &str, b: Option<&str>, default: &str) -> (r: String)
    ensures
        r@ == text_at_or(
            v@,
            match b {
                Some(k) => seq![a@, k@],
                None => seq![a@],
            },
            default@,
        ),
{
    let found = match v.get(a) {
        Some(x) => match b {
            Some(k) => x.get(k),
            None => Some(x),
        },
        None => None,
    };
    proof {
        reveal_with_fuel(nested_get, 3);
        assert(seq![a@].subrange(1, 1) =~= Seq::<Seq<char>>::empty());
        if let Some(k) = b {
            assert(seq![a@, k@].subrange(1, 2) =~= seq![k@]);
            assert(seq![k@].subrange(1, 1) =~= Seq::<Seq<char>>::empty());
        }
    }
    match found {
        Some(Json::Text(t)) => t.clone(),
        _ => default.to_owned(),
    }
}

fn policy_member<'a>(v: &'a Json, key: &str) -> (r: Option<&'a Json>)
    ensures
        match r {
            Some(x) => nested_get(v@, seq!["policy"@, key@]) == Some(x@),
            None => nested_get(v@, seq!["policy"@, key@]) is None,
        },
{
    proof {
        reveal_with_fuel(nested_get, 3);
        assert(seq!["policy"@, key@].subrange(1, 2) =~= seq![key@]);
        assert(seq![key@].subrange(1, 1) =~= Seq::<Seq<char>>::empty());
    }
    match v.get("policy") {
        Some(p) => p.get(key),
        None => None,
    }
}

/// Reads a recommendation: whether it proposes a paper trade for
/// `symbol`, and if so which (see [`cycle_plan_matches`]).
pub fn plan_guard_cycle(decision: &Json, symbol: &str) -> (r: CyclePlan)
    ensures
        cycle_plan_matches(decision@, symbol@, r),
{
    let action = text_at(decision, "policy", Some("action"), "");
    let approved = match policy_member(decision, "paper_preview_approved") {
        Some(Json::Bool(b)) => *b,
        _ => false,
    };
    let preview: Option<String> = match policy_member(decision, "paper_trade_preview_shares") {
        Some(Json::Number(t)) => if crate::evidence_file::zero_digits(t.as_str()) {
            None
        } else {
            Some(t.clone())
        },
        _ => None,
    };
    let is_preview = chars_eq(&chars_of(action.as_str()), &chars_of("paper_rebalance_preview"));
    match preview {
        Some(shares) if is_preview && approved => {
            let decision_id = text_at(decision, "decision_id", None, "unknown-decision");
            let created_at = text_at(decision, "created_at", None, "1970-01-01T00:00:00Z");
            let evidence_bundle_id = concat("bundle-", decision_id.as_str());
            let instrument_id = concat("us-equity-", to_lowercase(symbol).as_str());
            let s = chars_of(shares.as_str());
            let side = if s.len() > 0 && s[0] == '-' { TradeSide::Sell } else { TradeSide::Buy };
            CyclePlan::Trade(
                TradePlan { decision_id, created_at, evidence_bundle_id, instrument_id, side, preview_shares: shares },
            )
        },
        _ => CyclePlan::NoTrade { action, approved },
    }
}

/// How the guard's answer to an order is read: a reply is a fill, a
/// refusal by the tool is a rejection (an expected outcome), and any
/// other failure is an error with this message.
pub fn guard_outcome(answer: Result<Json, ClientError>) -> (r: Result<GuardCycleOutcome, String>)
    ensures
        match answer {
            Ok(v) => r matches Ok(GuardCycleOutcome::Filled(f)) && f@ == v@,
            Err(ClientError::Tool(t)) => r matches Ok(GuardCycleOutcome::Rejected(m)) && m@ == t@,
            Err(e) => r matches Err(m) && exists|c: Seq<char>|
                is_client_message(e, c) && m@ == "trade-guard-mcp authorize-and-submit-paper-order failed: "@ + c,
        },
{
    match answer {
        Ok(v) => Ok(GuardCycleOutcome::Filled(v)),
        Err(ClientError::Tool(t)) => Ok(GuardCycleOutcome::Rejected(t)),
        Err(e) => {
            let c = e.message();
            Err(concat("trade-guard-mcp authorize-and-submit-paper-order failed: ", c.as_str()))
        },
    }
}

/// The source-use decision under which the demonstration's evidence is
/// reviewed: research only, publicly accessible, attribution required
/// (members in key order).
pub open spec fn demo_decision_view() -> JsonView {
    JsonView::Object(
        seq![
            ("attribution-required"@, JsonView::Bool(true)),
            ("automated-retrieval"@, JsonView::Text("legal-review-required"@)),
            ("commercial-use"@, JsonView::Text("prohibited-or-unclear"@)),
            ("policy-version"@, JsonView::Text("2026-07-19.1"@)),
            ("public-access"@, JsonView::Bool(true)),
            ("reason-codes"@, JsonView::Array(seq![JsonView::Text("statutory-commercial-use-restriction"@)])),
            ("redistribution"@, JsonView::Text("prohibited-or-unclear"@)),
            ("reviewed-at"@, JsonView::Text("1970-01-01T00:00:00Z"@)),
            ("reviewed-by"@, JsonView::Text("operator"@)),
            ("source-id"@, JsonView::Text(DEMO_SOURCE_ID@)),
            ("trading-use"@, JsonView::Text("research-only"@)),
        ],
    )
}

/// The source-use decision of the demonstration (see
/// [`demo_decision_view`]).
pub fn demo_source_use_decision() -> (r: Json)
    ensures
        r@ == demo_decision_view(),
{
    let mut codes: Vec<Json> = Vec::new();
    push_item(&mut codes, text("statutory-commercial-use-restriction"));
    let mut m: Vec<(String, Json)> = Vec::new();
    push_member(&mut m, "attribution-required", Json::Bool(true));
    push_member(&mut m, "automated-retrieval", text("legal-review-required"));
    push_member(&mut m, "commercial-use", text("prohibited-or-unclear"));
    push_member(&mut m, "policy-version", text("2026-07-19.1"));
    push_member(&mut m, "public-access", Json::Bool(true));
    push_member(&mut m, "reason-codes", Json::Array(codes));
    push_member(&mut m, "redistribution", text("prohibited-or-unclear"));
    push_member(&mut m, "reviewed-at", text("1970-01-01T00:00:00Z"));
    push_member(&mut m, "reviewed-by", text("operator"));
    push_member(&mut m, "source-id", text(DEMO_SOURCE_ID));
    push_member(&mut m, "trading-use", text("research-only"));
    proof {
        assert(crate::json::items_view(codes@) =~= seq![JsonView::Text("statutory-commercial-use-restriction"@)]);
        assert(crate::json::pairs_view(m@) =~= demo_decision_view()->Object_0);
    }
    Json::Object(m)
}

} // verus!
