//! The trade-guard client's messages: the paper-order intent it submits,
//! and the decimal text of a share quantity. Talking to the guard process
//! is left to the caller.

use vstd::prelude::*;
use crate::evidence::TradeSide;
use crate::json::{items_view, json_get, key_index_from, lemma_key_index_from, number, pairs_view, push_member, text, Json, JsonView};
use crate::text::{chars_of, copy_range, string_of};

verus! {

/// `s` without any trailing `c`.
pub open spec fn strip_trailing(s: Seq<char>, c: char) -> Seq<char>
    decreases s.len(),
{
    if s.len() > 0 && s.last() == c {
        strip_trailing(s.drop_last(), c)
    } else {
        s
    }
}

/// A fixed-point decimal without trailing zeros, then without a trailing
/// point; `0` when nothing is left.
pub open spec fn trimmed_decimal(s: Seq<char>) -> Seq<char> {
    let t = strip_trailing(strip_trailing(s, '0'), '.');
    if t.len() == 0 {
        seq!['0']
    } else {
        t
    }
}

proof fn lemma_strip_trailing(s: Seq<char>, c: char, end: int)
    requires
        0 <= end <= s.len(),
        forall|j: int| end <= j < s.len() ==> s[j] == c,
    ensures
        strip_trailing(s, c) == strip_trailing(s.subrange(0, end), c),
    decreases s.len() - end,
{
    if end < s.len() {
        assert(s.drop_last() =~= s.subrange(0, s.len() - 1));
        lemma_strip_trailing(s.drop_last(), c, end);
        assert(s.drop_last().subrange(0, end) =~= s.subrange(0, end));
    } else {
        assert(s.subrange(0, end) =~= s);
    }
}

fn strip_trailing_chars(s: &[char], c: char) -> (r: Vec<char>)
    ensures
        r@ == strip_trailing(s@, c),
{
    let mut end = s.len();
    while end > 0 && s[end - 1] == c
        invariant
            end <= s@.len(),
            forall|j: int| end <= j < s@.len() ==> s@[j] == c,
        decreases end,
    {
        end = end - 1;
    }
    proof {
        lemma_strip_trailing(s@, c, end as int);
        if end > 0 {
            assert(s@.subrange(0, end as int).last() != c);
        }
    }
    copy_range(s, 0, end)
}

/// Trims a fixed-point decimal (as `{:.8}` prints a magnitude) to its
/// significant digits: `45.00000000` becomes `45`, `0.50000000` becomes
/// `0.5`, and `0.00000000` becomes `0`.
pub fn trim_decimal_text(fixed: &str) -> (r: String)
    ensures
        r@ == trimmed_decimal(fixed@),
{
    let chars = chars_of(fixed);
    let a = strip_trailing_chars(&chars, '0');
    let b = strip_trailing_chars(&a, '.');
    if b.len() == 0 {
        let zero = ['0'];
        assert(zero@ =~= seq!['0']);
        return string_of(&zero);
    }
    string_of(&b)
}

/// The fields of a paper-order intent, as text: `quantity` is the
/// quantity's decimal text and `confidence` the JSON number text of the
/// confidence, already limited to `[0, 1]`.
pub struct TradeIntentParams {
    pub intent_id: String,
    pub strategy_id: String,
    pub decision_id: String,
    pub account_alias: String,
    pub instrument_id: String,
    pub symbol: String,
    pub side: TradeSide,
    pub quantity: String,
    pub decision_time: String,
    pub confidence: String,
    pub idempotency_key: String,
    pub evidence_bundle_id: Option<String>,
}

/// The spelling of a side.
pub open spec fn side_text(side: TradeSide) -> Seq<char> {
    match side {
        TradeSide::Buy => "buy"@,
        TradeSide::Sell => "sell"@,
    }
}

/// The instrument of an intent: a schema-2.0.0 equity with multiplier 1.
pub open spec fn instrument_view(p: TradeIntentParams) -> JsonView {
    JsonView::Object(
        seq![
            ("schema-version"@, JsonView::Text("2.0.0"@)),
            ("instrument-id"@, JsonView::Text(p.instrument_id@)),
            ("asset-class"@, JsonView::Text("equity"@)),
            ("symbol"@, JsonView::Text(p.symbol@)),
            ("contract-multiplier"@, JsonView::Text("1"@)),
        ],
    )
}

/// A schema-2.0.0 paper market order, good for the day, with no signals.
pub open spec fn trade_intent_view(p: TradeIntentParams) -> JsonView {
    JsonView::Object(
        seq![
            ("schema-version"@, JsonView::Text("2.0.0"@)),
            ("intent-id"@, JsonView::Text(p.intent_id@)),
            ("strategy-id"@, JsonView::Text(p.strategy_id@)),
            ("decision-id"@, JsonView::Text(p.decision_id@)),
            ("account-alias"@, JsonView::Text(p.account_alias@)),
            ("instrument"@, instrument_view(p)),
            ("side"@, JsonView::Text(side_text(p.side))),
            ("order-type"@, JsonView::Text("market"@)),
            ("quantity"@, JsonView::Text(p.quantity@)),
            ("time-in-force"@, JsonView::Text("day"@)),
            ("decision-time"@, JsonView::Text(p.decision_time@)),
            ("confidence"@, JsonView::Number(p.confidence@)),
            ("signal-ids"@, JsonView::Array(Seq::empty())),
            ("evidence-bundle-id"@, match p.evidence_bundle_id {
                Some(id) => JsonView::Text(id@),
                None => JsonView::Null,
            }),
            ("mode"@, JsonView::Text("paper"@)),
            ("idempotency-key"@, JsonView::Text(p.idempotency_key@)),
        ],
    )
}

fn instrument_of(p: &TradeIntentParams) -> (r: Json)
    ensures
        r@ == instrument_view(*p),
{
    let mut o: Vec<(String, Json)> = Vec::new();
    push_member(&mut o, "schema-version", text("2.0.0"));
    push_member(&mut o, "instrument-id", text(p.instrument_id.as_str()));
    push_member(&mut o, "asset-class", text("equity"));
    push_member(&mut o, "symbol", text(p.symbol.as_str()));
    push_member(&mut o, "contract-multiplier", text("1"));
    assert(pairs_view(o@) =~= instrument_view(*p)->Object_0);
    Json::Object(o)
}

/// The first eight members of the intent.
pub open spec fn intent_head(p: TradeIntentParams) -> Seq<(Seq<char>, JsonView)> {
    trade_intent_view(p)->Object_0.subrange(0, 8)
}

/// The last eight members of the intent.
pub open spec fn intent_tail(p: TradeIntentParams) -> Seq<(Seq<char>, JsonView)> {
    trade_intent_view(p)->Object_0.subrange(8, 16)
}

fn push_intent_head(o: &mut Vec<(String, Json)>, p: &TradeIntentParams)
    ensures
        pairs_view(final(o)@) == pairs_view(old(o)@) + intent_head(*p),
{
    let ghost start = pairs_view(o@);
    push_member(o, "schema-version", text("2.0.0"));
    push_member(o, "intent-id", text(p.intent_id.as_str()));
    push_member(o, "strategy-id", text(p.strategy_id.as_str()));
    push_member(o, "decision-id", text(p.decision_id.as_str()));
    push_member(o, "account-alias", text(p.account_alias.as_str()));
    push_member(o, "instrument", instrument_of(p));
    push_member(o, "side", text(p.side.as_str()));
    push_member(o, "order-type", text("market"));
    assert(pairs_view(o@) =~= start + intent_head(*p));
}

fn push_intent_tail(o: &mut Vec<(String, Json)>, p: &TradeIntentParams)
    ensures
        pairs_view(final(o)@) == pairs_view(old(o)@) + intent_tail(*p),
{
    let ghost start = pairs_view(o@);
    push_member(o, "quantity", text(p.quantity.as_str()));
    push_member(o, "time-in-force", text("day"));
    push_member(o, "decision-time", text(p.decision_time.as_str()));
    push_member(o, "confidence", number(p.confidence.as_str()));
    let signals: Vec<Json> = Vec::new();
    assert(items_view(signals@) =~= Seq::<JsonView>::empty());
    push_member(o, "signal-ids", Json::Array(signals));
    let bundle = match &p.evidence_bundle_id {
        Some(id) => text(id.as_str()),
        None => Json::Null,
    };
    push_member(o, "evidence-bundle-id", bundle);
    push_member(o, "mode", text("paper"));
    push_member(o, "idempotency-key", text(p.idempotency_key.as_str()));
    assert(pairs_view(o@) =~= start + intent_tail(*p));
}

/// The paper-order intent for `p`.
pub fn build_trade_intent(p: &TradeIntentParams) -> (r: Json)
    ensures
        r@ == trade_intent_view(*p),
{
    let mut o: Vec<(String, Json)> = Vec::new();
    assert(pairs_view(o@) =~= Seq::<(Seq<char>, JsonView)>::empty());
    push_intent_head(&mut o, p);
    push_intent_tail(&mut o, p);
    assert(pairs_view(o@) =~= trade_intent_view(*p)->Object_0);
    Json::Object(o)
}

/// The member named `k` at index `i`, with no earlier member of that
/// name, is the one an object gives for `k`.
proof fn lemma_first_member(ps: Seq<(Seq<char>, JsonView)>, i: int, k: Seq<char>)
    requires
        0 <= i < ps.len(),
        ps[i].0 == k,
        forall|m: int| 0 <= m < i ==> ps[m].0 != k,
    ensures
        json_get(JsonView::Object(ps), k) == Some(ps[i].1),
{
    lemma_key_index_from(ps, k, 0);
}

/// Each member of a paper-order intent is the parameter it is named
/// after: `intent-id`, `strategy-id`, `decision-id`, `account-alias`,
/// `side`, `quantity`, `decision-time`, `confidence`, `evidence-bundle-id`
/// and `idempotency-key`, and the instrument's `instrument-id` and
/// `symbol`; the order is a paper market order, good for the day.
pub proof fn law_intent_members_are_the_params(p: TradeIntentParams)
    ensures
        ({
            let v = trade_intent_view(p);
            &&& json_get(v, "intent-id"@) == Some(JsonView::Text(p.intent_id@))
            &&& json_get(v, "strategy-id"@) == Some(JsonView::Text(p.strategy_id@))
            &&& json_get(v, "decision-id"@) == Some(JsonView::Text(p.decision_id@))
            &&& json_get(v, "account-alias"@) == Some(JsonView::Text(p.account_alias@))
            &&& json_get(v, "side"@) == Some(JsonView::Text(
                match p.side {
                    TradeSide::Buy => "buy"@,
                    TradeSide::Sell => "sell"@,
                },
            ))
            &&& json_get(v, "order-type"@) == Some(JsonView::Text("market"@))
            &&& json_get(v, "quantity"@) == Some(JsonView::Text(p.quantity@))
            &&& json_get(v, "time-in-force"@) == Some(JsonView::Text("day"@))
            &&& json_get(v, "decision-time"@) == Some(JsonView::Text(p.decision_time@))
            &&& json_get(v, "confidence"@) == Some(JsonView::Number(p.confidence@))
            &&& json_get(v, "evidence-bundle-id"@) == Some(
                match p.evidence_bundle_id {
                    Some(id) => JsonView::Text(id@),
                    None => JsonView::Null,
                },
            )
            &&& json_get(v, "mode"@) == Some(JsonView::Text("paper"@))
            &&& json_get(v, "idempotency-key"@) == Some(JsonView::Text(p.idempotency_key@))
            &&& json_get(v, "instrument"@) matches Some(ins) && json_get(ins, "instrument-id"@) == Some(
                JsonView::Text(p.instrument_id@),
            ) && json_get(ins, "symbol"@) == Some(JsonView::Text(p.symbol@))
        }),
{
    reveal_strlit("schema-version");
    reveal_strlit("intent-id");
    reveal_strlit("strategy-id");
    reveal_strlit("decision-id");
    reveal_strlit("account-alias");
    reveal_strlit("instrument");
    reveal_strlit("side");
    reveal_strlit("order-type");
    reveal_strlit("quantity");
    reveal_strlit("time-in-force");
    reveal_strlit("decision-time");
    reveal_strlit("confidence");
    reveal_strlit("signal-ids");
    reveal_strlit("evidence-bundle-id");
    reveal_strlit("mode");
    reveal_strlit("idempotency-key");
    reveal_strlit("instrument-id");
    reveal_strlit("asset-class");
    reveal_strlit("symbol");
    reveal_strlit("contract-multiplier");
    let ps = trade_intent_view(p)->Object_0;
    assert forall|a: int, b: int| 0 <= a < b < ps.len() implies #[trigger] ps[a].0 != #[trigger] ps[b].0 by {
        if ps[a].0.len() == ps[b].0.len() {
            assert(ps[a].0[0] != ps[b].0[0] || ps[a].0[1] != ps[b].0[1]);
        }
    }
    assert(ps[0].0 != ps[1].0);
    lemma_first_member(ps, 1, "intent-id"@);
    lemma_first_member(ps, 2, "strategy-id"@);
    lemma_first_member(ps, 3, "decision-id"@);
    lemma_first_member(ps, 4, "account-alias"@);
    lemma_first_member(ps, 5, "instrument"@);
    lemma_first_member(ps, 6, "side"@);
    lemma_first_member(ps, 7, "order-type"@);
    lemma_first_member(ps, 8, "quantity"@);
    lemma_first_member(ps, 9, "time-in-force"@);
    lemma_first_member(ps, 10, "decision-time"@);
    lemma_first_member(ps, 11, "confidence"@);
    lemma_first_member(ps, 13, "evidence-bundle-id"@);
    lemma_first_member(ps, 14, "mode"@);
    lemma_first_member(ps, 15, "idempotency-key"@);
    let qs = instrument_view(p)->Object_0;
    assert forall|a: int, b: int| 0 <= a < b < qs.len() implies #[trigger] qs[a].0 != #[trigger] qs[b].0 by {
        if qs[a].0.len() == qs[b].0.len() {
            assert(qs[a].0[0] != qs[b].0[0]);
        }
    }
    assert(qs[0].0 != qs[1].0);
    lemma_first_member(qs, 1, "instrument-id"@);
    lemma_first_member(qs, 3, "symbol"@);
}

} // verus!
