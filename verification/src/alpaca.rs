//! The read-only Alpaca market-data adapter's decisions: its credentials,
//! its base URL, and what the latest-quote and bars responses give. The
//! requests themselves, and reading the prices as numbers, are the
//! caller's; prices are kept here as the JSON text that was written.

use vstd::prelude::*;
use crate::errors::DataError;
use crate::evidence::iso;
use crate::json::{json_get, json_of_text, lemma_items_view, items_view, parse_json_text, Json, JsonView};
use crate::num::is_digit;
use crate::text::{chars_of, concat, copy_range, replace_all, string_of};

verus! {

// ---------------------------------------------------------------------------
// Credentials and base URL
// ---------------------------------------------------------------------------

/// Checks the API key and secret: both must be non-empty, else the
/// credentials are reported missing.
pub fn alpaca_credentials(api_key: &str, api_secret: &str) -> (r: Result<(), DataError>)
    ensures
        r is Ok <==> (api_key@.len() > 0 && api_secret@.len() > 0),
        r matches Err(e) ==> (e matches DataError::MissingEnvVar(n) && n@
            == "ALPACA_API_KEY_ID and ALPACA_API_SECRET_KEY"@),
{
    let k = chars_of(api_key);
    let s = chars_of(api_secret);
    if k.len() == 0 || s.len() == 0 {
        Err(DataError::MissingEnvVar("ALPACA_API_KEY_ID and ALPACA_API_SECRET_KEY"))
    } else {
        Ok(())
    }
}

/// `s` without the `/` characters at its end.
pub open spec fn without_trailing_slashes(s: Seq<char>) -> Seq<char>
    decreases s.len(),
{
    if s.len() > 0 && s.last() == '/' {
        without_trailing_slashes(s.drop_last())
    } else {
        s
    }
}

/// The base URL as configured, without trailing `/` (`str::trim_end_matches('/')`).
pub fn trim_end_slashes(s: &str) -> (r: String)
    ensures
        r@ == without_trailing_slashes(s@),
{
    let c = chars_of(s);
    let mut end: usize = c.len();
    assert(c@.subrange(0, end as int) =~= c@);
    while end > 0 && c[end - 1] == '/'
        invariant
            end <= c@.len(),
            without_trailing_slashes(c@.subrange(0, end as int)) == without_trailing_slashes(s@),
            c@ == s@,
        decreases end,
    {
        assert(c@.subrange(0, end as int).drop_last() =~= c@.subrange(0, end - 1));
        end = end - 1;
    }
    proof {
        if end > 0 {
            assert(c@.subrange(0, end as int).last() == c@[end - 1]);
        }
    }
    let t = copy_range(&c, 0, end);
    string_of(&t)
}

// ---------------------------------------------------------------------------
// Responses
// ---------------------------------------------------------------------------

/// A response body as the adapter accepts it: JSON text holding an object.
/// Text that is not JSON is invalid JSON (with the parser's message); any
/// other value is an unexpected response.
pub fn alpaca_payload_from_text(text: &str) -> (r: Result<Json, DataError>)
    ensures
        match json_of_text(text@) {
            None => r matches Err(DataError::InvalidJson(_)),
            Some(p) => if p is Object {
                r matches Ok(j) && j@ == p
            } else {
                r matches Err(DataError::UnexpectedResponse(m)) && m@ == "expected a JSON object"@
            },
        },
{
    match parse_json_text(text) {
        Err(message) => Err(DataError::InvalidJson(message)),
        Ok(j) => if j.is_object() {
            Ok(j)
        } else {
            Err(DataError::UnexpectedResponse("expected a JSON object".to_owned()))
        },
    }
}

/// Whether the text of a JSON number denotes zero: no digit before its
/// exponent is other than `0`.
pub open spec fn number_text_is_zero(t: Seq<char>) -> bool {
    forall|i: int|
        0 <= i < t.len() && #[trigger] is_digit(t[i]) && no_exponent_before(t, i) ==> t[i] == '0'
}

/// Whether no `e` or `E` comes before index `i` of `t`.
pub open spec fn no_exponent_before(t: Seq<char>, i: int) -> bool {
    forall|j: int| 0 <= j < i ==> #[trigger] t[j] != 'e' && t[j] != 'E'
}

/// Whether the number text `t` denotes zero.
pub fn is_zero_number_text(t: &str) -> (r: bool)
    ensures
        r == number_text_is_zero(t@),
{
    let c = chars_of(t);
    let mut i: usize = 0;
    while i < c.len()
        invariant
            i <= c@.len(),
            c@ == t@,
            no_exponent_before(t@, i as int),
            forall|k: int| 0 <= k < i && #[trigger] is_digit(t@[k]) ==> t@[k] == '0',
        decreases c.len() - i,
    {
        let ch = c[i];
        if ch == 'e' || ch == 'E' {
            assert forall|k: int|
                0 <= k < t@.len() && #[trigger] is_digit(t@[k]) && no_exponent_before(t@, k) implies t@[k]
                == '0' by {
                if k > i {
                    assert(t@[i as int] == ch);
                }
            }
            return true;
        }
        if '1' <= ch && ch <= '9' {
            assert(is_digit(t@[i as int]) && no_exponent_before(t@, i as int));
            return false;
        }
        i = i + 1;
    }
    true
}

/// The text of the number member `key` of `item`, when it is a number.
pub open spec fn number_member(item: JsonView, key: Seq<char>) -> Option<Seq<char>> {
    match json_get(item, key) {
        Some(JsonView::Number(t)) => Some(t),
        _ => None,
    }
}

/// The text member `key` of `item`, when it is a non-empty text.
pub open spec fn nonempty_text_member(item: JsonView, key: Seq<char>) -> Option<Seq<char>> {
    match json_get(item, key) {
        Some(JsonView::Text(s)) => if s.len() > 0 {
            Some(s)
        } else {
            None
        },
        _ => None,
    }
}

/// A price bar with its prices as written.
pub struct BarText {
    pub timestamp: String,
    pub open: String,
    pub high: String,
    pub low: String,
    pub close: String,
    /// The volume, when the bar gives one as a number.
    pub volume: Option<String>,
}

/// A [`BarText`] as a mathematical value.
pub struct BarView {
    pub timestamp: Seq<char>,
    pub open: Seq<char>,
    pub high: Seq<char>,
    pub low: Seq<char>,
    pub close: Seq<char>,
    pub volume: Option<Seq<char>>,
}

impl View for BarText {
    type V = BarView;

    open spec fn view(&self) -> BarView {
        BarView {
            timestamp: self.timestamp@,
            open: self.open@,
            high: self.high@,
            low: self.low@,
            close: self.close@,
            volume: match self.volume {
                Some(v) => Some(v@),
                None => None,
            },
        }
    }
}

/// The views of `bars`.
pub open spec fn bars_view(bars: Seq<BarText>) -> Seq<BarView> {
    bars.map_values(|b: BarText| b@)
}

/// Whether `item` is a bar at all: an object with each of `o`, `h`, `l`
/// and `c`.
pub open spec fn has_price_fields(item: JsonView) -> bool {
    &&& json_get(item, "o"@) is Some
    &&& json_get(item, "h"@) is Some
    &&& json_get(item, "l"@) is Some
    &&& json_get(item, "c"@) is Some
}

/// The first of `o`, `h`, `l`, `c` (in that order) that is not a number.
pub open spec fn non_numeric_price_field(item: JsonView) -> Option<Seq<char>> {
    if number_member(item, "o"@) is None {
        Some("o"@)
    } else if number_member(item, "h"@) is None {
        Some("h"@)
    } else if number_member(item, "l"@) is None {
        Some("l"@)
    } else if number_member(item, "c"@) is None {
        Some("c"@)
    } else {
        None
    }
}

/// The bar `item` gives: its time `t` with `+00:00` written as `Z` (`now`
/// when `t` is not a non-empty text), its four prices, and its volume `v`
/// when that is a number.
pub open spec fn bar_of(item: JsonView, now: Seq<char>) -> BarView {
    BarView {
        timestamp: match nonempty_text_member(item, "t"@) {
            Some(s) => replace_all(s, "+00:00"@, "Z"@),
            None => now,
        },
        open: number_member(item, "o"@)->0,
        high: number_member(item, "h"@)->0,
        low: number_member(item, "l"@)->0,
        close: number_member(item, "c"@)->0,
        volume: number_member(item, "v"@),
    }
}

/// The bars of `items`, in order: items that are not bars are skipped; the
/// first bar with a price that is not a number stops with that field's name.
pub open spec fn bars_of(items: Seq<JsonView>, now: Seq<char>) -> Result<Seq<BarView>, Seq<char>>
    decreases items.len(),
{
    if items.len() == 0 {
        Ok(Seq::empty())
    } else {
        let item = items.last();
        match bars_of(items.drop_last(), now) {
            Err(k) => Err(k),
            Ok(bs) => if !has_price_fields(item) {
                Ok(bs)
            } else {
                match non_numeric_price_field(item) {
                    Some(k) => Err(k),
                    None => Ok(bs.push(bar_of(item, now))),
                }
            },
        }
    }
}

/// The `bars` array of a bars response, oldest first (the response lists
/// the newest first); none when there is no such array.
pub open spec fn chronological_bars(payload: JsonView) -> Seq<JsonView> {
    match json_get(payload, "bars"@) {
        Some(JsonView::Array(items)) => items.reverse(),
        _ => Seq::empty(),
    }
}

/// What a bars response gives: its bars, oldest first, or the message of
/// the unexpected response: a price that is not a number, or no bars.
pub open spec fn bars_outcome(payload: JsonView, now: Seq<char>) -> Result<Seq<BarView>, Seq<char>> {
    match bars_of(chronological_bars(payload), now) {
        Err(k) => Err("bar field "@ + k + " was not numeric"@),
        Ok(bs) => if bs.len() == 0 {
            Err("market-data provider returned no bars"@)
        } else {
            Ok(bs)
        },
    }
}

/// Once the bars of a prefix of `s` stop with an error, so do those of `s`.
proof fn lemma_bars_error_persists(s: Seq<JsonView>, j: int, now: Seq<char>, k: Seq<char>)
    requires
        0 <= j <= s.len(),
        bars_of(s.subrange(0, j), now) == Err::<Seq<BarView>, Seq<char>>(k),
    ensures
        bars_of(s, now) == Err::<Seq<BarView>, Seq<char>>(k),
    decreases s.len() - j,
{
    if j < s.len() {
        assert(s.subrange(0, j + 1).drop_last() =~= s.subrange(0, j));
        lemma_bars_error_persists(s, j + 1, now, k);
    } else {
        assert(s.subrange(0, j) =~= s);
    }
}

fn number_text_of(item: &Json, key: &str) -> (r: Option<String>)
    ensures
        match r {
            Some(t) => number_member(item@, key@) == Some(t@),
            None => number_member(item@, key@) is None,
        },
{
    match item.get(key) {
        Some(Json::Number(t)) => Some(t.clone()),
        _ => None,
    }
}

fn nonempty_text_of(item: &Json, key: &str) -> (r: Option<String>)
    ensures
        match r {
            Some(t) => nonempty_text_member(item@, key@) == Some(t@),
            None => nonempty_text_member(item@, key@) is None,
        },
{
    match item.get(key) {
        Some(Json::Text(s)) => {
            let c = chars_of(s.as_str());
            if c.len() > 0 {
                Some(s.clone())
            } else {
                None
            }
        },
        _ => None,
    }
}

fn field_error(key: &str) -> (r: DataError)
    ensures
        r matches DataError::UnexpectedResponse(m) && m@ == "bar field "@ + key@ + " was not numeric"@,
{
    let a = concat("bar field ", key);
    DataError::UnexpectedResponse(concat(a.as_str(), " was not numeric"))
}

/// The bar of one item, or `None` when it is not a bar, or the error for
/// its first price that is not a number.
fn bar_from_item(item: &Json, now: &str) -> (r: Result<Option<BarText>, DataError>)
    ensures
        !has_price_fields(item@) ==> r matches Ok(None),
        has_price_fields(item@) ==> match non_numeric_price_field(item@) {
            Some(k) => r matches Err(DataError::UnexpectedResponse(m)) && m@ == "bar field "@ + k
                + " was not numeric"@,
            None => r matches Ok(Some(b)) && b@ == bar_of(item@, now@),
        },
{
    if item.get("o").is_none() || item.get("h").is_none() || item.get("l").is_none() || item.get("c").is_none() {
        return Ok(None);
    }
    let timestamp = match nonempty_text_of(item, "t") {
        Some(s) => iso(s.as_str()),
        None => now.to_owned(),
    };
    let open = match number_text_of(item, "o") {
        Some(t) => t,
        None => return Err(field_error("o")),
    };
    let high = match number_text_of(item, "h") {
        Some(t) => t,
        None => return Err(field_error("h")),
    };
    let low = match number_text_of(item, "l") {
        Some(t) => t,
        None => return Err(field_error("l")),
    };
    let close = match number_text_of(item, "c") {
        Some(t) => t,
        None => return Err(field_error("c")),
    };
    let volume = number_text_of(item, "v");
    Ok(Some(BarText { timestamp, open, high, low, close, volume }))
}

/// The bars of a bars response (see [`bars_outcome`]).
pub fn alpaca_bars(payload: &Json, now: &str) -> (r: Result<Vec<BarText>, DataError>)
    ensures
        match bars_outcome(payload@, now@) {
            Ok(bs) => r matches Ok(v) && bars_view(v@) == bs,
            Err(m) => r matches Err(DataError::UnexpectedResponse(e)) && e@ == m,
        },
{
    let ghost items_seq: Seq<JsonView> = chronological_bars(payload@);
    let empty: Vec<Json> = Vec::new();
    let items: &Vec<Json> = match payload.get("bars") {
        Some(Json::Array(a)) => a,
        _ => &empty,
    };
    proof {
        lemma_items_view(items@);
        assert(items_view(items@).reverse() =~= items_seq) by {
            if !(json_get(payload@, "bars"@) matches Some(JsonView::Array(_))) {
                assert(items@.len() == 0);
            }
        }
    }
    let n = items.len();
    let mut out: Vec<BarText> = Vec::new();
    let mut j: usize = 0;
    assert(items_seq.subrange(0, 0) =~= Seq::<JsonView>::empty());
    assert(bars_view(out@) =~= Seq::<BarView>::empty());
    while j < n
        invariant
            n == items@.len(),
            n == items_seq.len(),
            items_seq == chronological_bars(payload@),
            j <= n,
            forall|i: int| 0 <= i < n ==> #[trigger] items_seq[i] == items@[n - 1 - i]@,
            bars_of(items_seq.subrange(0, j as int), now@) == Ok::<Seq<BarView>, Seq<char>>(bars_view(out@)),
        decreases n - j,
    {
        let item = &items[n - 1 - j];
        proof {
            assert(items_seq[j as int] == item@);
            assert(items_seq.subrange(0, j + 1).drop_last() =~= items_seq.subrange(0, j as int));
            assert(items_seq.subrange(0, j + 1).last() == item@);
        }
        match bar_from_item(item, now) {
            Err(e) => {
                proof {
                    let k = non_numeric_price_field(item@)->0;
                    assert(has_price_fields(item@));
                    assert(bars_of(items_seq.subrange(0, j + 1), now@) == Err::<Seq<BarView>, Seq<char>>(k));
                    lemma_bars_error_persists(items_seq, j + 1, now@, k);
                    assert(bars_of(chronological_bars(payload@), now@) == Err::<Seq<BarView>, Seq<char>>(k));
                }
                return Err(e);
            },
            Ok(None) => {},
            Ok(Some(b)) => {
                let ghost before = out@;
                out.push(b);
                proof {
                    assert(bars_view(out@) =~= bars_view(before).push(b@));
                }
            },
        }
        j = j + 1;
    }
    assert(items_seq.subrange(0, n as int) =~= items_seq);
    if out.len() == 0 {
        return Err(DataError::UnexpectedResponse("market-data provider returned no bars".to_owned()));
    }
    Ok(out)
}

/// The bars of the text of a bars response: as [`alpaca_payload_from_text`]
/// accepts it, then as [`bars_outcome`] reads it.
pub fn alpaca_bars_from_text(text: &str, now: &str) -> (r: Result<Vec<BarText>, DataError>)
    ensures
        match json_of_text(text@) {
            None => r matches Err(DataError::InvalidJson(_)),
            Some(p) => if !(p is Object) {
                r matches Err(DataError::UnexpectedResponse(m)) && m@ == "expected a JSON object"@
            } else {
                match bars_outcome(p, now@) {
                    Ok(bs) => r matches Ok(v) && bars_view(v@) == bs,
                    Err(m) => r matches Err(DataError::UnexpectedResponse(e)) && e@ == m,
                }
            },
        },
{
    let payload = alpaca_payload_from_text(text)?;
    alpaca_bars(&payload, now)
}

/// A quote with its prices as written.
pub struct QuoteText {
    pub bid: String,
    pub ask: String,
    pub last: String,
    pub timestamp: String,
    /// `alpaca:` and the data feed.
    pub source: String,
}

/// A [`QuoteText`] as a mathematical value.
pub struct QuoteView {
    pub bid: Seq<char>,
    pub ask: Seq<char>,
    pub last: Seq<char>,
    pub timestamp: Seq<char>,
    pub source: Seq<char>,
}

impl View for QuoteText {
    type V = QuoteView;

    open spec fn view(&self) -> QuoteView {
        QuoteView {
            bid: self.bid@,
            ask: self.ask@,
            last: self.last@,
            timestamp: self.timestamp@,
            source: self.source@,
        }
    }
}

/// The `quote` member of a latest-quote response (`null` without one).
pub open spec fn quote_member(payload: JsonView) -> JsonView {
    match json_get(payload, "quote"@) {
        Some(q) => q,
        None => JsonView::Null,
    }
}

/// The price member `key` of `q` as written, or `fallback` when it is
/// missing, not a number, or zero.
pub open spec fn price_or(q: JsonView, key: Seq<char>, fallback: Seq<char>) -> Seq<char> {
    match number_member(q, key) {
        Some(t) => if number_text_is_zero(t) {
            fallback
        } else {
            t
        },
        None => fallback,
    }
}

/// The quote of a latest-quote response, given the last bar and the data
/// feed: bid `bp` and ask `ap`, each falling back to the last close; the
/// last close; the quote's time `t` (the last bar's time when `t` is not a
/// non-empty text) with `+00:00` written as `Z`; and `alpaca:` + `feed`.
pub open spec fn quote_of(payload: JsonView, last: BarView, feed: Seq<char>) -> QuoteView {
    let q = quote_member(payload);
    QuoteView {
        bid: price_or(q, "bp"@, last.close),
        ask: price_or(q, "ap"@, last.close),
        last: last.close,
        timestamp: replace_all(
            match nonempty_text_member(q, "t"@) {
                Some(s) => s,
                None => last.timestamp,
            },
            "+00:00"@,
            "Z"@,
        ),
        source: "alpaca:"@ + feed,
    }
}

fn price_text(q: &Json, key: &str, fallback: &String) -> (r: String)
    ensures
        r@ == price_or(q@, key@, fallback@),
{
    match number_text_of(q, key) {
        Some(t) => if is_zero_number_text(t.as_str()) {
            fallback.clone()
        } else {
            t
        },
        None => fallback.clone(),
    }
}

/// The quote of a latest-quote response (see [`quote_of`]).
pub fn alpaca_quote(payload: &Json, last: &BarText, feed: &str) -> (r: QuoteText)
    ensures
        r@ == quote_of(payload@, last@, feed@),
{
    let null = Json::Null;
    let q: &Json = match payload.get("quote") {
        Some(x) => x,
        None => &null,
    };
    let bid = price_text(q, "bp", &last.close);
    let ask = price_text(q, "ap", &last.close);
    let timestamp = match nonempty_text_of(q, "t") {
        Some(s) => iso(s.as_str()),
        None => iso(last.timestamp.as_str()),
    };
    QuoteText { bid, ask, last: last.close.clone(), timestamp, source: concat("alpaca:", feed) }
}

/// Whether `b` carries, as its open, high, low and close, the numbers
/// written at the `o`, `h`, `l` and `c` members of `item`.
pub open spec fn prices_written_at(item: JsonView, b: BarView) -> bool {
    &&& json_get(item, "o"@) == Some(JsonView::Number(b.open))
    &&& json_get(item, "h"@) == Some(JsonView::Number(b.high))
    &&& json_get(item, "l"@) == Some(JsonView::Number(b.low))
    &&& json_get(item, "c"@) == Some(JsonView::Number(b.close))
}

proof fn lemma_bars_come_from_items(items: Seq<JsonView>, now: Seq<char>)
    ensures
        bars_of(items, now) matches Ok(bs) ==> forall|k: int|
            0 <= k < bs.len() ==> exists|j: int| 0 <= j < items.len() && prices_written_at(items[j], #[trigger] bs[k]),
    decreases items.len(),
{
    if items.len() > 0 {
        let front = items.drop_last();
        lemma_bars_come_from_items(front, now);
        if let Ok(bs) = bars_of(items, now) {
            assert forall|k: int| 0 <= k < bs.len() implies exists|j: int|
                0 <= j < items.len() && prices_written_at(items[j], #[trigger] bs[k]) by {
                let item = items.last();
                let bs0 = bars_of(front, now)->Ok_0;
                if k < bs0.len() {
                    assert(bs[k] == bs0[k]);
                    let j = choose|j: int| 0 <= j < front.len() && prices_written_at(front[j], bs0[k]);
                    assert(items[j] == front[j]);
                } else {
                    assert(bs[k] == bar_of(item, now));
                    assert(prices_written_at(items[items.len() - 1], bs[k]));
                }
            }
        }
    }
}

/// Every bar read from a bars response carries as its open, high, low and
/// close the numbers written at the `o`, `h`, `l` and `c` members of one
/// item of the response's `bars` array.
pub proof fn law_bars_carry_the_prices_written(payload: JsonView, now: Seq<char>)
    ensures
        bars_outcome(payload, now) matches Ok(bs) ==> (json_get(payload, "bars"@) matches Some(
            JsonView::Array(items),
        ) && forall|k: int|
            0 <= k < bs.len() ==> exists|j: int| 0 <= j < items.len() && prices_written_at(items[j], #[trigger] bs[k])),
{
    let chrono = chronological_bars(payload);
    lemma_bars_come_from_items(chrono, now);
    if let Ok(bs) = bars_outcome(payload, now) {
        assert(bars_of(chrono, now) == Ok::<Seq<BarView>, Seq<char>>(bs));
        if let Some(JsonView::Array(items)) = json_get(payload, "bars"@) {
            assert forall|k: int| 0 <= k < bs.len() implies exists|j: int|
                0 <= j < items.len() && prices_written_at(items[j], #[trigger] bs[k]) by {
                let i = choose|i: int| 0 <= i < chrono.len() && prices_written_at(chrono[i], bs[k]);
                assert(chrono[i] == items[items.len() - 1 - i]);
                assert(prices_written_at(items[items.len() - 1 - i], bs[k]));
            }
        } else {
            assert(chrono.len() == 0);
        }
    }
}

/// The quote's bid is the number written at the quote's `bp` and its ask
/// the one at `ap`, when those are non-zero numbers; a missing or zero one
/// falls back to the last bar's close, which is also the quote's last
/// price; the source is `alpaca:` and the feed.
pub proof fn law_quote_carries_the_prices_written(payload: JsonView, last: BarView, feed: Seq<char>)
    ensures
        ({
            let r = quote_of(payload, last, feed);
            &&& r.last == last.close
            &&& r.source == "alpaca:"@ + feed
            &&& json_get(payload, "quote"@) matches Some(q) ==> {
                &&& (json_get(q, "bp"@) matches Some(JsonView::Number(t)) ==> r.bid == (if number_text_is_zero(t) {
                    last.close
                } else {
                    t
                }))
                &&& (json_get(q, "ap"@) matches Some(JsonView::Number(t)) ==> r.ask == (if number_text_is_zero(t) {
                    last.close
                } else {
                    t
                }))
                &&& (json_get(q, "bp"@) is None ==> r.bid == last.close)
                &&& (json_get(q, "ap"@) is None ==> r.ask == last.close)
            }
            &&& json_get(payload, "quote"@) is None ==> r.bid == last.close && r.ask == last.close
        }),
{
}

} // verus!
