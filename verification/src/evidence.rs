//! Small rules shared by the evidence loaders: feature-map keys, feed and
//! series caps, URL host labels, timestamp suffixes, and trade sides.

use vstd::prelude::*;
use crate::text::{
    char_is_alphanumeric, chars_of, concat, copy_range, find, find_char_from, find_from, opt_int, push_all,
    replace, replace_all, string_of, to_lowercase, unicode_alphanumeric, unicode_lowercase,
    lemma_find_from_bounds, nat_text, nat_to_text, take_chars, trim, trim_chars, truncate_chars,
};
use crate::evidence_file::{EvidenceRecord, RecordView};
use crate::json::{json_get, json_of_text, parse_json_text, Json, JsonView};
use crate::rss_xml::FeedEntry;

verus! {

/// A character of a feature key: kept when alphanumeric, `_` otherwise.
pub open spec fn key_char(c: char) -> char {
    if unicode_alphanumeric(c) { c } else { '_' }
}

/// The feature-map key for an evidence title: `evidence_` followed by the
/// first 64 characters of the lowercased title with every
/// non-alphanumeric character replaced by `_`.
pub open spec fn feature_key(title: Seq<char>) -> Seq<char> {
    let sanitized = unicode_lowercase(title).map_values(|c: char| key_char(c));
    "evidence_"@ + (if sanitized.len() <= 64 { sanitized } else { sanitized.subrange(0, 64) })
}

/// The feature-map key for an evidence title.
pub fn evidence_feature_key(title: &str) -> (r: String)
    ensures
        r@ == feature_key(title@),
{
    let lower = to_lowercase(title);
    let chars = chars_of(lower.as_str());
    let n = chars.len();
    let limit = if n <= 64 { n } else { 64 };
    let mut out = chars_of("evidence_");
    let ghost prefix = out@;
    let ghost sanitized = chars@.map_values(|c: char| key_char(c));
    let mut i: usize = 0;
    while i < limit
        invariant
            chars@.len() == n,
            limit <= n,
            i <= limit,
            sanitized == chars@.map_values(|c: char| key_char(c)),
            out@ == prefix + sanitized.subrange(0, i as int),
        decreases limit - i,
    {
        let c = chars[i];
        let k = if char_is_alphanumeric(c) { c } else { '_' };
        out.push(k);
        assert(sanitized.subrange(0, i + 1) =~= sanitized.subrange(0, i as int).push(k));
        i = i + 1;
    }
    assert(n <= 64 ==> sanitized.subrange(0, limit as int) =~= sanitized);
    string_of(&out)
}

/// How many RSS feeds are read at most.
pub const MAX_FEEDS: usize = 10;

/// How many FRED series are read at most.
pub const MAX_SERIES: usize = 20;

/// How many entries are taken from each feed: the configured number,
/// kept within 0 to 20.
pub fn feed_item_cap(configured: i64) -> (r: usize)
    ensures
        r as int == (if configured < 0 { 0 } else if configured > 20 { 20 } else { configured as int }),
{
    if configured < 0 {
        0
    } else if configured > 20 {
        20
    } else {
        configured as usize
    }
}

/// At most the first `MAX_FEEDS` feed URLs.
pub fn capped_feeds(feeds: &[String]) -> (r: &[String])
    ensures
        r@ == (if feeds@.len() <= MAX_FEEDS { feeds@ } else { feeds@.subrange(0, MAX_FEEDS as int) }),
{
    let n = if feeds.len() <= MAX_FEEDS { feeds.len() } else { MAX_FEEDS };
    let r = vstd::slice::slice_subrange(feeds, 0, n);
    assert(feeds@.len() <= MAX_FEEDS ==> r@ =~= feeds@);
    r
}

/// At most the first `MAX_SERIES` FRED series ids.
pub fn capped_series(series: &[String]) -> (r: &[String])
    ensures
        r@ == (if series@.len() <= MAX_SERIES { series@ } else { series@.subrange(0, MAX_SERIES as int) }),
{
    let n = if series.len() <= MAX_SERIES { series.len() } else { MAX_SERIES };
    let r = vstd::slice::slice_subrange(series, 0, n);
    assert(series@.len() <= MAX_SERIES ==> r@ =~= series@);
    r
}

/// The authority of a URL, for labels: after `://` when present, up to the
/// first `/`, `?` or `#`.
pub open spec fn netloc_of(url: Seq<char>) -> Seq<char> {
    let start = match find_from(url, 0, seq![':', '/', '/']) {
        Some(i) => i + 3,
        None => 0,
    };
    let after = url.subrange(start, url.len() as int);
    match first_authority_end(after, 0) {
        Some(e) => after.subrange(0, e),
        None => after,
    }
}

/// First index at or after `i` holding `/`, `?` or `#`.
pub open spec fn first_authority_end(s: Seq<char>, i: int) -> Option<int>
    decreases s.len() - i,
{
    if i < 0 || i >= s.len() {
        None
    } else if s[i] == '/' || s[i] == '?' || s[i] == '#' {
        Some(i)
    } else {
        first_authority_end(s, i + 1)
    }
}

/// The host (and port) of a URL, for labelling evidence.
pub fn netloc(url: &str) -> (r: String)
    ensures
        r@ == netloc_of(url@),
{
    let chars = chars_of(url);
    let n = chars.len();
    let sep = [':', '/', '/'];
    assert(sep@ =~= seq![':', '/', '/']);
    proof { lemma_find_from_bounds(chars@, 0, seq![':', '/', '/']); }
    let start = match find(&chars, 0, &sep) {
        Some(i) => i + 3,
        None => 0,
    };
    let after = copy_range(&chars, start, n);
    let m = after.len();
    let mut i: usize = 0;
    let ghost expected = netloc_of(url@);
    assert(expected == match first_authority_end(after@, 0) {
        Some(e) => after@.subrange(0, e),
        None => after@,
    });
    while i < m
        invariant
            expected == match first_authority_end(after@, 0) {
                Some(e) => after@.subrange(0, e),
                None => after@,
            },
            expected == netloc_of(url@),
            after@.len() == m,
            i <= m,
            first_authority_end(after@, 0) == first_authority_end(after@, i as int),
        decreases m - i,
    {
        let c = after[i];
        if c == '/' || c == '?' || c == '#' {
            let host = copy_range(&after, 0, i);
            return string_of(&host);
        }
        i = i + 1;
    }
    string_of(&after)
}

/// Timestamps with a `+00:00` offset rewritten to `Z`.
pub fn iso(value: &str) -> (r: String)
    ensures
        r@ == replace_all(value@, "+00:00"@, "Z"@),
{
    let chars = chars_of(value);
    let pat = chars_of("+00:00");
    let rep = chars_of("Z");
    proof { reveal_strlit("+00:00"); }
    let out = replace(&chars, &pat, &rep);
    string_of(&out)
}

/// The side of a trade.
#[derive(Debug, Clone, Copy, PartialEq, Eq, Structural)]
pub enum TradeSide {
    Buy,
    Sell,
}

impl TradeSide {
    /// `"buy"` or `"sell"`.
    pub fn as_str(self) -> (r: &'static str)
        ensures
            r@ == (match self {
                TradeSide::Buy => "buy"@,
                TradeSide::Sell => "sell"@,
            }),
    {
        match self {
            TradeSide::Buy => "buy",
            TradeSide::Sell => "sell",
        }
    }
}

/// A feature key is `evidence_` followed by at most 64 characters, each
/// alphanumeric or `_`.
pub proof fn law_feature_key_shape(title: Seq<char>)
    ensures
        feature_key(title).len() <= "evidence_"@.len() + 64,
        forall|i: int|
            "evidence_"@.len() <= i < feature_key(title).len() ==> unicode_alphanumeric(
                #[trigger] feature_key(title)[i],
            ) || feature_key(title)[i] == '_',
{
    let sanitized = unicode_lowercase(title).map_values(|c: char| key_char(c));
    let body = if sanitized.len() <= 64 { sanitized } else { sanitized.subrange(0, 64) };
    let p = "evidence_"@;
    assert forall|i: int| p.len() <= i < feature_key(title).len() implies unicode_alphanumeric(
        #[trigger] feature_key(title)[i],
    ) || feature_key(title)[i] == '_' by {
        assert(feature_key(title)[i] == body[i - p.len()]);
    }
}

// ---------------------------------------------------------------------------
// Evidence items of the feed and FRED loaders
// ---------------------------------------------------------------------------

/// The item for entry `item_index` of feed `feed_index`: a `news` item
/// titled `symbol: title` (the entry's title, `RSS item` when it has
/// none, then trimmed; at most 240 characters), dated by the entry (`now`
/// when it has no date), with its description (at most 5000 characters)
/// as untrusted text of quality 0.45.
pub open spec fn entry_record(
    feed_index: nat,
    item_index: nat,
    symbol: Seq<char>,
    url: Seq<char>,
    entry: (Seq<char>, Seq<char>, Seq<char>),
    now: Seq<char>,
) -> RecordView {
    let chosen = if entry.0.len() == 0 {
        "RSS item"@
    } else {
        entry.0
    };
    RecordView {
        evidence_id: "rss-"@ + nat_text(feed_index) + "-"@ + nat_text(item_index),
        kind: "news"@,
        title: take_chars(symbol + ": "@ + trim(chosen), 240),
        timestamp: if entry.2.len() == 0 {
            now
        } else {
            entry.2
        },
        source: "rss:"@ + netloc_of(url),
        value: JsonView::Null,
        text: take_chars(entry.1, 5000),
        quality: Some("0.45"@),
        untrusted_text: true,
    }
}

/// The evidence item for one entry of a feed (see [`entry_record`]).
pub fn entry_evidence(feed_index: usize, item_index: usize, symbol: &str, url: &str, entry: &FeedEntry, now: &str) -> (r:
    EvidenceRecord)
    ensures
        r@ == entry_record(feed_index as nat, item_index as nat, symbol@, url@, entry@, now@),
{
    let chosen = if entry.title.as_str().is_empty() { chars_of("RSS item") } else { chars_of(entry.title.as_str()) };
    let title = string_of(&trim_chars(&chosen));
    let a = concat(symbol, ": ");
    let combined = concat(a.as_str(), title.as_str());
    let b = concat("rss-", nat_to_text(feed_index as u64).as_str());
    let c = concat(b.as_str(), "-");
    let id = concat(c.as_str(), nat_to_text(item_index as u64).as_str());
    let timestamp = if entry.published.as_str().is_empty() { now.to_owned() } else { entry.published.clone() };
    let source = concat("rss:", netloc(url).as_str());
    EvidenceRecord {
        evidence_id: id,
        kind: "news".to_owned(),
        title: truncate_chars(combined.as_str(), 240),
        timestamp,
        source,
        value: Json::Null,
        text: truncate_chars(entry.description.as_str(), 5000),
        quality: Some("0.45".to_owned()),
        untrusted_text: true,
    }
}

/// The item reporting that feed `feed_index` could not be read: trusted
/// `data_quality` evidence of quality 1 whose text is the reason.
pub open spec fn feed_error_record(feed_index: nat, url: Seq<char>, reason: Seq<char>, now: Seq<char>) -> RecordView {
    RecordView {
        evidence_id: "rss-error-"@ + nat_text(feed_index),
        kind: "data_quality"@,
        title: "RSS retrieval error"@,
        timestamp: now,
        source: "rss:"@ + netloc_of(url),
        value: JsonView::Null,
        text: reason,
        quality: Some("1.0"@),
        untrusted_text: false,
    }
}

/// The evidence item for a feed that could not be read (see
/// [`feed_error_record`]).
pub fn error_evidence(feed_index: usize, url: &str, reason: &str, now: &str) -> (r: EvidenceRecord)
    ensures
        r@ == feed_error_record(feed_index as nat, url@, reason@, now@),
{
    EvidenceRecord {
        evidence_id: concat("rss-error-", nat_to_text(feed_index as u64).as_str()),
        kind: "data_quality".to_owned(),
        title: "RSS retrieval error".to_owned(),
        timestamp: now.to_owned(),
        source: concat("rss:", netloc(url).as_str()),
        value: Json::Null,
        text: reason.to_owned(),
        quality: Some("1.0".to_owned()),
        untrusted_text: false,
    }
}

/// The one item the FRED loader gives when it is enabled without an API
/// key: trusted `data_quality` evidence saying so.
pub open spec fn missing_key_record(now: Seq<char>) -> RecordView {
    RecordView {
        evidence_id: "fred-missing-key"@,
        kind: "data_quality"@,
        title: "FRED connector disabled at runtime"@,
        timestamp: now,
        source: "fred"@,
        value: JsonView::Null,
        text: "FRED_API_KEY is not set."@,
        quality: Some("1.0"@),
        untrusted_text: false,
    }
}

/// The evidence the FRED loader gives without an API key (see
/// [`missing_key_record`]).
pub fn missing_key_evidence(now: &str) -> (r: Vec<EvidenceRecord>)
    ensures
        r@.len() == 1,
        r@[0]@ == missing_key_record(now@),
{
    let mut v: Vec<EvidenceRecord> = Vec::new();
    v.push(
        EvidenceRecord {
            evidence_id: "fred-missing-key".to_owned(),
            kind: "data_quality".to_owned(),
            title: "FRED connector disabled at runtime".to_owned(),
            timestamp: now.to_owned(),
            source: "fred".to_owned(),
            value: Json::Null,
            text: "FRED_API_KEY is not set.".to_owned(),
            quality: Some("1.0".to_owned()),
            untrusted_text: false,
        },
    );
    v
}

/// The item reporting that FRED series `series_id` could not be read.
pub open spec fn series_error_record(series_id: Seq<char>, reason: Seq<char>, now: Seq<char>) -> RecordView {
    RecordView {
        evidence_id: "fred-error-"@ + series_id,
        kind: "data_quality"@,
        title: "FRED "@ + series_id + " retrieval error"@,
        timestamp: now,
        source: "FRED"@,
        value: JsonView::Null,
        text: reason,
        quality: Some("1.0"@),
        untrusted_text: false,
    }
}

/// The evidence item for a FRED series that could not be read (see
/// [`series_error_record`]).
pub fn series_error_evidence(series_id: &str, reason: &str, now: &str) -> (r: EvidenceRecord)
    ensures
        r@ == series_error_record(series_id@, reason@, now@),
{
    let a = concat("FRED ", series_id);
    EvidenceRecord {
        evidence_id: concat("fred-error-", series_id),
        kind: "data_quality".to_owned(),
        title: concat(a.as_str(), " retrieval error"),
        timestamp: now.to_owned(),
        source: "FRED".to_owned(),
        value: Json::Null,
        text: reason.to_owned(),
        quality: Some("1.0".to_owned()),
        untrusted_text: false,
    }
}

/// The first observation of a FRED response (`null` when there is none).
pub open spec fn first_observation(payload: JsonView) -> JsonView {
    match json_get(payload, "observations"@) {
        Some(JsonView::Array(items)) => if items.len() > 0 {
            items[0]
        } else {
            JsonView::Null
        },
        _ => JsonView::Null,
    }
}

/// The date of an observation, when it has one as text.
pub open spec fn observation_date(o: JsonView) -> Option<Seq<char>> {
    match json_get(o, "date"@) {
        Some(JsonView::Text(d)) => Some(d),
        _ => None,
    }
}

/// The value of an observation as written: a number, or a text other than
/// FRED's `.` placeholder for a missing value.
pub open spec fn observation_value_text(o: JsonView) -> Option<Seq<char>> {
    match json_get(o, "value"@) {
        Some(JsonView::Text(t)) => if t != "."@ {
            Some(t)
        } else {
            None
        },
        Some(JsonView::Number(t)) => Some(t),
        _ => None,
    }
}

/// The `macro` item for series `series_id` from observation `o`: named
/// after the observation's date (`latest` without one) and dated by it
/// (`now` without one), trusted, of quality 0.9. Its value is left for the
/// caller, which reads [`observation_value_text`] as a number.
pub open spec fn observation_record(series_id: Seq<char>, o: JsonView, now: Seq<char>) -> RecordView {
    RecordView {
        evidence_id: "fred-"@ + series_id + "-"@ + match observation_date(o) {
            Some(d) => d,
            None => "latest"@,
        },
        kind: "macro"@,
        title: "FRED "@ + series_id,
        timestamp: match observation_date(o) {
            Some(d) => d,
            None => now,
        },
        source: "FRED"@,
        value: JsonView::Null,
        text: Seq::empty(),
        quality: Some("0.9"@),
        untrusted_text: false,
    }
}

/// What a FRED response gives: its evidence item, and the observation's
/// value as written, for the caller to read as a number.
pub struct FredObservation {
    pub record: EvidenceRecord,
    pub value_text: Option<String>,
}

fn text_member(o: &Json, key: &str) -> (r: Option<String>)
    ensures
        match r {
            Some(t) => json_get(o@, key@) == Some(JsonView::Text(t@)),
            None => !(json_get(o@, key@) matches Some(JsonView::Text(_))),
        },
{
    match o.get(key) {
        Some(Json::Text(t)) => Some(t.clone()),
        _ => None,
    }
}

/// The evidence of one FRED series from the text of its observations
/// response: the item for its first observation (see
/// [`observation_record`]) with the observation's value as written, or,
/// when the text is not JSON, the series' retrieval error with the
/// parser's message (and no value).
pub fn fred_observation_evidence(series_id: &str, text: &str, now: &str) -> (r: FredObservation)
    ensures
        match json_of_text(text@) {
            Some(p) => r.record@ == observation_record(series_id@, first_observation(p), now@) && match r.value_text {
                Some(v) => observation_value_text(first_observation(p)) == Some(v@),
                None => observation_value_text(first_observation(p)) is None,
            },
            None => r.value_text is None && exists|m: Seq<char>| r.record@ == series_error_record(series_id@, m, now@),
        },
{
    let payload = match parse_json_text(text) {
        Ok(p) => p,
        Err(message) => {
            return FredObservation { record: series_error_evidence(series_id, message.as_str(), now), value_text: None };
        },
    };
    let null = Json::Null;
    let observation: &Json = match payload.get("observations") {
        Some(Json::Array(items)) => if items.len() > 0 {
            proof { crate::json::lemma_items_view(items@); }
            &items[0]
        } else {
            &null
        },
        _ => &null,
    };
    let date = text_member(observation, "date");
    let value_text = match observation.get("value") {
        Some(Json::Text(t)) => if chars_eq_str(t.as_str(), ".") { None } else { Some(t.clone()) },
        Some(Json::Number(t)) => Some(t.clone()),
        _ => None,
    };
    let a = concat("fred-", series_id);
    let b = concat(a.as_str(), "-");
    let (id, timestamp) = match &date {
        Some(d) => (concat(b.as_str(), d.as_str()), d.clone()),
        None => (concat(b.as_str(), "latest"), now.to_owned()),
    };
    let record = EvidenceRecord {
        evidence_id: id,
        kind: "macro".to_owned(),
        title: concat("FRED ", series_id),
        timestamp,
        source: "FRED".to_owned(),
        value: Json::Null,
        text: String::new(),
        quality: Some("0.9".to_owned()),
        untrusted_text: false,
    };
    FredObservation { record, value_text }
}

fn chars_eq_str(a: &str, b: &str) -> (r: bool)
    ensures
        r == (a@ == b@),
{
    crate::text::chars_eq(&chars_of(a), &chars_of(b))
}

} // verus!
