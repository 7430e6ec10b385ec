//! Evidence items: the compact JSON text of a value (as fields of a row
//! are read as text), the rows of an operator-written evidence file that
//! apply to a symbol and how each field of a row is read, defaulted and
//! bounded, and the summary of items that the feature builder reads.
//! Reading and parsing the file is left to the caller, which hands over
//! the parsed payload.

use vstd::prelude::*;
use crate::evidence::{evidence_feature_key, feature_key};
use crate::json::{
    json_get, items_view, json_view, keys_sorted, law_set_member_keeps_key_order, lemma_items_view, lemma_pairs_view,
    pairs_view, set_member, with_member, Json, JsonView, json_of_text, parse_json_text,
};
use crate::text::{
    chars_eq, chars_of, concat, nat_to_text, nat_text, push_all, string_of, take_chars, to_uppercase, truncate_chars,
    unicode_uppercase,
};

verus! {

// ---------------------------------------------------------------------------
// Compact JSON text
// ---------------------------------------------------------------------------

/// The lower-case hexadecimal digit for `d` (`0 <= d < 16`).
pub open spec fn lower_hex_digit(d: int) -> char {
    if d < 10 {
        (('0' as int) + d) as char
    } else {
        (('a' as int) + d - 10) as char
    }
}

/// How `serde_json` writes one character inside a string literal: `"` and
/// `\` behind a backslash; backspace, tab, line feed, form feed and carriage
/// return as `\b`, `\t`, `\n`, `\f`, `\r`; any other character below U+0020
/// as `\u00` and two lower-case hexadecimal digits; every other character
/// as itself.
pub open spec fn json_char_escape(c: char) -> Seq<char> {
    let n = c as int;
    if c == '"' {
        seq!['\\', '"']
    } else if c == '\\' {
        seq!['\\', '\\']
    } else if n == 0x08 {
        seq!['\\', 'b']
    } else if n == 0x09 {
        seq!['\\', 't']
    } else if n == 0x0a {
        seq!['\\', 'n']
    } else if n == 0x0c {
        seq!['\\', 'f']
    } else if n == 0x0d {
        seq!['\\', 'r']
    } else if n < 0x20 {
        seq!['\\', 'u', '0', '0', lower_hex_digit(n / 16), lower_hex_digit(n % 16)]
    } else {
        seq![c]
    }
}

/// The characters of `s`, each written as `json_char_escape` says.
pub open spec fn json_escaped(s: Seq<char>) -> Seq<char>
    decreases s.len(),
{
    if s.len() == 0 {
        Seq::empty()
    } else {
        json_escaped(s.drop_last()) + json_char_escape(s.last())
    }
}

/// The JSON string literal that `serde_json` writes for `s`: its escaped
/// characters between double quotes.
pub open spec fn json_string_literal(s: Seq<char>) -> Seq<char> {
    seq!['"'] + json_escaped(s) + seq!['"']
}

/// Trusted: calls `serde_json::to_string` on a `str`, which writes the
/// escaping above (`serde_json`'s `format_escaped_str` with its `ESCAPE`
/// table and `write_char_escape`); serialising a `str` cannot fail.
#[verifier::external_body]
fn quote_json_string(s: &str) -> (r: String)
    ensures
        r@ == json_string_literal(s@),
{
    serde_json::to_string(s).unwrap_or_default()
}

/// The compact JSON text of `v`, as `serde_json` prints a value: no
/// white space, members in the order they are held, numbers as written.
pub open spec fn json_text(v: JsonView) -> Seq<char>
    decreases v,
{
    match v {
        JsonView::Null => "null"@,
        JsonView::Bool(b) => if b {
            "true"@
        } else {
            "false"@
        },
        JsonView::Number(t) => t,
        JsonView::Text(s) => json_string_literal(s),
        JsonView::Array(items) => "["@ + items_text(items) + "]"@,
        JsonView::Object(pairs) => "{"@ + members_text(pairs) + "}"@,
    }
}

/// The texts of `items`, separated by commas.
pub open spec fn items_text(items: Seq<JsonView>) -> Seq<char>
    decreases items,
{
    if items.len() == 0 {
        Seq::empty()
    } else if items.len() == 1 {
        json_text(items[0])
    } else {
        items_text(items.subrange(0, items.len() - 1)) + ","@ + json_text(items[items.len() - 1])
    }
}

/// The members `"key":value` of an object, separated by commas.
pub open spec fn members_text(pairs: Seq<(Seq<char>, JsonView)>) -> Seq<char>
    decreases pairs,
{
    if pairs.len() == 0 {
        Seq::empty()
    } else if pairs.len() == 1 {
        json_string_literal(pairs[0].0) + ":"@ + json_text(pairs[0].1)
    } else {
        members_text(pairs.subrange(0, pairs.len() - 1)) + ","@ + json_string_literal(pairs[pairs.len() - 1].0) + ":"@
            + json_text(pairs[pairs.len() - 1].1)
    }
}

fn push_str(out: &mut Vec<char>, s: &str)
    ensures
        final(out)@ == old(out)@ + s@,
{
    let v = chars_of(s);
    push_all(out, &v);
}

fn push_json_text(out: &mut Vec<char>, v: &Json)
    ensures
        final(out)@ == old(out)@ + json_text(v@),
    decreases v,
{
    match v {
        Json::Null => push_str(out, "null"),
        Json::Bool(b) => push_str(out, if *b { "true" } else { "false" }),
        Json::Number(t) => push_str(out, t.as_str()),
        Json::Text(s) => {
            let q = quote_json_string(s.as_str());
            push_str(out, q.as_str());
        },
        Json::Array(items) => {
            let ghost start = out@;
            let ghost iv = items_view(items@);
            proof {
                lemma_items_view(items@);
                reveal_strlit("[");
                reveal_strlit("]");
                reveal_strlit(",");
            }
            out.push('[');
            let mut i: usize = 0;
            while i < items.len()
                invariant
                    *v == Json::Array(*items),
                    iv == items_view(items@),
                    iv.len() == items@.len(),
                    forall|j: int| 0 <= j < items@.len() ==> #[trigger] iv[j] == json_view(items@[j]),
                    i <= items@.len(),
                    out@ == start + "["@ + items_text(iv.subrange(0, i as int)),
                decreases items@.len() - i,
            {
                proof {
                    assert(decreases_to!(*items => items@));
                    assert(decreases_to!(items@ => items@[i as int]));
                    assert(decreases_to!(*v => (*v)->Array_0));
                    assert((*v)->Array_0 == *items);
                    assert(decreases_to!(v => items@[i as int]));
                }
                let ghost before = out@;
                if i > 0 {
                    out.push(',');
                }
                let ghost middle = out@;
                push_json_text(out, &items[i]);
                proof {
                    reveal_strlit("[");
                    reveal_strlit(",");
                    let prev = iv.subrange(0, i as int);
                    let next = iv.subrange(0, i + 1);
                    assert(next.subrange(0, next.len() - 1) =~= prev);
                    assert(next[next.len() - 1] == iv[i as int]);
                    assert(iv[i as int] == items@[i as int]@);
                    if i == 0 {
                        assert(prev =~= Seq::<JsonView>::empty());
                        assert(items_text(next) == json_text(next[0]));
                        assert(out@ =~= start + "["@ + items_text(next));
                    } else {
                        assert(items_text(next) == items_text(prev) + ","@ + json_text(next[next.len() - 1]));
                        assert(middle =~= before + ","@);
                        assert(out@ =~= start + "["@ + items_text(next));
                    }
                }
                i = i + 1;
            }
            out.push(']');
            proof {
                assert(iv.subrange(0, items@.len() as int) =~= iv);
            }
        },
        Json::Object(pairs) => {
            let ghost start = out@;
            let ghost pv = pairs_view(pairs@);
            proof {
                lemma_pairs_view(pairs@);
                reveal_strlit("{");
                reveal_strlit("}");
                reveal_strlit(",");
                reveal_strlit(":");
            }
            out.push('{');
            let mut i: usize = 0;
            while i < pairs.len()
                invariant
                    *v == Json::Object(*pairs),
                    pv == pairs_view(pairs@),
                    pv.len() == pairs@.len(),
                    forall|j: int|
                        0 <= j < pairs@.len() ==> #[trigger] pv[j] == (pairs@[j].0@, json_view(pairs@[j].1)),
                    i <= pairs@.len(),
                    out@ == start + "{"@ + members_text(pv.subrange(0, i as int)),
                decreases pairs@.len() - i,
            {
                proof {
                    assert(decreases_to!(*pairs => pairs@));
                    assert(decreases_to!(pairs@ => pairs@[i as int]));
                    assert(decreases_to!(pairs@[i as int] => pairs@[i as int].1));
                    assert(decreases_to!(*v => (*v)->Object_0));
                    assert((*v)->Object_0 == *pairs);
                    assert(decreases_to!(v => pairs@[i as int].1));
                }
                let ghost before = out@;
                if i > 0 {
                    out.push(',');
                }
                let ghost middle = out@;
                let q = quote_json_string(pairs[i].0.as_str());
                push_str(out, q.as_str());
                out.push(':');
                push_json_text(out, &pairs[i].1);
                proof {
                    reveal_strlit("{");
                    reveal_strlit(",");
                    reveal_strlit(":");
                    let prev = pv.subrange(0, i as int);
                    let next = pv.subrange(0, i + 1);
                    let entry = json_string_literal(pv[i as int].0) + ":"@ + json_text(pv[i as int].1);
                    assert(next.subrange(0, next.len() - 1) =~= prev);
                    assert(next[next.len() - 1] == pv[i as int]);
                    assert(out@ =~= middle + entry);
                    if i == 0 {
                        assert(prev =~= Seq::<(Seq<char>, JsonView)>::empty());
                        assert(members_text(next) == entry);
                        assert(out@ =~= start + "{"@ + members_text(next));
                    } else {
                        assert(members_text(next) == members_text(prev) + ","@ + entry);
                        assert(middle =~= before + ","@);
                        assert(out@ =~= start + "{"@ + members_text(next));
                    }
                }
                i = i + 1;
            }
            out.push('}');
            proof {
                assert(pv.subrange(0, pairs@.len() as int) =~= pv);
            }
        },
    }
}

/// The compact JSON text of `v`.
pub fn to_json_text(v: &Json) -> (r: String)
    ensures
        r@ == json_text(v@),
{
    let mut out: Vec<char> = Vec::new();
    push_json_text(&mut out, v);
    proof {
        assert(out@ =~= json_text(v@));
    }
    string_of(&out)
}

// ---------------------------------------------------------------------------
// Rows of an evidence file
// ---------------------------------------------------------------------------

/// A field value as text: a string as it is, `null` as nothing, anything
/// else as its JSON text.
pub open spec fn stringified(v: JsonView) -> Seq<char> {
    match v {
        JsonView::Text(s) => s,
        JsonView::Null => Seq::empty(),
        _ => json_text(v),
    }
}

/// The member `key` of `row` as text, or `default` when the row has no
/// such member (a member that is present keeps its value, even when it
/// is empty or `null`).
pub open spec fn member_or(row: JsonView, key: Seq<char>, default: Seq<char>) -> Seq<char> {
    match json_get(row, key) {
        Some(v) => stringified(v),
        None => default,
    }
}

/// The member `key` of `row` as text, or `fallback` when the member is
/// missing, `null` or an empty string.
pub open spec fn member_or_fallback(row: JsonView, key: Seq<char>, fallback: Seq<char>) -> Seq<char> {
    match json_get(row, key) {
        Some(JsonView::Text(s)) => if s.len() > 0 {
            s
        } else {
            fallback
        },
        Some(JsonView::Null) => fallback,
        Some(v) => stringified(v),
        None => fallback,
    }
}

/// Whether a row applies to `symbol`: it does when it has no `symbols`
/// list or an empty one, and otherwise when the list holds `"*"` or an
/// entry that reads as `symbol` once both are upper-cased.
pub open spec fn applies_to(row: JsonView, symbol: Seq<char>) -> bool {
    match json_get(row, "symbols"@) {
        Some(JsonView::Array(list)) => list.len() == 0 || exists|i: int|
            0 <= i < list.len() && (list[i] == JsonView::Text("*"@) || unicode_uppercase(stringified(list[i]))
                == unicode_uppercase(symbol)),
        _ => true,
    }
}

/// Whether the digits of the number written `t`, from index `i` up to its
/// exponent, are all zero.
pub open spec fn zero_digits_from(t: Seq<char>, i: int) -> bool
    decreases t.len() - i,
{
    if i < 0 || i >= t.len() || t[i] == 'e' || t[i] == 'E' {
        true
    } else if '1' <= t[i] <= '9' {
        false
    } else {
        zero_digits_from(t, i + 1)
    }
}

/// Whether a row's text must be treated as untrusted: an explicit boolean
/// decides, a number decides by being non-zero, and anything else
/// (missing and `null` included) counts as untrusted.
pub open spec fn untrusted_text_of(row: JsonView) -> bool {
    match json_get(row, "untrusted_text"@) {
        Some(JsonView::Bool(b)) => b,
        Some(JsonView::Number(t)) => !zero_digits_from(t, 0),
        _ => true,
    }
}

/// An evidence item read from a row.
pub struct EvidenceRecord {
    pub evidence_id: String,
    pub kind: String,
    pub title: String,
    pub timestamp: String,
    pub source: String,
    pub value: Json,
    pub text: String,
    /// The row's `quality` as written, when it is a number. The caller
    /// reads it as a fraction clamped to `[0, 1]`, one half when absent.
    pub quality: Option<String>,
    pub untrusted_text: bool,
}

/// An evidence item as mathematical values.
pub struct RecordView {
    pub evidence_id: Seq<char>,
    pub kind: Seq<char>,
    pub title: Seq<char>,
    pub timestamp: Seq<char>,
    pub source: Seq<char>,
    pub value: JsonView,
    pub text: Seq<char>,
    pub quality: Option<Seq<char>>,
    pub untrusted_text: bool,
}

impl View for EvidenceRecord {
    type V = RecordView;

    open spec fn view(&self) -> RecordView {
        RecordView {
            evidence_id: self.evidence_id@,
            kind: self.kind@,
            title: self.title@,
            timestamp: self.timestamp@,
            source: self.source@,
            value: self.value@,
            text: self.text@,
            quality: match self.quality {
                Some(q) => Some(q@),
                None => None,
            },
            untrusted_text: self.untrusted_text,
        }
    }
}

/// The item read from the row at `index` of a file named `file_name`, at
/// time `now`: missing ids become `file-<index>`, missing times `now`;
/// the title is cut to 240 characters, the source to 120 and the text to
/// 5000.
pub open spec fn record_of(row: JsonView, index: nat, file_name: Seq<char>, now: Seq<char>) -> RecordView {
    RecordView {
        evidence_id: member_or_fallback(row, "evidence_id"@, "file-"@ + nat_text(index)),
        kind: member_or(row, "kind"@, "external"@),
        title: take_chars(member_or(row, "title"@, "Untitled evidence"@), 240),
        timestamp: member_or_fallback(row, "timestamp"@, now),
        source: take_chars(member_or(row, "source"@, "file:"@ + file_name), 120),
        value: match json_get(row, "value"@) {
            Some(v) => v,
            None => JsonView::Null,
        },
        text: take_chars(member_or(row, "text"@, ""@), 5000),
        quality: match json_get(row, "quality"@) {
            Some(JsonView::Number(t)) => Some(t),
            _ => None,
        },
        untrusted_text: untrusted_text_of(row),
    }
}

/// The rows of an evidence file: the `evidence` array of an object, or a
/// bare array; none otherwise.
pub open spec fn evidence_rows(payload: JsonView) -> Seq<JsonView> {
    match payload {
        JsonView::Object(_) => match json_get(payload, "evidence"@) {
            Some(JsonView::Array(rows)) => rows,
            _ => Seq::empty(),
        },
        JsonView::Array(rows) => rows,
        _ => Seq::empty(),
    }
}

/// The items read from the first `n` rows: each row that is an object and
/// applies to `symbol`, in order.
pub open spec fn records_upto(rows: Seq<JsonView>, n: int, symbol: Seq<char>, file_name: Seq<char>, now: Seq<char>) -> Seq<
    RecordView,
>
    decreases n,
{
    if n <= 0 {
        Seq::empty()
    } else {
        let earlier = records_upto(rows, n - 1, symbol, file_name, now);
        let row = rows[n - 1];
        if row is Object && applies_to(row, symbol) {
            earlier.push(record_of(row, (n - 1) as nat, file_name, now))
        } else {
            earlier
        }
    }
}

/// The items that an evidence file with this payload gives for `symbol`.
pub open spec fn evidence_for(payload: JsonView, symbol: Seq<char>, file_name: Seq<char>, now: Seq<char>) -> Seq<RecordView> {
    records_upto(evidence_rows(payload), evidence_rows(payload).len() as int, symbol, file_name, now)
}

/// Every evidence item read from a file has a title of at most 240
/// characters, a source of at most 120 and a text of at most 5000, and
/// there are never more items than rows.
pub proof fn law_evidence_fields_are_bounded(payload: JsonView, symbol: Seq<char>, file_name: Seq<char>, now: Seq<char>)
    ensures
        evidence_for(payload, symbol, file_name, now).len() <= evidence_rows(payload).len(),
        forall|k: int|
            0 <= k < evidence_for(payload, symbol, file_name, now).len() ==> {
                let r = #[trigger] evidence_for(payload, symbol, file_name, now)[k];
                r.title.len() <= 240 && r.source.len() <= 120 && r.text.len() <= 5000
            },
{
    let rows = evidence_rows(payload);
    lemma_records_bounded(rows, rows.len() as int, symbol, file_name, now);
}

proof fn lemma_records_bounded(rows: Seq<JsonView>, n: int, symbol: Seq<char>, file_name: Seq<char>, now: Seq<char>)
    requires
        0 <= n,
    ensures
        records_upto(rows, n, symbol, file_name, now).len() <= n,
        forall|k: int|
            0 <= k < records_upto(rows, n, symbol, file_name, now).len() ==> {
                let r = #[trigger] records_upto(rows, n, symbol, file_name, now)[k];
                r.title.len() <= 240 && r.source.len() <= 120 && r.text.len() <= 5000
            },
    decreases n,
{
    if n > 0 {
        lemma_records_bounded(rows, n - 1, symbol, file_name, now);
    }
}

/// Whether `r` is read from `row` at time `now`: its id, time and kind are
/// the row's own when it writes them as non-empty text (the time is `now`
/// when the row has none, or `null` or empty text), its value is the row's
/// `value`, and its quality the number the row writes, if any.
pub open spec fn read_from_row(row: JsonView, r: RecordView, now: Seq<char>) -> bool {
    &&& match json_get(row, "timestamp"@) {
        Some(JsonView::Text(t)) => if t.len() > 0 {
            r.timestamp == t
        } else {
            r.timestamp == now
        },
        Some(JsonView::Null) => r.timestamp == now,
        None => r.timestamp == now,
        _ => true,
    }
    &&& match json_get(row, "evidence_id"@) {
        Some(JsonView::Text(t)) => t.len() > 0 ==> r.evidence_id == t,
        _ => true,
    }
    &&& match json_get(row, "kind"@) {
        Some(JsonView::Text(t)) => r.kind == t,
        _ => true,
    }
    &&& match json_get(row, "value"@) {
        Some(x) => r.value == x,
        None => r.value == JsonView::Null,
    }
    &&& match json_get(row, "quality"@) {
        Some(JsonView::Number(t)) => r.quality == Some(t),
        _ => r.quality is None,
    }
}

proof fn lemma_records_read_from_rows(rows: Seq<JsonView>, n: int, symbol: Seq<char>, file_name: Seq<char>, now: Seq<char>)
    requires
        0 <= n <= rows.len(),
    ensures
        forall|k: int|
            0 <= k < records_upto(rows, n, symbol, file_name, now).len() ==> exists|j: int|
                0 <= j < n && rows[j] is Object && read_from_row(
                    rows[j],
                    #[trigger] records_upto(rows, n, symbol, file_name, now)[k],
                    now,
                ),
    decreases n,
{
    if n > 0 {
        lemma_records_read_from_rows(rows, n - 1, symbol, file_name, now);
        let earlier = records_upto(rows, n - 1, symbol, file_name, now);
        let recs = records_upto(rows, n, symbol, file_name, now);
        assert forall|k: int| 0 <= k < recs.len() implies exists|j: int|
            0 <= j < n && rows[j] is Object && read_from_row(rows[j], #[trigger] recs[k], now) by {
            if k < earlier.len() {
                assert(recs[k] == earlier[k]);
                let j = choose|j: int| 0 <= j < n - 1 && rows[j] is Object && read_from_row(rows[j], earlier[k], now);
                assert(0 <= j < n && rows[j] is Object && read_from_row(rows[j], recs[k], now));
            } else {
                assert(recs[k] == record_of(rows[n - 1], (n - 1) as nat, file_name, now));
                assert(read_from_row(rows[n - 1], recs[k], now));
            }
        }
    }
}

/// Every evidence item read from a file is read from one of its rows, an
/// object: the row's own id, time and kind when it writes them (the time
/// is `now` only when the row has none, or `null` or empty text), the
/// row's value, and the quality it writes.
pub proof fn law_records_are_read_from_their_rows(
    payload: JsonView,
    symbol: Seq<char>,
    file_name: Seq<char>,
    now: Seq<char>,
)
    ensures
        forall|k: int|
            0 <= k < evidence_for(payload, symbol, file_name, now).len() ==> exists|j: int|
                0 <= j < evidence_rows(payload).len() && evidence_rows(payload)[j] is Object && read_from_row(
                    evidence_rows(payload)[j],
                    #[trigger] evidence_for(payload, symbol, file_name, now)[k],
                    now,
                ),
{
    let rows = evidence_rows(payload);
    lemma_records_read_from_rows(rows, rows.len() as int, symbol, file_name, now);
}

/// The views of `records`.
pub open spec fn records_view(records: Seq<EvidenceRecord>) -> Seq<RecordView> {
    records.map_values(|r: EvidenceRecord| r@)
}

fn stringify(v: &Json) -> (r: String)
    ensures
        r@ == stringified(v@),
{
    match v {
        Json::Text(s) => s.clone(),
        Json::Null => String::new(),
        _ => to_json_text(v),
    }
}

fn get_or_default(row: &Json, key: &str, default: &str) -> (r: String)
    ensures
        r@ == member_or(row@, key@, default@),
{
    match row.get(key) {
        Some(v) => stringify(v),
        None => default.to_owned(),
    }
}

fn get_or_fallback(row: &Json, key: &str, fallback: &str) -> (r: String)
    ensures
        r@ == member_or_fallback(row@, key@, fallback@),
{
    match row.get(key) {
        Some(Json::Text(s)) => if !s.as_str().is_empty() {
            s.clone()
        } else {
            fallback.to_owned()
        },
        Some(Json::Null) => fallback.to_owned(),
        Some(v) => stringify(v),
        None => fallback.to_owned(),
    }
}

/// Whether a row applies to `symbol` (see [`applies_to`]).
pub fn row_applies_to_symbol(row: &Json, symbol: &str) -> (r: bool)
    ensures
        r == applies_to(row@, symbol@),
{
    let list = match row.get("symbols") {
        Some(Json::Array(list)) => list,
        _ => return true,
    };
    if list.len() == 0 {
        return true;
    }
    let ghost lv = items_view(list@);
    proof {
        lemma_items_view(list@);
    }
    let wanted = to_uppercase(symbol);
    let wanted_chars = chars_of(wanted.as_str());
    let star = chars_of("*");
    let mut i: usize = 0;
    while i < list.len()
        invariant
            json_get(row@, "symbols"@) == Some(JsonView::Array(lv)),
            lv == items_view(list@),
            lv.len() == list@.len(),
            forall|j: int| 0 <= j < list@.len() ==> #[trigger] lv[j] == json_view(list@[j]),
            wanted_chars@ == unicode_uppercase(symbol@),
            star@ == "*"@,
            i <= list@.len(),
            forall|j: int|
                0 <= j < i ==> !(lv[j] == JsonView::Text("*"@) || unicode_uppercase(stringified(lv[j]))
                    == unicode_uppercase(symbol@)),
        decreases list@.len() - i,
    {
        let item = &list[i];
        let is_star = match item {
            Json::Text(t) => chars_eq(&chars_of(t.as_str()), &star),
            _ => false,
        };
        let upper = to_uppercase(stringify(item).as_str());
        if is_star || chars_eq(&chars_of(upper.as_str()), &wanted_chars) {
            assert(lv[i as int] == list@[i as int]@);
            return true;
        }
        assert(lv[i as int] == list@[i as int]@);
        i = i + 1;
    }
    false
}

pub(crate) fn zero_digits(t: &str) -> (r: bool)
    ensures
        r == zero_digits_from(t@, 0),
{
    let c = chars_of(t);
    let mut i: usize = c.len();
    let mut zero = true;
    while i > 0
        invariant
            i <= c@.len(),
            c@ == t@,
            zero == zero_digits_from(t@, i as int),
        decreases i,
    {
        i = i - 1;
        let d = c[i];
        zero = if d == 'e' || d == 'E' {
            true
        } else if '1' <= d && d <= '9' {
            false
        } else {
            zero
        };
    }
    zero
}

fn untrusted_text(row: &Json) -> (r: bool)
    ensures
        r == untrusted_text_of(row@),
{
    match row.get("untrusted_text") {
        Some(Json::Bool(b)) => *b,
        Some(Json::Number(t)) => !zero_digits(t.as_str()),
        _ => true,
    }
}

fn record_from_row(row: &Json, index: usize, file_name: &str, now: &str) -> (r: EvidenceRecord)
    ensures
        r@ == record_of(row@, index as nat, file_name@, now@),
{
    let index_text = nat_to_text(index as u64);
    let id_fallback = concat("file-", index_text.as_str());
    let source_default = concat("file:", file_name);
    EvidenceRecord {
        evidence_id: get_or_fallback(row, "evidence_id", id_fallback.as_str()),
        kind: get_or_default(row, "kind", "external"),
        title: truncate_chars(get_or_default(row, "title", "Untitled evidence").as_str(), 240),
        timestamp: get_or_fallback(row, "timestamp", now),
        source: truncate_chars(get_or_default(row, "source", source_default.as_str()).as_str(), 120),
        value: match row.get("value") {
            Some(v) => v.deep_copy(),
            None => Json::Null,
        },
        text: truncate_chars(get_or_default(row, "text", "").as_str(), 5000),
        quality: match row.get("quality") {
            Some(Json::Number(t)) => Some(t.clone()),
            _ => None,
        },
        untrusted_text: untrusted_text(row),
    }
}

/// The evidence items that an evidence file gives for `symbol`, from its
/// parsed `payload`: the rows of its `evidence` array (or of a bare
/// array) that are objects and apply to the symbol, each read with its
/// defaults. `file_name` names the file in default sources, and `now` is
/// the time given to rows without one. A payload of another shape gives
/// nothing.
pub fn evidence_from_payload(payload: &Json, symbol: &str, file_name: &str, now: &str) -> (r: Vec<EvidenceRecord>)
    ensures
        records_view(r@) == evidence_for(payload@, symbol@, file_name@, now@),
{
    let rows: &Vec<Json> = match payload {
        Json::Object(_) => match payload.get("evidence") {
            Some(Json::Array(rows)) => rows,
            _ => {
                let r: Vec<EvidenceRecord> = Vec::new();
                assert(records_view(r@) =~= Seq::<RecordView>::empty());
                return r;
            },
        },
        Json::Array(rows) => rows,
        _ => {
            let r: Vec<EvidenceRecord> = Vec::new();
            assert(records_view(r@) =~= Seq::<RecordView>::empty());
            return r;
        },
    };
    let ghost rv = items_view(rows@);
    proof {
        lemma_items_view(rows@);
    }
    assert(rv == evidence_rows(payload@));
    let mut out: Vec<EvidenceRecord> = Vec::new();
    let mut i: usize = 0;
    while i < rows.len()
        invariant
            rv == items_view(rows@),
            rv.len() == rows@.len(),
            forall|j: int| 0 <= j < rows@.len() ==> #[trigger] rv[j] == json_view(rows@[j]),
            i <= rows@.len(),
            records_view(out@) == records_upto(rv, i as int, symbol@, file_name@, now@),
        decreases rows@.len() - i,
    {
        let row = &rows[i];
        assert(rv[i as int] == row@);
        if row.is_object() && row_applies_to_symbol(row, symbol) {
            let rec = record_from_row(row, i, file_name, now);
            let ghost before = out@;
            out.push(rec);
            proof {
                assert(records_view(out@) =~= records_view(before).push(rec@));
            }
        }
        i = i + 1;
    }
    out
}

/// The evidence items that an evidence file with the text `text` gives for
/// `symbol` (see [`evidence_from_payload`]); none when the text is not
/// JSON.
pub fn evidence_from_text(text: &str, symbol: &str, file_name: &str, now: &str) -> (r: Vec<EvidenceRecord>)
    ensures
        match json_of_text(text@) {
            Some(p) => records_view(r@) == evidence_for(p, symbol@, file_name@, now@),
            None => r@.len() == 0,
        },
{
    match parse_json_text(text) {
        Ok(payload) => evidence_from_payload(&payload, symbol, file_name, now),
        Err(_) => Vec::new(),
    }
}

// ---------------------------------------------------------------------------
// Summaries of evidence
// ---------------------------------------------------------------------------

/// The numeric evidence of the first `n` items: for each item whose value
/// is a number, its title's feature key mapped to that number; a later
/// item overwrites an earlier one with the same key. Keys are kept in
/// order.
pub open spec fn numeric_upto(items: Seq<RecordView>, n: int) -> Seq<(Seq<char>, JsonView)>
    decreases n,
{
    if n <= 0 {
        Seq::empty()
    } else {
        let earlier = numeric_upto(items, n - 1);
        match items[n - 1].value {
            JsonView::Number(t) => with_member(earlier, feature_key(items[n - 1].title), JsonView::Number(t)),
            _ => earlier,
        }
    }
}

/// Whether some item is an `event` whose value is exactly `true`.
pub open spec fn has_event_risk(items: Seq<RecordView>) -> bool {
    exists|i: int| 0 <= i < items.len() && items[i].kind == "event"@ && items[i].value == JsonView::Bool(true)
}

/// What a set of evidence items says to the feature builder.
pub struct EvidenceSummary {
    /// Feature key to number (as written), in key order.
    pub numeric: Vec<(String, Json)>,
    /// Whether an `event` item with the value `true` is present.
    pub event_risk: bool,
}

/// Summarises evidence items: their numeric values by feature key (see
/// [`numeric_upto`]) and whether any signals an event.
pub fn summarize(items: &Vec<EvidenceRecord>) -> (r: EvidenceSummary)
    ensures
        pairs_view(r.numeric@) == numeric_upto(records_view(items@), items@.len() as int),
        r.event_risk == has_event_risk(records_view(items@)),
{
    let ghost iv = records_view(items@);
    let mut numeric: Vec<(String, Json)> = Vec::new();
    let mut event_risk = false;
    let event = chars_of("event");
    let mut i: usize = 0;
    while i < items.len()
        invariant
            iv == records_view(items@),
            iv.len() == items@.len(),
            i <= items@.len(),
            event@ == "event"@,
            pairs_view(numeric@) == numeric_upto(iv, i as int),
            event_risk == exists|j: int|
                0 <= j < i && iv[j].kind == "event"@ && iv[j].value == JsonView::Bool(true),
        decreases items@.len() - i,
    {
        let item = &items[i];
        assert(iv[i as int] == item@);
        let is_event = chars_eq(&chars_of(item.kind.as_str()), &event);
        let is_true = match &item.value {
            Json::Bool(b) => *b,
            _ => false,
        };
        if is_event && is_true {
            event_risk = true;
        }
        match &item.value {
            Json::Number(t) => {
                let key = evidence_feature_key(item.title.as_str());
                set_member(&mut numeric, key.as_str(), Json::Number(t.clone()));
            },
            _ => {},
        }
        i = i + 1;
    }
    EvidenceSummary { numeric, event_risk }
}

/// The numeric evidence of any items is in key order, and every number in
/// it is the value of the last item with that feature key.
pub proof fn law_numeric_evidence_is_keyed_in_order(items: Seq<RecordView>, n: int)
    requires
        0 <= n <= items.len(),
    ensures
        keys_sorted(numeric_upto(items, n)),
        n > 0 ==> (items[n - 1].value matches JsonView::Number(t) ==> json_get(
            JsonView::Object(numeric_upto(items, n)),
            feature_key(items[n - 1].title),
        ) == Some(JsonView::Number(t))),
    decreases n,
{
    if n > 0 {
        law_numeric_evidence_is_keyed_in_order(items, n - 1);
        let earlier = numeric_upto(items, n - 1);
        if let JsonView::Number(t) = items[n - 1].value {
            law_set_member_keeps_key_order(earlier, feature_key(items[n - 1].title), JsonView::Number(t));
        }
    }
}

} // verus!
