//! A JSON value held as plain data, for the configuration tree and the
//! JSON-RPC messages: objects keep their key/value pairs in a vector, and
//! numbers keep the text they were written with. Parsing and printing
//! JSON text is left to the caller.

use vstd::prelude::*;
use crate::num::parse_i64_spec;
use crate::text::{chars_eq, chars_of, copy_range};

verus! {

/// A JSON value.
#[derive(Debug, PartialEq)]
pub enum Json {
    Null,
    Bool(bool),
    /// A number, as its JSON text.
    Number(String),
    Text(String),
    Array(Vec<Json>),
    /// The members of an object, in order.
    Object(Vec<(String, Json)>),
}

/// A JSON value as a mathematical value.
pub enum JsonView {
    Null,
    Bool(bool),
    Number(Seq<char>),
    Text(Seq<char>),
    Array(Seq<JsonView>),
    Object(Seq<(Seq<char>, JsonView)>),
}

/// The mathematical value of `j`.
pub open spec fn json_view(j: Json) -> JsonView
    decreases j,
{
    match j {
        Json::Null => JsonView::Null,
        Json::Bool(b) => JsonView::Bool(b),
        Json::Number(n) => JsonView::Number(n@),
        Json::Text(t) => JsonView::Text(t@),
        Json::Array(items) => JsonView::Array(items_view(items@)),
        Json::Object(pairs) => JsonView::Object(pairs_view(pairs@)),
    }
}

/// The mathematical values of the elements of an array.
pub open spec fn items_view(s: Seq<Json>) -> Seq<JsonView>
    decreases s,
{
    if s.len() == 0 {
        Seq::empty()
    } else {
        seq![json_view(s[0])] + items_view(s.subrange(1, s.len() as int))
    }
}

/// The mathematical values of the members of an object.
pub open spec fn pairs_view(s: Seq<(String, Json)>) -> Seq<(Seq<char>, JsonView)>
    decreases s,
{
    if s.len() == 0 {
        Seq::empty()
    } else {
        seq![(s[0].0@, json_view(s[0].1))] + pairs_view(s.subrange(1, s.len() as int))
    }
}

impl View for Json {
    type V = JsonView;

    open spec fn view(&self) -> JsonView {
        json_view(*self)
    }
}

pub proof fn lemma_items_view(s: Seq<Json>)
    ensures
        items_view(s).len() == s.len(),
        forall|i: int| 0 <= i < s.len() ==> #[trigger] items_view(s)[i] == json_view(s[i]),
    decreases s.len(),
{
    if s.len() > 0 {
        let rest = s.subrange(1, s.len() as int);
        lemma_items_view(rest);
        assert forall|i: int| 0 <= i < s.len() implies #[trigger] items_view(s)[i] == json_view(s[i]) by {
            if i > 0 {
                assert(items_view(s)[i] == items_view(rest)[i - 1]);
                assert(rest[i - 1] == s[i]);
            }
        }
    }
}

pub proof fn lemma_pairs_view(s: Seq<(String, Json)>)
    ensures
        pairs_view(s).len() == s.len(),
        forall|i: int|
            0 <= i < s.len() ==> #[trigger] pairs_view(s)[i] == (s[i].0@, json_view(s[i].1)),
    decreases s.len(),
{
    if s.len() > 0 {
        let rest = s.subrange(1, s.len() as int);
        lemma_pairs_view(rest);
        assert forall|i: int| 0 <= i < s.len() implies #[trigger] pairs_view(s)[i] == (
            s[i].0@,
            json_view(s[i].1),
        ) by {
            if i > 0 {
                assert(pairs_view(s)[i] == pairs_view(rest)[i - 1]);
                assert(rest[i - 1] == s[i]);
            }
        }
    }
}

/// Two sequences of members with the same views element by element have
/// the same view.
pub proof fn lemma_pairs_view_ext(a: Seq<(String, Json)>, b: Seq<(Seq<char>, JsonView)>)
    requires
        a.len() == b.len(),
        forall|i: int| 0 <= i < a.len() ==> (a[i].0@, json_view(a[i].1)) == #[trigger] b[i],
    ensures
        pairs_view(a) == b,
{
    lemma_pairs_view(a);
    assert(pairs_view(a) =~= b);
}

pub proof fn lemma_items_view_ext(a: Seq<Json>, b: Seq<JsonView>)
    requires
        a.len() == b.len(),
        forall|i: int| 0 <= i < a.len() ==> json_view(a[i]) == #[trigger] b[i],
    ensures
        items_view(a) == b,
{
    lemma_items_view(a);
    assert(items_view(a) =~= b);
}

impl Json {
    /// A copy of this value.
    pub fn deep_copy(&self) -> (r: Json)
        ensures
            r@ == self@,
        decreases self,
    {
        match self {
            Json::Null => Json::Null,
            Json::Bool(b) => Json::Bool(*b),
            Json::Number(n) => Json::Number(n.clone()),
            Json::Text(t) => Json::Text(t.clone()),
            Json::Array(items) => {
                let mut out: Vec<Json> = Vec::new();
                let mut i: usize = 0;
                while i < items.len()
                    invariant
                        *self == Json::Array(*items),
                        i <= items@.len(),
                        out@.len() == i,
                        forall|j: int| 0 <= j < i ==> json_view(#[trigger] out@[j]) == json_view(items@[j]),
                    decreases items@.len() - i,
                {
                    proof {
                        assert(decreases_to!(*items => items@));
                        assert(decreases_to!(items@ => items@[i as int]));
                        assert(decreases_to!(*self => (*self)->Array_0));
                        assert((*self)->Array_0 == *items);
                        assert(decreases_to!(self => items@[i as int]));
                    }
                    let c = items[i].deep_copy();
                    out.push(c);
                    i = i + 1;
                }
                proof {
                    lemma_items_view(items@);
                    lemma_items_view_ext(out@, items_view(items@));
                }
                Json::Array(out)
            },
            Json::Object(pairs) => {
                let mut out: Vec<(String, Json)> = Vec::new();
                let mut i: usize = 0;
                while i < pairs.len()
                    invariant
                        *self == Json::Object(*pairs),
                        i <= pairs@.len(),
                        out@.len() == i,
                        forall|j: int|
                            0 <= j < i ==> (#[trigger] out@[j]).0@ == pairs@[j].0@ && json_view(out@[j].1)
                                == json_view(pairs@[j].1),
                    decreases pairs@.len() - i,
                {
                    proof {
                        assert(decreases_to!(*pairs => pairs@));
                        assert(decreases_to!(pairs@ => pairs@[i as int]));
                        assert(decreases_to!(pairs@[i as int] => pairs@[i as int].1));
                        assert(decreases_to!(*self => (*self)->Object_0));
                        assert((*self)->Object_0 == *pairs);
                        assert(decreases_to!(self => pairs@[i as int].1));
                    }
                    let c = pairs[i].1.deep_copy();
                    out.push((pairs[i].0.clone(), c));
                    i = i + 1;
                }
                proof {
                    lemma_pairs_view(pairs@);
                    lemma_pairs_view_ext(out@, pairs_view(pairs@));
                }
                Json::Object(out)
            },
        }
    }
}

// ---------------------------------------------------------------------------
// Building
// ---------------------------------------------------------------------------

/// The string value `s`.
pub fn text(s: &str) -> (r: Json)
    ensures
        r@ == JsonView::Text(s@),
{
    Json::Text(s.to_owned())
}

/// The number written `s`.
pub fn number(s: &str) -> (r: Json)
    ensures
        r@ == JsonView::Number(s@),
{
    Json::Number(s.to_owned())
}

/// Appends the member `key: value` to an object's members.
pub fn push_member(members: &mut Vec<(String, Json)>, key: &str, value: Json)
    ensures
        pairs_view(final(members)@) == pairs_view(old(members)@).push((key@, value@)),
{
    let ghost before = pairs_view(members@);
    proof {
        lemma_pairs_view(members@);
    }
    let ghost v = value@;
    members.push((key.to_owned(), value));
    proof {
        lemma_pairs_view_ext(members@, before.push((key@, v)));
    }
}

/// Appends `value` to an array's elements.
pub fn push_item(items: &mut Vec<Json>, value: Json)
    ensures
        items_view(final(items)@) == items_view(old(items)@).push(value@),
{
    let ghost before = items_view(items@);
    proof {
        lemma_items_view(items@);
    }
    let ghost v = value@;
    items.push(value);
    proof {
        lemma_items_view_ext(items@, before.push(v));
    }
}

// ---------------------------------------------------------------------------
// Reading
// ---------------------------------------------------------------------------

/// The first index at or after `i` of a member named `k`.
pub open spec fn key_index_from(pairs: Seq<(Seq<char>, JsonView)>, k: Seq<char>, i: int) -> Option<int>
    decreases pairs.len() - i,
{
    if i < 0 || i >= pairs.len() {
        None
    } else if pairs[i].0 == k {
        Some(i)
    } else {
        key_index_from(pairs, k, i + 1)
    }
}

/// The index of the first member named `k`.
pub open spec fn key_index(pairs: Seq<(Seq<char>, JsonView)>, k: Seq<char>) -> Option<int> {
    key_index_from(pairs, k, 0)
}

pub proof fn lemma_key_index_from(pairs: Seq<(Seq<char>, JsonView)>, k: Seq<char>, i: int)
    requires
        0 <= i,
    ensures
        key_index_from(pairs, k, i) matches Some(j) ==> i <= j < pairs.len() && pairs[j].0 == k
            && forall|m: int| i <= m < j ==> pairs[m].0 != k,
        key_index_from(pairs, k, i) is None ==> forall|j: int| i <= j < pairs.len() ==> pairs[j].0 != k,
    decreases pairs.len() - i,
{
    if 0 <= i < pairs.len() && pairs[i].0 != k {
        lemma_key_index_from(pairs, k, i + 1);
    }
}

/// The value of the member `k` of an object (`None` for a missing member
/// or a value that is not an object).
pub open spec fn json_get(v: JsonView, k: Seq<char>) -> Option<JsonView> {
    match v {
        JsonView::Object(ps) => match key_index(ps, k) {
            Some(i) => Some(ps[i].1),
            None => None,
        },
        _ => None,
    }
}

/// The index of the first member named `key`.
pub fn find_key_in(pairs: &Vec<(String, Json)>, key: &[char]) -> (r: Option<usize>)
    ensures
        match r {
            Some(j) => key_index(pairs_view(pairs@), key@) == Some(j as int) && j < pairs@.len(),
            None => key_index(pairs_view(pairs@), key@) is None,
        },
{
    let ghost pv = pairs_view(pairs@);
    proof {
        lemma_pairs_view(pairs@);
    }
    let n = pairs.len();
    let mut i: usize = 0;
    while i < n
        invariant
            n == pairs@.len(),
            pv == pairs_view(pairs@),
            pv.len() == n,
            forall|j: int| 0 <= j < n ==> #[trigger] pv[j] == (pairs@[j].0@, json_view(pairs@[j].1)),
            i <= n,
            key_index(pv, key@) == key_index_from(pv, key@, i as int),
        decreases n - i,
    {
        let name = chars_of(pairs[i].0.as_str());
        if chars_eq(&name, key) {
            assert(pv[i as int].0 == key@);
            return Some(i);
        }
        i = i + 1;
    }
    None
}

impl Json {
    /// Whether this value is an object.
    pub fn is_object(&self) -> (r: bool)
        ensures
            r == (self@ is Object),
    {
        match self {
            Json::Object(_) => true,
            _ => false,
        }
    }

    /// The value of the member `key`, when this is an object that has one
    /// (`serde_json::Value::get` with a string index).
    pub fn get(&self, key: &str) -> (r: Option<&Json>)
        ensures
            match r {
                Some(x) => json_get(self@, key@) == Some(x@),
                None => json_get(self@, key@) is None,
            },
    {
        match self {
            Json::Object(pairs) => {
                let k = chars_of(key);
                proof {
                    lemma_pairs_view(pairs@);
                }
                match find_key_in(pairs, &k) {
                    Some(j) => Some(&pairs[j].1),
                    None => None,
                }
            },
            _ => None,
        }
    }

    /// This value as an `i64`, when it is a number written as an integer
    /// in range.
    pub fn as_i64(&self) -> (r: Option<i64>)
        ensures
            match self@ {
                JsonView::Number(t) => match parse_i64_spec(t) {
                    Some(v) => r == Some(v as i64),
                    None => r is None,
                },
                _ => r is None,
            },
    {
        match self {
            Json::Number(t) => crate::num::parse_i64_str(t.as_str()),
            _ => None,
        }
    }

    /// This value as a string, when it is one.
    pub fn as_str(&self) -> (r: Option<&str>)
        ensures
            match self@ {
                JsonView::Text(t) => r matches Some(s) && s@ == t,
                _ => r is None,
            },
    {
        match self {
            Json::Text(t) => Some(t.as_str()),
            _ => None,
        }
    }

    /// This value as a boolean, when it is one.
    pub fn as_bool(&self) -> (r: Option<bool>)
        ensures
            match self@ {
                JsonView::Bool(b) => r == Some(b),
                _ => r is None,
            },
    {
        match self {
            Json::Bool(b) => Some(*b),
            _ => None,
        }
    }

    /// The elements of this value, when it is an array.
    pub fn as_array(&self) -> (r: Option<&Vec<Json>>)
        ensures
            match self@ {
                JsonView::Array(items) => r matches Some(v) && items_view(v@) == items,
                _ => r is None,
            },
    {
        match self {
            Json::Array(items) => Some(items),
            _ => None,
        }
    }
}

// ---------------------------------------------------------------------------
// Deep merge
// ---------------------------------------------------------------------------

/// `over` merged onto `base`. When both are objects, each member of
/// `over` in turn is merged recursively into the member of `base` with the
/// same name when both are objects, and otherwise replaces that member or
/// is added. An object `over` replaces a `base` that is not an object, and
/// an `over` that is not an object leaves `base` unchanged.
pub open spec fn merged(base: JsonView, over: JsonView) -> JsonView
    decreases over,
{
    match over {
        JsonView::Object(ops) => match base {
            JsonView::Object(bps) => JsonView::Object(merge_pairs(bps, ops)),
            _ => over,
        },
        _ => base,
    }
}

/// The members `bps` with each member of `ops` merged in, in order.
pub open spec fn merge_pairs(bps: Seq<(Seq<char>, JsonView)>, ops: Seq<(Seq<char>, JsonView)>) -> Seq<(Seq<char>, JsonView)>
    decreases ops,
{
    if ops.len() == 0 {
        bps
    } else {
        let k = ops[0].0;
        let ov = ops[0].1;
        let next = match key_index(bps, k) {
            Some(j) => if 0 <= j < bps.len() && bps[j].1 is Object && ov is Object {
                bps.update(j, (k, merged(bps[j].1, ov)))
            } else {
                bps.update(j, (k, ov))
            },
            None => bps.push((k, ov)),
        };
        merge_pairs(next, ops.subrange(1, ops.len() as int))
    }
}

/// Merges `over` onto `base` in place (see [`merged`]).
pub fn deep_merge(base: &mut Json, over: &Json)
    ensures
        final(base)@ == merged(old(base)@, over@),
    decreases over,
{
    match over {
        Json::Object(ops) => {
            if !base.is_object() {
                *base = over.deep_copy();
                return;
            }
            let mut taken = Json::Null;
            std::mem::swap(&mut taken, base);
            let mut bps: Vec<(String, Json)> = match taken {
                Json::Object(p) => p,
                _ => Vec::new(),
            };
            let ghost ov = pairs_view(ops@);
            let ghost start = pairs_view(bps@);
            assert(old(base)@ == JsonView::Object(start));
            proof {
                lemma_pairs_view(ops@);
                assert(ov.subrange(0, ov.len() as int) =~= ov);
            }
            let n = ops.len();
            let mut i: usize = 0;
            while i < n
                invariant
                    *over == Json::Object(*ops),
                    n == ops@.len(),
                    ov == pairs_view(ops@),
                    ov.len() == n,
                    forall|j: int| 0 <= j < n ==> #[trigger] ov[j] == (ops@[j].0@, json_view(ops@[j].1)),
                    i <= n,
                    merge_pairs(start, ov) == merge_pairs(pairs_view(bps@), ov.subrange(i as int, n as int)),
                decreases n - i,
            {
                let ghost cur = pairs_view(bps@);
                let ghost rest = ov.subrange(i as int, n as int);
                assert(rest[0] == ov[i as int]);
                assert(rest.subrange(1, rest.len() as int) =~= ov.subrange(i + 1, n as int));
                proof {
                    lemma_pairs_view(bps@);
                }
                let kc = chars_of(ops[i].0.as_str());
                match find_key_in(&bps, &kc) {
                    Some(j) => {
                        proof {
                            lemma_key_index_from(cur, kc@, 0);
                        }
                        let ghost before = bps@;
                        let (kk, bv) = bps.remove(j);
                        let both = bv.is_object() && ops[i].1.is_object();
                        let nv = if both {
                            let mut b2 = bv;
                            proof {
                                assert(decreases_to!(*ops => ops@));
                                assert(decreases_to!(ops@ => ops@[i as int]));
                                assert(decreases_to!(ops@[i as int] => ops@[i as int].1));
                                assert(decreases_to!(*over => (*over)->Object_0));
                            }
                            deep_merge(&mut b2, &ops[i].1);
                            b2
                        } else {
                            ops[i].1.deep_copy()
                        };
                        let ghost newv = json_view(nv);
                        bps.insert(j, (kk, nv));
                        proof {
                            assert(bps@ =~= before.update(j as int, bps@[j as int]));
                            lemma_pairs_view_ext(bps@, cur.update(j as int, (ov[i as int].0, newv)));
                        }
                    },
                    None => {
                        let kk = ops[i].0.clone();
                        let nv = ops[i].1.deep_copy();
                        bps.push((kk, nv));
                        proof {
                            lemma_pairs_view_ext(bps@, cur.push(ov[i as int]));
                        }
                    },
                }
                i = i + 1;
            }
            *base = Json::Object(bps);
        },
        _ => {},
    }
}

/// The member names of an object are distinct.
pub open spec fn unique_keys(ps: Seq<(Seq<char>, JsonView)>) -> bool {
    forall|i: int, j: int| 0 <= i < j < ps.len() ==> ps[i].0 != ps[j].0
}

proof fn lemma_merge_keeps_other_member(bps: Seq<(Seq<char>, JsonView)>, ops: Seq<(Seq<char>, JsonView)>, k: Seq<char>)
    requires
        forall|m: int| 0 <= m < ops.len() ==> ops[m].0 != k,
    ensures
        key_index(merge_pairs(bps, ops), k) == key_index(bps, k),
        key_index(bps, k) matches Some(j) ==> merge_pairs(bps, ops)[j] == bps[j],
    decreases ops.len(),
{
    if ops.len() > 0 {
        let k0 = ops[0].0;
        let ov = ops[0].1;
        lemma_key_index_from(bps, k0, 0);
        lemma_key_index_from(bps, k, 0);
        let next = match key_index(bps, k0) {
            Some(j) => if 0 <= j < bps.len() && bps[j].1 is Object && ov is Object {
                bps.update(j, (k0, merged(bps[j].1, ov)))
            } else {
                bps.update(j, (k0, ov))
            },
            None => bps.push((k0, ov)),
        };
        assert(next.len() >= bps.len());
        assert(forall|m: int| 0 <= m < bps.len() && bps[m].0 != k0 ==> next[m] == bps[m]);
        assert(forall|m: int| 0 <= m < next.len() ==> (next[m].0 == k <==> (m < bps.len() && bps[m].0 == k)));
        lemma_key_index_same(bps, next, k, 0);
        let rest = ops.subrange(1, ops.len() as int);
        assert forall|m: int| 0 <= m < rest.len() implies rest[m].0 != k by {
            assert(rest[m] == ops[m + 1]);
        }
        lemma_merge_keeps_other_member(next, rest, k);
    }
}

proof fn lemma_key_index_same(a: Seq<(Seq<char>, JsonView)>, b: Seq<(Seq<char>, JsonView)>, k: Seq<char>, i: int)
    requires
        0 <= i,
        a.len() <= b.len(),
        forall|m: int| 0 <= m < b.len() ==> (b[m].0 == k <==> (m < a.len() && a[m].0 == k)),
    ensures
        key_index_from(b, k, i) == key_index_from(a, k, i),
    decreases b.len() - i,
{
    if i < b.len() {
        lemma_key_index_same(a, b, k, i + 1);
    }
}

/// A member of `over` whose value is not an object ends up in the merge
/// with exactly that value, whatever `base` held under that name (when
/// both are objects and `over`'s member names are distinct).
pub proof fn law_merge_override_wins(base: JsonView, over: JsonView, k: Seq<char>)
    requires
        base is Object,
        over is Object,
        unique_keys(over->Object_0),
        json_get(over, k) matches Some(v) && !(v is Object),
    ensures
        json_get(merged(base, over), k) == json_get(over, k),
{
    let bps = base->Object_0;
    let ops = over->Object_0;
    lemma_key_index_from(ops, k, 0);
    let m = key_index(ops, k)->Some_0;
    lemma_merge_override_at(bps, ops, k, m);
}

proof fn lemma_merge_override_at(bps: Seq<(Seq<char>, JsonView)>, ops: Seq<(Seq<char>, JsonView)>, k: Seq<char>, m: int)
    requires
        unique_keys(ops),
        0 <= m < ops.len(),
        ops[m].0 == k,
        !(ops[m].1 is Object),
    ensures
        key_index(merge_pairs(bps, ops), k) matches Some(j) && merge_pairs(bps, ops)[j].1 == ops[m].1,
    decreases ops.len(),
{
    let k0 = ops[0].0;
    let ov = ops[0].1;
    lemma_key_index_from(bps, k0, 0);
    let next = match key_index(bps, k0) {
        Some(j) => if 0 <= j < bps.len() && bps[j].1 is Object && ov is Object {
            bps.update(j, (k0, merged(bps[j].1, ov)))
        } else {
            bps.update(j, (k0, ov))
        },
        None => bps.push((k0, ov)),
    };
    let rest = ops.subrange(1, ops.len() as int);
    assert(merge_pairs(bps, ops) == merge_pairs(next, rest));
    if m == 0 {
        assert forall|q: int| 0 <= q < rest.len() implies rest[q].0 != k by {
            assert(rest[q] == ops[q + 1]);
        }
        lemma_merge_keeps_other_member(next, rest, k);
        match key_index(bps, k0) {
            Some(j) => {
                assert(next[j] == (k, ov));
                assert(forall|q: int| 0 <= q < next.len() ==> (next[q].0 == k <==> (q < bps.len() && bps[q].0 == k)));
                lemma_key_index_same(bps, next, k, 0);
            },
            None => {
                let pushed = bps.push((k0, ov));
                assert(forall|q: int| 0 <= q < bps.len() ==> pushed[q].0 != k);
                lemma_key_index_first(pushed, k, bps.len() as int, 0);
            },
        }
    } else {
        assert(rest[m - 1] == ops[m]);
        assert(unique_keys(rest)) by {
            assert forall|a: int, b: int| 0 <= a < b < rest.len() implies rest[a].0 != rest[b].0 by {
                assert(rest[a] == ops[a + 1]);
                assert(rest[b] == ops[b + 1]);
            }
        }
        lemma_merge_override_at(next, rest, k, m - 1);
    }
}

proof fn lemma_key_index_first(ps: Seq<(Seq<char>, JsonView)>, k: Seq<char>, j: int, i: int)
    requires
        0 <= i <= j < ps.len(),
        ps[j].0 == k,
        forall|q: int| i <= q < j ==> ps[q].0 != k,
    ensures
        key_index_from(ps, k, i) == Some(j),
    decreases j - i,
{
    if i < j {
        lemma_key_index_first(ps, k, j, i + 1);
    }
}

/// Merging an empty object changes nothing, and a value that is not an
/// object is never merged into anything.
pub proof fn law_merge_identities(base: JsonView, over: JsonView)
    ensures
        base is Object ==> merged(base, JsonView::Object(Seq::empty())) == base,
        !(over is Object) ==> merged(base, over) == base,
{
    if base is Object {
        assert(merge_pairs(base->Object_0, Seq::empty()) == base->Object_0);
    }
}

/// A member of `base` that `over` does not name is kept as it was (when
/// both are objects).
pub proof fn law_merge_keeps_unmentioned_members(base: JsonView, over: JsonView, k: Seq<char>)
    requires
        base is Object,
        over is Object,
        forall|m: int| 0 <= m < over->Object_0.len() ==> over->Object_0[m].0 != k,
    ensures
        json_get(merged(base, over), k) == json_get(base, k),
{
    lemma_merge_keeps_other_member(base->Object_0, over->Object_0, k);
    lemma_key_index_from(base->Object_0, k, 0);
}

proof fn lemma_merge_recursive_at(bps: Seq<(Seq<char>, JsonView)>, ops: Seq<(Seq<char>, JsonView)>, k: Seq<char>, m: int)
    requires
        unique_keys(ops),
        0 <= m < ops.len(),
        ops[m].0 == k,
        ops[m].1 is Object,
        key_index(bps, k) matches Some(j) && bps[j].1 is Object,
        forall|q: int| 0 <= q < m ==> ops[q].0 != k,
    ensures
        key_index(merge_pairs(bps, ops), k) matches Some(j) && merge_pairs(bps, ops)[j].1 == merged(
            bps[key_index(bps, k)->Some_0].1,
            ops[m].1,
        ),
    decreases ops.len(),
{
    let k0 = ops[0].0;
    let ov = ops[0].1;
    lemma_key_index_from(bps, k0, 0);
    lemma_key_index_from(bps, k, 0);
    let next = match key_index(bps, k0) {
        Some(j) => if 0 <= j < bps.len() && bps[j].1 is Object && ov is Object {
            bps.update(j, (k0, merged(bps[j].1, ov)))
        } else {
            bps.update(j, (k0, ov))
        },
        None => bps.push((k0, ov)),
    };
    let rest = ops.subrange(1, ops.len() as int);
    assert(merge_pairs(bps, ops) == merge_pairs(next, rest));
    let jk = key_index(bps, k)->Some_0;
    if m == 0 {
        assert forall|q: int| 0 <= q < rest.len() implies rest[q].0 != k by {
            assert(rest[q] == ops[q + 1]);
        }
        assert(next[jk] == (k, merged(bps[jk].1, ov)));
        assert(forall|q: int| 0 <= q < next.len() ==> (next[q].0 == k <==> (q < bps.len() && bps[q].0 == k)));
        lemma_key_index_same(bps, next, k, 0);
        lemma_merge_keeps_other_member(next, rest, k);
    } else {
        assert(k0 != k);
        assert(forall|q: int| 0 <= q < next.len() ==> (next[q].0 == k <==> (q < bps.len() && bps[q].0 == k)));
        lemma_key_index_same(bps, next, k, 0);
        assert(next[jk] == bps[jk]);
        assert(rest[m - 1] == ops[m]);
        assert(unique_keys(rest)) by {
            assert forall|a: int, b: int| 0 <= a < b < rest.len() implies rest[a].0 != rest[b].0 by {
                assert(rest[a] == ops[a + 1]);
                assert(rest[b] == ops[b + 1]);
            }
        }
        assert forall|q: int| 0 <= q < m - 1 implies rest[q].0 != k by {
            assert(rest[q] == ops[q + 1]);
        }
        lemma_merge_recursive_at(next, rest, k, m - 1);
    }
}

/// A member that is an object on both sides is merged recursively: the
/// merge holds, under that name, the merge of the two members (when both
/// are objects and `over`'s member names are distinct).
pub proof fn law_merge_is_recursive_on_objects(base: JsonView, over: JsonView, k: Seq<char>)
    requires
        base is Object,
        over is Object,
        unique_keys(over->Object_0),
        json_get(base, k) matches Some(b) && b is Object,
        json_get(over, k) matches Some(o) && o is Object,
    ensures
        json_get(merged(base, over), k) == Some(merged(json_get(base, k)->Some_0, json_get(over, k)->Some_0)),
{
    let ops = over->Object_0;
    lemma_key_index_from(ops, k, 0);
    let m = key_index(ops, k)->Some_0;
    lemma_merge_recursive_at(base->Object_0, ops, k, m);
}

// ---------------------------------------------------------------------------
// Members kept in key order
// ---------------------------------------------------------------------------

/// Whether the name `a` sorts before `b`: code point by code point, a
/// proper prefix first. (This is the order of their UTF-8 bytes, the order
/// in which `serde_json` keeps and prints object members.)
pub open spec fn key_less(a: Seq<char>, b: Seq<char>) -> bool
    decreases a.len(),
{
    if a.len() == 0 {
        b.len() > 0
    } else if b.len() == 0 {
        false
    } else if a[0] != b[0] {
        (a[0] as int) < (b[0] as int)
    } else {
        key_less(a.subrange(1, a.len() as int), b.subrange(1, b.len() as int))
    }
}

/// The members are in strictly increasing key order.
pub open spec fn keys_sorted(ps: Seq<(Seq<char>, JsonView)>) -> bool {
    forall|i: int, j: int| 0 <= i < j < ps.len() ==> key_less(ps[i].0, ps[j].0)
}

/// The first index from `i` whose key sorts after `k` (the end when none
/// does).
pub open spec fn insertion_from(ps: Seq<(Seq<char>, JsonView)>, k: Seq<char>, i: int) -> int
    decreases ps.len() - i,
{
    if i < 0 || i >= ps.len() {
        ps.len() as int
    } else if key_less(k, ps[i].0) {
        i
    } else {
        insertion_from(ps, k, i + 1)
    }
}

/// The members with `k` set to `v`: the member named `k` is replaced in
/// place, or a new member is inserted before the first key that sorts
/// after `k`.
pub open spec fn with_member(ps: Seq<(Seq<char>, JsonView)>, k: Seq<char>, v: JsonView) -> Seq<(Seq<char>, JsonView)> {
    match key_index(ps, k) {
        Some(i) => ps.update(i, (k, v)),
        None => ps.insert(insertion_from(ps, k, 0), (k, v)),
    }
}

fn key_less_exec(a: &[char], b: &[char]) -> (r: bool)
    ensures
        r == key_less(a@, b@),
{
    let mut i: usize = 0;
    assert(a@.subrange(0, a@.len() as int) =~= a@);
    assert(b@.subrange(0, b@.len() as int) =~= b@);
    while i < a.len() && i < b.len() && a[i] == b[i]
        invariant
            i <= a@.len(),
            i <= b@.len(),
            key_less(a@, b@) == key_less(a@.subrange(i as int, a@.len() as int), b@.subrange(i as int, b@.len() as int)),
        decreases a@.len() - i,
    {
        proof {
            let sa = a@.subrange(i as int, a@.len() as int);
            let sb = b@.subrange(i as int, b@.len() as int);
            assert(sa.subrange(1, sa.len() as int) =~= a@.subrange(i + 1, a@.len() as int));
            assert(sb.subrange(1, sb.len() as int) =~= b@.subrange(i + 1, b@.len() as int));
        }
        i = i + 1;
    }
    if i == a.len() {
        i < b.len()
    } else if i == b.len() {
        false
    } else {
        a[i] < b[i]
    }
}

proof fn lemma_insertion_from(ps: Seq<(Seq<char>, JsonView)>, k: Seq<char>, i: int)
    requires
        0 <= i <= ps.len(),
    ensures
        i <= insertion_from(ps, k, i) <= ps.len(),
        forall|m: int| i <= m < insertion_from(ps, k, i) ==> !key_less(k, #[trigger] ps[m].0),
        insertion_from(ps, k, i) < ps.len() ==> key_less(k, ps[insertion_from(ps, k, i)].0),
    decreases ps.len() - i,
{
    if i < ps.len() && !key_less(k, ps[i].0) {
        lemma_insertion_from(ps, k, i + 1);
    }
}

/// Sets the member `key` of an object's members to `value` (see
/// [`with_member`]).
pub fn set_member(members: &mut Vec<(String, Json)>, key: &str, value: Json)
    ensures
        pairs_view(final(members)@) == with_member(pairs_view(old(members)@), key@, value@),
{
    let ghost before = pairs_view(members@);
    let ghost v = value@;
    proof {
        lemma_pairs_view(members@);
    }
    let k = chars_of(key);
    match find_key_in(members, &k) {
        Some(i) => {
            members.set(i, (key.to_owned(), value));
            proof {
                lemma_pairs_view(members@);
                assert(pairs_view(members@) =~= before.update(i as int, (key@, v)));
            }
        },
        None => {
            let n = members.len();
            let mut p: usize = 0;
            while p < n
                invariant
                    n == members@.len(),
                    before == pairs_view(members@),
                    before.len() == n,
                    forall|j: int| 0 <= j < n ==> #[trigger] before[j] == (members@[j].0@, json_view(members@[j].1)),
                    p <= n,
                    insertion_from(before, key@, 0) == insertion_from(before, key@, p as int),
                    k@ == key@,
                ensures
                    p <= n,
                    insertion_from(before, key@, 0) == p,
                decreases n - p,
            {
                let name = chars_of(members[p].0.as_str());
                if key_less_exec(&k, &name) {
                    assert(before[p as int].0 == name@);
                    break;
                }
                p = p + 1;
            }
            proof {
                lemma_insertion_from(before, key@, p as int);
            }
            members.insert(p, (key.to_owned(), value));
            proof {
                lemma_pairs_view(members@);
                assert(pairs_view(members@) =~= before.insert(p as int, (key@, v)));
            }
        },
    }
}

proof fn lemma_key_less_total(a: Seq<char>, b: Seq<char>)
    requires
        a != b,
    ensures
        key_less(a, b) || key_less(b, a),
    decreases a.len(),
{
    if a.len() == 0 && b.len() == 0 {
        assert(a =~= b);
    }
    if a.len() > 0 && b.len() > 0 && a[0] == b[0] {
        let ta = a.subrange(1, a.len() as int);
        let tb = b.subrange(1, b.len() as int);
        if ta == tb {
            assert(a =~= seq![a[0]] + ta);
            assert(b =~= seq![b[0]] + tb);
        }
        lemma_key_less_total(ta, tb);
    }
}

proof fn lemma_key_less_transitive(a: Seq<char>, b: Seq<char>, c: Seq<char>)
    requires
        key_less(a, b),
        key_less(b, c),
    ensures
        key_less(a, c),
    decreases a.len(),
{
    if a.len() > 0 && b.len() > 0 && c.len() > 0 && a[0] == b[0] && b[0] == c[0] {
        lemma_key_less_transitive(
            a.subrange(1, a.len() as int),
            b.subrange(1, b.len() as int),
            c.subrange(1, c.len() as int),
        );
    }
}

/// Setting a member of an object whose members are in key order keeps
/// them in key order, and the member then reads back as the value set.
pub proof fn law_set_member_keeps_key_order(ps: Seq<(Seq<char>, JsonView)>, k: Seq<char>, v: JsonView)
    ensures
        keys_sorted(ps) ==> keys_sorted(with_member(ps, k, v)),
        json_get(JsonView::Object(with_member(ps, k, v)), k) == Some(v),
{
    lemma_key_index_from(ps, k, 0);
    let r = with_member(ps, k, v);
    match key_index(ps, k) {
        Some(i) => {
            assert forall|m: int| 0 <= m < i implies r[m].0 != k by {}
            lemma_first_key_at(r, k, i);
            if keys_sorted(ps) {
                assert forall|a: int, b: int| 0 <= a < b < r.len() implies key_less(r[a].0, r[b].0) by {
                    assert(r[a].0 == ps[a].0 && r[b].0 == ps[b].0);
                }
            }
        },
        None => {
            let p = insertion_from(ps, k, 0);
            lemma_insertion_from(ps, k, 0);
            ps.insert_ensures(p, (k, v));
            assert forall|m: int| 0 <= m < p implies r[m].0 != k by {
                assert(r[m] == ps[m]);
            }
            lemma_first_key_at(r, k, p);
            if keys_sorted(ps) {
                lemma_insert_keeps_order(ps, k, v, p);
            }
        },
    }
}

proof fn lemma_insert_keeps_order(ps: Seq<(Seq<char>, JsonView)>, k: Seq<char>, v: JsonView, p: int)
    requires
        keys_sorted(ps),
        0 <= p <= ps.len(),
        forall|m: int| 0 <= m < p ==> !key_less(k, #[trigger] ps[m].0),
        p < ps.len() ==> key_less(k, ps[p].0),
        forall|m: int| 0 <= m < ps.len() ==> #[trigger] ps[m].0 != k,
    ensures
        keys_sorted(ps.insert(p, (k, v))),
{
    let r = ps.insert(p, (k, v));
    ps.insert_ensures(p, (k, v));
    assert forall|a: int, b: int| 0 <= a < b < r.len() implies key_less(r[a].0, r[b].0) by {
        if b < p {
            assert(r[a] == ps[a] && r[b] == ps[b]);
        } else if b == p {
            assert(r[a] == ps[a]);
            assert(ps[a].0 != k);
            lemma_key_less_total(ps[a].0, k);
        } else if a == p {
            assert(r[b] == ps[b - 1]);
            if b - 1 > p {
                lemma_key_less_transitive(k, ps[p].0, ps[b - 1].0);
            }
        } else if a < p {
            assert(r[a] == ps[a] && r[b] == ps[b - 1]);
        } else {
            assert(r[a] == ps[a - 1] && r[b] == ps[b - 1]);
        }
    }
}

proof fn lemma_first_key_at(ps: Seq<(Seq<char>, JsonView)>, k: Seq<char>, j: int)
    requires
        0 <= j < ps.len(),
        ps[j].0 == k,
        forall|m: int| 0 <= m < j ==> ps[m].0 != k,
    ensures
        key_index(ps, k) == Some(j),
{
    lemma_first_key_from(ps, k, j, 0);
}

proof fn lemma_first_key_from(ps: Seq<(Seq<char>, JsonView)>, k: Seq<char>, j: int, i: int)
    requires
        0 <= i <= j < ps.len(),
        ps[j].0 == k,
        forall|m: int| i <= m < j ==> ps[m].0 != k,
    ensures
        key_index_from(ps, k, i) == Some(j),
    decreases j - i,
{
    if i < j {
        lemma_first_key_from(ps, k, j, i + 1);
    }
}

/// Setting the member `k` leaves every other member as it was.
pub proof fn law_set_member_keeps_others(ps: Seq<(Seq<char>, JsonView)>, k: Seq<char>, v: JsonView, c: Seq<char>)
    requires
        c != k,
    ensures
        json_get(JsonView::Object(with_member(ps, k, v)), c) == json_get(JsonView::Object(ps), c),
{
    lemma_key_index_from(ps, k, 0);
    lemma_key_index_from(ps, c, 0);
    let r = with_member(ps, k, v);
    lemma_key_index_from(r, c, 0);
    match key_index(ps, k) {
        Some(i) => {
            assert forall|m: int| 0 <= m < r.len() implies (#[trigger] r[m]).0 == ps[m].0 by {}
            match key_index(ps, c) {
                Some(j) => {
                    lemma_first_key_at(r, c, j);
                },
                None => {
                    assert(key_index(r, c) is None);
                },
            }
        },
        None => {
            let p = insertion_from(ps, k, 0);
            lemma_insertion_from(ps, k, 0);
            ps.insert_ensures(p, (k, v));
            match key_index(ps, c) {
                Some(j) => {
                    if j < p {
                        assert forall|m: int| 0 <= m < j implies r[m].0 != c by {
                            assert(r[m] == ps[m]);
                        }
                        lemma_first_key_at(r, c, j);
                    } else {
                        assert(r[j + 1] == ps[j]);
                        assert forall|m: int| 0 <= m < j + 1 implies r[m].0 != c by {
                            if m < p {
                                assert(r[m] == ps[m]);
                            } else if m > p {
                                assert(r[m] == ps[m - 1]);
                            }
                        }
                        lemma_first_key_at(r, c, j + 1);
                    }
                },
                None => {
                    if key_index(r, c) is Some {
                        let j = key_index(r, c)->Some_0;
                        if j < p {
                            assert(r[j] == ps[j]);
                        } else if j > p {
                            assert(r[j] == ps[j - 1]);
                        }
                    }
                },
            }
        },
    }
}

// ---------------------------------------------------------------------------
// JSON text
// ---------------------------------------------------------------------------

/// The value that `serde_json` parses the text `text` into (numbers keeping
/// the text it prints for them), or `None` when the text is not JSON.
pub uninterp spec fn json_of_text(text: Seq<char>) -> Option<JsonView>;

/// The parsed JSON values of `serde_json`, carried through unopened.
#[verifier::external_type_specification]
#[verifier::external_body]
pub struct ExJsonValue(serde_json::Value);

/// Trusted, with no contract of its own: the one-for-one conversion that
/// [`parse_json_text`] applies to what `serde_json` parsed (objects keep
/// the order `serde_json` holds their members in; numbers keep the text
/// `serde_json` prints for them).
#[verifier::external_body]
fn json_from_value(v: &serde_json::Value) -> Json {
    match v {
        serde_json::Value::Null => Json::Null,
        serde_json::Value::Bool(b) => Json::Bool(*b),
        serde_json::Value::Number(n) => Json::Number(n.to_string()),
        serde_json::Value::String(t) => Json::Text(t.clone()),
        serde_json::Value::Array(items) => Json::Array(items.iter().map(json_from_value).collect()),
        serde_json::Value::Object(m) => Json::Object(m.iter().map(|(k, x)| (k.clone(), json_from_value(x))).collect()),
    }
}

/// Trusted: calls `serde_json::from_str::<serde_json::Value>` and converts
/// the value. The contract names the result `json_of_text(text)`: success
/// exactly when it is a value, whose objects (held in `serde_json`'s map,
/// one entry per key) have distinct member names; the error text is
/// `serde_json`'s message and is not stated.
#[verifier::external_body]
pub(crate) fn parse_json_text(text: &str) -> (r: Result<Json, String>)
    ensures
        r is Ok <==> json_of_text(text@) is Some,
        r matches Ok(j) ==> Some(j@) == json_of_text(text@) && distinct_keys_deep(j@),
{
    serde_json::from_str::<serde_json::Value>(text).map(|v| json_from_value(&v)).map_err(|e| e.to_string())
}

// ---------------------------------------------------------------------------
// Merging twice
// ---------------------------------------------------------------------------

/// Every object in `v`, at any depth through objects, has distinct member
/// names (as every object that `serde_json` parses does).
pub open spec fn distinct_keys_deep(v: JsonView) -> bool
    decreases v,
{
    match v {
        JsonView::Object(ps) => unique_keys(ps) && members_distinct_deep(ps),
        _ => true,
    }
}

/// Every member value of `ps` has distinct member names at every depth.
pub open spec fn members_distinct_deep(ps: Seq<(Seq<char>, JsonView)>) -> bool
    decreases ps,
{
    if ps.len() == 0 {
        true
    } else {
        distinct_keys_deep(ps[0].1) && members_distinct_deep(ps.subrange(1, ps.len() as int))
    }
}

proof fn lemma_members_distinct_deep(ps: Seq<(Seq<char>, JsonView)>)
    requires
        members_distinct_deep(ps),
    ensures
        forall|i: int| 0 <= i < ps.len() ==> #[trigger] distinct_keys_deep(ps[i].1),
    decreases ps.len(),
{
    if ps.len() > 0 {
        let rest = ps.subrange(1, ps.len() as int);
        lemma_members_distinct_deep(rest);
        assert forall|i: int| 0 <= i < ps.len() implies #[trigger] distinct_keys_deep(ps[i].1) by {
            if i > 0 {
                assert(ps[i] == rest[i - 1]);
            }
        }
    }
}

proof fn lemma_self_merge_pairs(ps: Seq<(Seq<char>, JsonView)>, i: int)
    requires
        0 <= i <= ps.len(),
        unique_keys(ps),
        forall|m: int| 0 <= m < ps.len() && ps[m].1 is Object ==> merged(ps[m].1, ps[m].1) == ps[m].1,
    ensures
        merge_pairs(ps, ps.subrange(i, ps.len() as int)) == ps,
    decreases ps.len() - i,
{
    let ops = ps.subrange(i, ps.len() as int);
    if i < ps.len() {
        let k = ps[i].0;
        assert(ops[0] == ps[i]);
        assert forall|m: int| 0 <= m < i implies ps[m].0 != k by {}
        lemma_first_key_at(ps, k, i);
        assert(ps.update(i, (k, ps[i].1)) =~= ps);
        assert(ops.subrange(1, ops.len() as int) =~= ps.subrange(i + 1, ps.len() as int));
        lemma_self_merge_pairs(ps, i + 1);
    } else {
        assert(ops.len() == 0);
    }
}

/// An object merged with itself is unchanged (when its member names are
/// distinct at every depth).
proof fn lemma_self_merge(v: JsonView)
    requires
        distinct_keys_deep(v),
    ensures
        merged(v, v) == v,
    decreases v,
{
    if let JsonView::Object(ps) = v {
        lemma_members_distinct_deep(ps);
        assert forall|m: int| 0 <= m < ps.len() && ps[m].1 is Object implies merged(ps[m].1, ps[m].1) == ps[m].1 by {
            assert(decreases_to!(v => ps));
            assert(decreases_to!(ps => ps[m]));
            assert(decreases_to!(ps[m] => ps[m].1));
            assert(decreases_to!(v => ps[m].1));
            assert(distinct_keys_deep(ps[m].1));
            lemma_self_merge(ps[m].1);
        }
        lemma_self_merge_pairs(ps, 0);
        assert(ps.subrange(0, ps.len() as int) =~= ps);
    }
}

proof fn lemma_merge_pairs_twice(bps: Seq<(Seq<char>, JsonView)>, ops: Seq<(Seq<char>, JsonView)>)
    requires
        unique_keys(ops),
        forall|m: int, b: JsonView| 0 <= m < ops.len() ==> #[trigger] merged(merged(b, ops[m].1), ops[m].1) == merged(b, ops[m].1),
        forall|m: int| 0 <= m < ops.len() && ops[m].1 is Object ==> merged(ops[m].1, ops[m].1) == ops[m].1,
    ensures
        merge_pairs(merge_pairs(bps, ops), ops) == merge_pairs(bps, ops),
    decreases ops.len(),
{
    if ops.len() > 0 {
        let k0 = ops[0].0;
        let ov = ops[0].1;
        let rest = ops.subrange(1, ops.len() as int);
        lemma_key_index_from(bps, k0, 0);
        let next = match key_index(bps, k0) {
            Some(j) => if 0 <= j < bps.len() && bps[j].1 is Object && ov is Object {
                bps.update(j, (k0, merged(bps[j].1, ov)))
            } else {
                bps.update(j, (k0, ov))
            },
            None => bps.push((k0, ov)),
        };
        let j = match key_index(bps, k0) {
            Some(j) => j,
            None => bps.len() as int,
        };
        assert forall|m: int| 0 <= m < j implies next[m].0 != k0 by {
            assert(next[m] == bps[m]);
        }
        lemma_first_key_at(next, k0, j);
        assert forall|m: int| 0 <= m < rest.len() implies rest[m].0 != k0 by {
            assert(rest[m] == ops[m + 1]);
        }
        lemma_merge_keeps_other_member(next, rest, k0);
        let big = merge_pairs(next, rest);
        lemma_key_index_from(big, k0, 0);
        assert(big == merge_pairs(bps, ops));
        assert(0 <= j < big.len());
        assert(big[j] == next[j]);
        let v0 = next[j].1;
        assert(next[j].0 == k0);
        assert(!(ov is Object) ==> v0 == ov);
        assert(ov is Object ==> v0 is Object);
        if ov is Object {
            if key_index(bps, k0) is Some && bps[j].1 is Object {
                assert(merged(merged(bps[j].1, ov), ov) == merged(bps[j].1, ov));
            }
            assert(merged(v0, ov) == v0);
        }
        let again = if big[j].1 is Object && ov is Object {
            big.update(j, (k0, merged(big[j].1, ov)))
        } else {
            big.update(j, (k0, ov))
        };
        assert(again =~= big);
        assert(merge_pairs(big, ops) == merge_pairs(again, rest));
        assert forall|m: int, b: JsonView| 0 <= m < rest.len() implies #[trigger] merged(merged(b, rest[m].1), rest[m].1) == merged(b, rest[m].1) by {
            assert(rest[m] == ops[m + 1]);
        }
        assert forall|m: int| 0 <= m < rest.len() && rest[m].1 is Object implies merged(rest[m].1, rest[m].1) == rest[m].1 by {
            assert(rest[m] == ops[m + 1]);
        }
        lemma_merge_pairs_twice(next, rest);
    }
}

/// Merging the same override twice is merging it once (when the
/// override's member names are distinct at every depth, as in any parsed
/// JSON object).
pub proof fn law_merge_is_idempotent(base: JsonView, over: JsonView)
    requires
        distinct_keys_deep(over),
    ensures
        merged(merged(base, over), over) == merged(base, over),
    decreases over,
{
    if let JsonView::Object(ops) = over {
        lemma_members_distinct_deep(ops);
        if let JsonView::Object(bps) = base {
            assert forall|m: int, b: JsonView| 0 <= m < ops.len() implies #[trigger] merged(merged(b, ops[m].1), ops[m].1) == merged(b, ops[m].1) by {
                assert(decreases_to!(over => ops));
                assert(decreases_to!(ops => ops[m]));
                assert(decreases_to!(ops[m] => ops[m].1));
                assert(decreases_to!(over => ops[m].1));
                assert(distinct_keys_deep(ops[m].1));
                law_merge_is_idempotent(b, ops[m].1);
            }
            assert forall|m: int| 0 <= m < ops.len() && ops[m].1 is Object implies merged(ops[m].1, ops[m].1) == ops[m].1 by {
                assert(decreases_to!(over => ops));
                assert(decreases_to!(ops => ops[m]));
                assert(decreases_to!(ops[m] => ops[m].1));
                assert(decreases_to!(over => ops[m].1));
                assert(distinct_keys_deep(ops[m].1));
                lemma_self_merge(ops[m].1);
            }
            lemma_merge_pairs_twice(bps, ops);
        } else {
            lemma_self_merge(over);
        }
    }
}

} // verus!
