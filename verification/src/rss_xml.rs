//! A narrowly scoped text extractor for RSS 2.0 / Atom 1.0 feeds. It only
//! pulls the text of a few named leaf elements out of `<item>`/`<entry>`
//! blocks. `<!DOCTYPE ...>` internal subsets and `<!ENTITY ...>`
//! declarations are skipped as opaque text and never interpreted, so no
//! entity (external or otherwise) is ever expanded. Qualified names such as
//! `dc:title` are matched by their local name.
//!
//! Every function here works on the document's characters; all delimiters
//! are ASCII, so character positions play the role of byte offsets.

use vstd::prelude::*;
use crate::text::{
    char_is_whitespace, copy_range, find, find_char, find_char_from, find_from, occurs_at, push_all,
    lemma_find_char_from_bounds, lemma_find_from_bounds, lemma_find_from_shift, lemma_rfind_char_below_bounds,
    lemma_find_from_shift_gen, opt_int, starts_at, chars_eq, contains_chars, views_of, chars_of,
    push_range, replace, replace_all, rfind_char, rfind_char_below, string_of, unicode_white_space,
};

verus! {

// ---------------------------------------------------------------------------
// Literal patterns
// ---------------------------------------------------------------------------

pub open spec fn comment_open() -> Seq<char> { seq!['<', '!', '-', '-'] }
pub open spec fn comment_close() -> Seq<char> { seq!['-', '-', '>'] }
pub open spec fn pi_open() -> Seq<char> { seq!['<', '?'] }
pub open spec fn pi_close() -> Seq<char> { seq!['?', '>'] }
pub open spec fn decl_open() -> Seq<char> { seq!['<', '!'] }
pub open spec fn end_tag_open() -> Seq<char> { seq!['<', '/'] }
pub open spec fn cdata_open() -> Seq<char> { seq!['<', '!', '[', 'C', 'D', 'A', 'T', 'A', '['] }
pub open spec fn cdata_close() -> Seq<char> { seq![']', ']', '>'] }

pub open spec fn name_item() -> Seq<char> { seq!['i', 't', 'e', 'm'] }
pub open spec fn name_entry() -> Seq<char> { seq!['e', 'n', 't', 'r', 'y'] }
pub open spec fn title_names() -> Seq<Seq<char>> { seq![seq!['t', 'i', 't', 'l', 'e']] }
pub open spec fn description_names() -> Seq<Seq<char>> {
    seq![
        seq!['d', 'e', 's', 'c', 'r', 'i', 'p', 't', 'i', 'o', 'n'],
        seq!['s', 'u', 'm', 'm', 'a', 'r', 'y'],
    ]
}
pub open spec fn published_names() -> Seq<Seq<char>> {
    seq![
        seq!['p', 'u', 'b', 'D', 'a', 't', 'e'],
        seq!['p', 'u', 'b', 'l', 'i', 's', 'h', 'e', 'd'],
        seq!['u', 'p', 'd', 'a', 't', 'e', 'd'],
    ]
}

// ---------------------------------------------------------------------------
// Specification of the scanner
// ---------------------------------------------------------------------------

/// Characters that end a tag's qualified name.
pub open spec fn is_name_end(c: char) -> bool {
    unicode_white_space(c) || c == '>' || c == '/'
}

/// First index `>= from` holding a name-ending character.
pub open spec fn find_name_end(s: Seq<char>, from: int) -> Option<int>
    decreases s.len() - from,
{
    if from < 0 || from >= s.len() {
        None
    } else if is_name_end(s[from]) {
        Some(from)
    } else {
        find_name_end(s, from + 1)
    }
}

/// Index of the `>` that ends a tag, scanning from `i` with `quote` the
/// currently open attribute quote (a `>` inside quotes does not count).
pub open spec fn tag_close(s: Seq<char>, i: int, quote: Option<char>) -> Option<int>
    decreases s.len() - i,
{
    if i < 0 || i >= s.len() {
        None
    } else {
        match quote {
            Some(q) => if s[i] == q {
                tag_close(s, i + 1, None)
            } else {
                tag_close(s, i + 1, quote)
            },
            None => if s[i] == '"' || s[i] == '\'' {
                tag_close(s, i + 1, Some(s[i]))
            } else if s[i] == '>' {
                Some(i)
            } else {
                tag_close(s, i + 1, None)
            },
        }
    }
}

/// Position just past a comment, processing instruction or declaration
/// starting at `from`, or `None` if there is none there (or it is
/// unterminated). A declaration has an internal `[...]` subset when a `[`
/// comes before its first `>`; the subset is then skipped past the first
/// `]` after that `[` before the closing `>` is sought. Otherwise the
/// declaration ends at its first `>`.
pub open spec fn skip_special(xml: Seq<char>, from: int) -> Option<int> {
    if from < 0 || from > xml.len() {
        None
    } else if occurs_at(xml, from, comment_open()) {
        match find_from(xml, from + 4, comment_close()) {
            Some(e) => Some(e + 3),
            None => None,
        }
    } else if occurs_at(xml, from, pi_open()) {
        match find_from(xml, from + 2, pi_close()) {
            Some(e) => Some(e + 2),
            None => None,
        }
    } else if occurs_at(xml, from, decl_open()) {
        match find_char_from(xml, from + 2, '>') {
            None => None,
            Some(g) => match find_char_from(xml, from + 2, '[') {
                Some(b) => if b < g {
                    match find_char_from(xml, b + 1, ']') {
                        Some(c) => match find_char_from(xml, c + 1, '>') {
                            Some(g2) => Some(g2 + 1),
                            None => None,
                        },
                        None => None,
                    }
                } else {
                    Some(g + 1)
                },
                None => Some(g + 1),
            },
        }
    } else {
        None
    }
}

/// An open tag: `(name_start, name_end, after_tag, self_closing)`, where
/// the qualified name is `xml[name_start..name_end]` and `after_tag` is the
/// position just past its `>`.
pub type TagSpan = (int, int, int, bool);

/// The next open tag at or after `pos`, skipping comments, processing
/// instructions, declarations and closing tags; `None` when there is none
/// or the document ends in malformed markup.
pub open spec fn next_open_tag(xml: Seq<char>, pos: int) -> Option<TagSpan>
    decreases xml.len() - pos,
{
    if pos < 0 || pos > xml.len() {
        None
    } else {
        match find_char_from(xml, pos, '<') {
            None => None,
            Some(lt) => if lt < pos || lt >= xml.len() {
                None
            } else {
                match skip_special(xml, lt) {
                    Some(after) => if lt < after <= xml.len() {
                        next_open_tag(xml, after)
                    } else {
                        None
                    },
                    None => if occurs_at(xml, lt, end_tag_open()) {
                        match find_char_from(xml, lt, '>') {
                            Some(gt) => if lt <= gt < xml.len() {
                                next_open_tag(xml, gt + 1)
                            } else {
                                None
                            },
                            None => None,
                        }
                    } else {
                        match find_name_end(xml, lt + 1) {
                            None => None,
                            Some(ne) => if ne == lt + 1 {
                                next_open_tag(xml, lt + 1)
                            } else {
                                match tag_close(xml, ne, None) {
                                    None => None,
                                    Some(i) => Some((lt + 1, ne, i + 1, i > ne && xml[i - 1] == '/')),
                                }
                            },
                        }
                    }
                }
            }
        }
    }
}

/// The local part of a qualified name: everything after its last `:`.
pub open spec fn local_name(q: Seq<char>) -> Seq<char> {
    match rfind_char_below(q, q.len() as int, ':') {
        Some(i) => q.subrange(i + 1, q.len() as int),
        None => q,
    }
}

/// The five predefined XML entities decoded, `&amp;` last (so `&amp;lt;`
/// becomes `&lt;`, not `<`). Nothing else is decoded.
#[verifier::opaque]
pub open spec fn decode_entities(s: Seq<char>) -> Seq<char> {
    replace_all(
        replace_all(
            replace_all(
                replace_all(
                    replace_all(s, seq!['&', 'l', 't', ';'], seq!['<']),
                    seq!['&', 'g', 't', ';'],
                    seq!['>'],
                ),
                seq!['&', 'q', 'u', 'o', 't', ';'],
                seq!['"'],
            ),
            seq!['&', 'a', 'p', 'o', 's', ';'],
            seq!['\''],
        ),
        seq!['&', 'a', 'm', 'p', ';'],
        seq!['&'],
    )
}

/// Element text: `<![CDATA[...]]>` sections copied verbatim, entities
/// decoded everywhere else; an unterminated CDATA section runs to the end.
pub open spec fn decode_text(raw: Seq<char>) -> Seq<char>
    decreases raw.len(),
{
    match find_from(raw, 0, cdata_open()) {
        Some(start) => if 0 <= start && start + 9 <= raw.len() {
            let pre = decode_entities(raw.subrange(0, start));
            let after_open = start + 9;
            match find_from(raw, after_open, cdata_close()) {
                Some(end) => if after_open <= end && end + 3 <= raw.len() {
                    pre + raw.subrange(after_open, end) + decode_text(
                        raw.subrange(end + 3, raw.len() as int),
                    )
                } else {
                    pre
                },
                None => pre + raw.subrange(after_open, raw.len() as int),
            }
        } else {
            decode_entities(raw)
        },
        None => decode_entities(raw),
    }
}

/// The first element at or after `pos` (and starting before `limit`) whose
/// local name is one of `candidates`: `(local_name, decoded_text, position
/// after the element)`. A self-closing element has empty text.
pub open spec fn find_first_matching(
    xml: Seq<char>,
    candidates: Seq<Seq<char>>,
    pos: int,
    limit: int,
) -> Option<(Seq<char>, Seq<char>, int)>
    decreases xml.len() - pos,
{
    if pos >= limit || pos < 0 || pos > xml.len() {
        None
    } else {
        match next_open_tag(xml, pos) {
            None => None,
            Some(t) => {
                let q = xml.subrange(t.0, t.1);
                let local = local_name(q);
                if !candidates.contains(local) {
                    if pos < t.2 <= xml.len() {
                        find_first_matching(xml, candidates, t.2, limit)
                    } else {
                        None
                    }
                } else if t.3 {
                    Some((local, Seq::empty(), t.2))
                } else {
                    match find_from(xml, t.2, end_tag_open() + q) {
                        None => None,
                        Some(cp) => match find_char_from(xml, cp, '>') {
                            None => None,
                            Some(g) => if t.2 <= cp <= xml.len() {
                                Some((local, decode_text(xml.subrange(t.2, cp)), g + 1))
                            } else {
                                None
                            },
                        },
                    }
                }
            },
        }
    }
}

/// The decoded text of the first element of `block` named by one of
/// `candidates`, or empty when there is none.
pub open spec fn field_text(block: Seq<char>, candidates: Seq<Seq<char>>) -> Seq<char> {
    match find_first_matching(block, candidates, 0, block.len() as int) {
        Some(r) => r.1,
        None => Seq::empty(),
    }
}

/// `(title, description, published)` of one block.
pub open spec fn block_fields(block: Seq<char>) -> (Seq<char>, Seq<char>, Seq<char>) {
    (
        field_text(block, title_names()),
        field_text(block, description_names()),
        field_text(block, published_names()),
    )
}

/// The entries of the non-self-closing blocks named `name`, scanning from
/// `pos` with `count` entries already taken, stopping at `max` entries or
/// at the first block without a closing tag.
pub open spec fn extract_blocks(
    xml: Seq<char>,
    name: Seq<char>,
    max: int,
    pos: int,
    count: int,
) -> Seq<(Seq<char>, Seq<char>, Seq<char>)>
    decreases xml.len() - pos,
{
    if count >= max || pos < 0 || pos > xml.len() {
        Seq::empty()
    } else {
        match next_open_tag(xml, pos) {
            None => Seq::empty(),
            Some(t) => {
                let q = xml.subrange(t.0, t.1);
                if local_name(q) != name || t.3 {
                    if pos < t.2 <= xml.len() {
                        extract_blocks(xml, name, max, t.2, count)
                    } else {
                        Seq::empty()
                    }
                } else {
                    match find_from(xml, t.2, end_tag_open() + q) {
                        None => Seq::empty(),
                        Some(be) => match find_char_from(xml, be, '>') {
                            None => Seq::empty(),
                            Some(g) => if pos < t.2 <= be <= g < xml.len() {
                                seq![block_fields(xml.subrange(t.2, be))] + extract_blocks(
                                    xml,
                                    name,
                                    max,
                                    g + 1,
                                    count + 1,
                                )
                            } else {
                                Seq::empty()
                            },
                        },
                    }
                }
            },
        }
    }
}

/// The feed's entries: its `<item>` blocks (RSS 2.0), or, when it has none,
/// its `<entry>` blocks (Atom 1.0); at most `max` of them.
pub open spec fn feed_entries(xml: Seq<char>, max: int) -> Seq<(Seq<char>, Seq<char>, Seq<char>)> {
    let items = extract_blocks(xml, name_item(), max, 0, 0);
    if items.len() == 0 {
        extract_blocks(xml, name_entry(), max, 0, 0)
    } else {
        items
    }
}


// ---------------------------------------------------------------------------
// Bounds facts
// ---------------------------------------------------------------------------

pub proof fn lemma_skip_special_bounds(xml: Seq<char>, from: int)
    ensures
        skip_special(xml, from) matches Some(a) ==> from < a <= xml.len(),
{
    if from < 0 || from > xml.len() {
    } else if occurs_at(xml, from, comment_open()) {
        lemma_find_from_bounds(xml, from + 4, comment_close());
    } else if occurs_at(xml, from, pi_open()) {
        lemma_find_from_bounds(xml, from + 2, pi_close());
    } else if occurs_at(xml, from, decl_open()) {
        lemma_find_char_from_bounds(xml, from + 2, '>');
        lemma_find_char_from_bounds(xml, from + 2, '[');
        match find_char_from(xml, from + 2, '[') {
            Some(b) => {
                lemma_find_char_from_bounds(xml, b + 1, ']');
                match find_char_from(xml, b + 1, ']') {
                    Some(c) => lemma_find_char_from_bounds(xml, c + 1, '>'),
                    None => {},
                }
            },
            None => {},
        }
    }
}

pub proof fn lemma_find_name_end_bounds(s: Seq<char>, from: int)
    requires
        0 <= from,
    ensures
        find_name_end(s, from) matches Some(i) ==> from <= i < s.len() && is_name_end(s[i]),
    decreases s.len() - from,
{
    if from >= s.len() {
    } else if is_name_end(s[from]) {
    } else {
        lemma_find_name_end_bounds(s, from + 1);
    }
}

pub proof fn lemma_tag_close_bounds(s: Seq<char>, i: int, quote: Option<char>)
    requires
        0 <= i,
    ensures
        tag_close(s, i, quote) matches Some(j) ==> i <= j < s.len() && s[j] == '>',
    decreases s.len() - i,
{
    if i >= s.len() {
    } else {
        match quote {
            Some(q) => if s[i] == q {
                lemma_tag_close_bounds(s, i + 1, None);
            } else {
                lemma_tag_close_bounds(s, i + 1, quote);
            },
            None => if s[i] == '"' || s[i] == '\'' {
                lemma_tag_close_bounds(s, i + 1, Some(s[i]));
            } else if s[i] == '>' {
            } else {
                lemma_tag_close_bounds(s, i + 1, None);
            },
        }
    }
}

/// An open tag's name lies strictly after `pos`, is non-empty, and is
/// followed by the tag's end, which lies within the document.
pub proof fn lemma_next_open_tag_bounds(xml: Seq<char>, pos: int)
    ensures
        next_open_tag(xml, pos) matches Some(t) ==> pos < t.0 < t.1 < t.2 <= xml.len(),
    decreases xml.len() - pos,
{
    if pos < 0 || pos > xml.len() {
    } else {
        match find_char_from(xml, pos, '<') {
            None => {},
            Some(lt) => if lt < pos || lt >= xml.len() {
            } else {
                match skip_special(xml, lt) {
                    Some(after) => if lt < after <= xml.len() {
                        lemma_next_open_tag_bounds(xml, after);
                    },
                    None => if occurs_at(xml, lt, end_tag_open()) {
                        match find_char_from(xml, lt, '>') {
                            Some(gt) => if lt <= gt < xml.len() {
                                lemma_next_open_tag_bounds(xml, gt + 1);
                            },
                            None => {},
                        }
                    } else {
                        lemma_find_name_end_bounds(xml, lt + 1);
                        match find_name_end(xml, lt + 1) {
                            None => {},
                            Some(ne) => if ne == lt + 1 {
                                lemma_next_open_tag_bounds(xml, lt + 1);
                            } else {
                                lemma_tag_close_bounds(xml, ne, None);
                            },
                        }
                    }
                }
            },
        }
    }
}

// ---------------------------------------------------------------------------
// Executable scanner
// ---------------------------------------------------------------------------

/// Position just past a comment, processing instruction or declaration
/// starting at `from`.
fn skip_special_at(xml: &[char], from: usize) -> (r: Option<usize>)
    ensures
        opt_int(r) == skip_special(xml@, from as int),
{
    if from > xml.len() {
        return None;
    }
    if starts_at(xml, from, &['<', '!', '-', '-']) {
        assert(seq!['<', '!', '-', '-'] =~= comment_open());
        proof { lemma_find_from_bounds(xml@, from + 4, comment_close()); }
        match find(xml, from + 4, &['-', '-', '>']) {
            Some(e) => {
                assert(seq!['-', '-', '>'] =~= comment_close());
                return Some(e + 3);
            },
            None => {
                assert(seq!['-', '-', '>'] =~= comment_close());
                return None;
            },
        }
    }
    assert(seq!['<', '!', '-', '-'] =~= comment_open());
    if starts_at(xml, from, &['<', '?']) {
        assert(seq!['<', '?'] =~= pi_open());
        assert(seq!['?', '>'] =~= pi_close());
        proof { lemma_find_from_bounds(xml@, from + 2, pi_close()); }
        match find(xml, from + 2, &['?', '>']) {
            Some(e) => return Some(e + 2),
            None => return None,
        }
    }
    assert(seq!['<', '?'] =~= pi_open());
    if starts_at(xml, from, &['<', '!']) {
        assert(seq!['<', '!'] =~= decl_open());
        let start = from + 2;
        proof {
            lemma_find_char_from_bounds(xml@, start as int, '>');
            lemma_find_char_from_bounds(xml@, start as int, '[');
        }
        let g = match find_char(xml, start, '>') {
            Some(g) => g,
            None => return None,
        };
        match find_char(xml, start, '[') {
            Some(b) => {
                if b < g {
                    proof { lemma_find_char_from_bounds(xml@, b + 1, ']'); }
                    match find_char(xml, b + 1, ']') {
                        Some(c) => {
                            proof { lemma_find_char_from_bounds(xml@, c + 1, '>'); }
                            match find_char(xml, c + 1, '>') {
                                Some(g2) => return Some(g2 + 1),
                                None => return None,
                            }
                        },
                        None => return None,
                    }
                } else {
                    return Some(g + 1);
                }
            },
            None => return Some(g + 1),
        }
    }
    assert(seq!['<', '!'] =~= decl_open());
    None
}


fn find_name_end_at(xml: &[char], from: usize) -> (r: Option<usize>)
    ensures
        opt_int(r) == find_name_end(xml@, from as int),
{
    let n = xml.len();
    let mut i = from;
    while i < n
        invariant
            xml@.len() == n,
            from <= i,
            find_name_end(xml@, from as int) == find_name_end(xml@, i as int),
        decreases n - i,
    {
        let c = xml[i];
        if char_is_whitespace(c) || c == '>' || c == '/' {
            return Some(i);
        }
        i = i + 1;
    }
    None
}

fn tag_close_at(xml: &[char], from: usize) -> (r: Option<usize>)
    ensures
        opt_int(r) == tag_close(xml@, from as int, None),
{
    let n = xml.len();
    let mut i = from;
    let mut quote: Option<char> = None;
    while i < n
        invariant
            xml@.len() == n,
            from <= i,
            tag_close(xml@, from as int, None) == tag_close(xml@, i as int, quote),
        decreases n - i,
    {
        let c = xml[i];
        match quote {
            Some(q) => {
                if c == q {
                    quote = None;
                }
            },
            None => {
                if c == '"' || c == '\'' {
                    quote = Some(c);
                } else if c == '>' {
                    return Some(i);
                }
            },
        }
        i = i + 1;
    }
    None
}

/// An open tag found by the scanner.
pub struct OpenTag {
    pub name_start: usize,
    pub name_end: usize,
    pub after_tag: usize,
    pub self_closing: bool,
}

impl OpenTag {
    pub open spec fn span(&self) -> TagSpan {
        (self.name_start as int, self.name_end as int, self.after_tag as int, self.self_closing)
    }
}

/// The next open tag at or after `from`.
fn next_open_tag_at(xml: &[char], from: usize) -> (r: Option<OpenTag>)
    ensures
        match r {
            Some(t) => next_open_tag(xml@, from as int) == Some(t.span()),
            None => next_open_tag(xml@, from as int) is None,
        },
{
    let n = xml.len();
    if from > n {
        return None;
    }
    let mut pos = from;
    loop
        invariant
            xml@.len() == n,
            pos <= n,
            next_open_tag(xml@, from as int) == next_open_tag(xml@, pos as int),
        decreases n - pos,
    {
        let lt = match find_char(xml, pos, '<') {
            Some(l) => l,
            None => return None,
        };
        proof { lemma_find_char_from_bounds(xml@, pos as int, '<'); }
        match skip_special_at(xml, lt) {
            Some(after) => {
                proof { lemma_skip_special_bounds(xml@, lt as int); }
                pos = after;
                continue;
            },
            None => {},
        }
        if starts_at(xml, lt, &['<', '/']) {
            assert(seq!['<', '/'] =~= end_tag_open());
            match find_char(xml, lt, '>') {
                Some(gt) => {
                    proof { lemma_find_char_from_bounds(xml@, lt as int, '>'); }
                    pos = gt + 1;
                    continue;
                },
                None => return None,
            }
        }
        assert(seq!['<', '/'] =~= end_tag_open());
        let name_start = lt + 1;
        let name_end = match find_name_end_at(xml, name_start) {
            Some(e) => e,
            None => return None,
        };
        proof { lemma_find_name_end_bounds(xml@, name_start as int); }
        if name_end == name_start {
            pos = name_start;
            continue;
        }
        let close = match tag_close_at(xml, name_end) {
            Some(c) => c,
            None => return None,
        };
        proof { lemma_tag_close_bounds(xml@, name_end as int, None); }
        let self_closing = close > name_end && xml[close - 1] == '/';
        return Some(OpenTag { name_start, name_end, after_tag: close + 1, self_closing });
    }
}


/// The local part of the qualified name `q`.
fn local_name_of(q: &[char]) -> (r: Vec<char>)
    ensures
        r@ == local_name(q@),
{
    let n = q.len();
    match rfind_char(q, ':') {
        Some(i) => {
            proof { lemma_rfind_char_below_bounds(q@, q@.len() as int, ':'); }
            copy_range(q, i + 1, n)
        },
        None => {
            let r = copy_range(q, 0, n);
            assert(r@ =~= q@);
            r
        },
    }
}

/// `s` with the five predefined XML entities decoded.
fn decode_entities_of(s: &[char]) -> (r: Vec<char>)
    ensures
        r@ == decode_entities(s@),
{
    let lt = ['&', 'l', 't', ';'];
    let gt = ['&', 'g', 't', ';'];
    let quot = ['&', 'q', 'u', 'o', 't', ';'];
    let apos = ['&', 'a', 'p', 'o', 's', ';'];
    let amp = ['&', 'a', 'm', 'p', ';'];
    let c_lt = ['<'];
    let c_gt = ['>'];
    let c_quot = ['"'];
    let c_apos = ['\''];
    let c_amp = ['&'];
    assert(lt@ =~= seq!['&', 'l', 't', ';']);
    assert(gt@ =~= seq!['&', 'g', 't', ';']);
    assert(quot@ =~= seq!['&', 'q', 'u', 'o', 't', ';']);
    assert(apos@ =~= seq!['&', 'a', 'p', 'o', 's', ';']);
    assert(amp@ =~= seq!['&', 'a', 'm', 'p', ';']);
    assert(c_lt@ =~= seq!['<']);
    assert(c_gt@ =~= seq!['>']);
    assert(c_quot@ =~= seq!['"']);
    assert(c_apos@ =~= seq!['\'']);
    assert(c_amp@ =~= seq!['&']);
    let a = replace(s, &lt, &c_lt);
    let b = replace(&a, &gt, &c_gt);
    let c = replace(&b, &quot, &c_quot);
    let d = replace(&c, &apos, &c_apos);
    let e = replace(&d, &amp, &c_amp);
    reveal(decode_entities);
    e
}

/// Element text with CDATA sections unwrapped and entities decoded.
fn decode_text_of(raw: &[char]) -> (r: Vec<char>)
    ensures
        r@ == decode_text(raw@),
{
    let n = raw.len();
    let mut out: Vec<char> = Vec::new();
    let mut p: usize = 0;
    assert(raw@.subrange(0, n as int) =~= raw@);
    loop
        invariant
            raw@.len() == n,
            p <= n,
            decode_text(raw@) == out@ + decode_text(raw@.subrange(p as int, n as int)),
        decreases n - p,
    {
        let open = ['<', '!', '[', 'C', 'D', 'A', 'T', 'A', '['];
        let close = [']', ']', '>'];
        assert(open@ =~= cdata_open());
        assert(close@ =~= cdata_close());
        proof { lemma_decode_text_unfold(raw@, p as int); }
        match find(raw, p, &open) {
            None => {
                let tail = copy_range(raw, p, n);
                let decoded = decode_entities_of(&tail);
                push_all(&mut out, &decoded);
                return out;
            },
            Some(start) => {
                let before = copy_range(raw, p, start);
                let decoded = decode_entities_of(&before);
                push_all(&mut out, &decoded);
                let after_open = start + 9;
                match find(raw, after_open, &close) {
                    Some(end) => {
                        push_range(&mut out, raw, after_open, end);
                        p = end + 3;
                    },
                    None => {
                        push_range(&mut out, raw, after_open, n);
                        return out;
                    },
                }
            },
        }
    }
}

/// One step of `decode_text` on the suffix of `raw` starting at `p`,
/// phrased over positions in `raw`.
proof fn lemma_decode_text_unfold(raw: Seq<char>, p: int)
    requires
        0 <= p <= raw.len(),
    ensures
        ({
            let rest = raw.subrange(p, raw.len() as int);
            match find_from(raw, p, cdata_open()) {
                None => decode_text(rest) == decode_entities(rest),
                Some(start) => p <= start && start + 9 <= raw.len() && match find_from(
                    raw,
                    start + 9,
                    cdata_close(),
                ) {
                    Some(end) => start + 9 <= end && end + 3 <= raw.len() && decode_text(rest)
                        == decode_entities(raw.subrange(p, start)) + raw.subrange(start + 9, end)
                        + decode_text(raw.subrange(end + 3, raw.len() as int)),
                    None => decode_text(rest) == decode_entities(raw.subrange(p, start))
                        + raw.subrange(start + 9, raw.len() as int),
                },
            }
        }),
{
    let rest = raw.subrange(p, raw.len() as int);
    lemma_find_from_shift(raw, p, cdata_open());
    lemma_find_from_bounds(raw, p, cdata_open());
    match find_from(raw, p, cdata_open()) {
        None => {},
        Some(start) => {
            lemma_find_from_bounds(raw, start + 9, cdata_close());
            lemma_find_from_shift_gen(raw, p, start + 9 - p, cdata_close());
            assert(rest.subrange(0, start - p) =~= raw.subrange(p, start));
            match find_from(raw, start + 9, cdata_close()) {
                Some(end) => {
                    assert(rest.subrange(start + 9 - p, end - p) =~= raw.subrange(start + 9, end));
                    assert(rest.subrange(end + 3 - p, rest.len() as int) =~= raw.subrange(
                        end + 3,
                        raw.len() as int,
                    ));
                },
                None => {
                    assert(rest.subrange(start + 9 - p, rest.len() as int) =~= raw.subrange(
                        start + 9,
                        raw.len() as int,
                    ));
                },
            }
        },
    }
}


/// `"</"` followed by `q`: the start of `q`'s closing tag.
fn closing_needle(q: &[char]) -> (r: Vec<char>)
    ensures
        r@ == end_tag_open() + q@,
{
    let mut needle: Vec<char> = Vec::new();
    needle.push('<');
    needle.push('/');
    push_all(&mut needle, q);
    assert(needle@ =~= end_tag_open() + q@);
    needle
}

/// The first element at or after `from` (starting before `limit`) whose
/// local name is in `candidates`: its local name, decoded text, and the
/// position after it.
fn find_first_matching_element(
    xml: &[char],
    candidates: &[Vec<char>],
    from: usize,
    limit: usize,
) -> (r: Option<(Vec<char>, Vec<char>, usize)>)
    ensures
        match r {
            Some(m) => find_first_matching(xml@, views_of(candidates@), from as int, limit as int)
                == Some((m.0@, m.1@, m.2 as int)),
            None => find_first_matching(xml@, views_of(candidates@), from as int, limit as int) is None,
        },
{
    let n = xml.len();
    let ghost cands = views_of(candidates@);
    if from > n {
        return None;
    }
    let mut pos = from;
    while pos < limit
        invariant
            xml@.len() == n,
            pos <= n,
            cands == views_of(candidates@),
            find_first_matching(xml@, cands, from as int, limit as int) == find_first_matching(
                xml@,
                cands,
                pos as int,
                limit as int,
            ),
        decreases n - pos,
    {
        let tag = match next_open_tag_at(xml, pos) {
            Some(t) => t,
            None => return None,
        };
        proof { lemma_next_open_tag_bounds(xml@, pos as int); }
        let q = copy_range(xml, tag.name_start, tag.name_end);
        let local = local_name_of(&q);
        if !contains_chars(candidates, &local) {
            pos = tag.after_tag;
            continue;
        }
        if tag.self_closing {
            let empty: Vec<char> = Vec::new();
            assert(empty@ =~= Seq::<char>::empty());
            return Some((local, empty, tag.after_tag));
        }
        let needle = closing_needle(&q);
        let close_pos = match find(xml, tag.after_tag, &needle) {
            Some(c) => c,
            None => return None,
        };
        proof { lemma_find_from_bounds(xml@, tag.after_tag as int, needle@); }
        let close_gt = match find_char(xml, close_pos, '>') {
            Some(g) => g,
            None => return None,
        };
        proof { lemma_find_char_from_bounds(xml@, close_pos as int, '>'); }
        let inner = copy_range(xml, tag.after_tag, close_pos);
        let text = decode_text_of(&inner);
        return Some((local, text, close_gt + 1));
    }
    None
}

/// The decoded text of the first element of `block` named by one of
/// `candidates`, or empty.
fn field_text_of(block: &[char], candidates: &[Vec<char>]) -> (r: Vec<char>)
    ensures
        r@ == field_text(block@, views_of(candidates@)),
{
    match find_first_matching_element(block, candidates, 0, block.len()) {
        Some(m) => m.1,
        None => {
            let empty: Vec<char> = Vec::new();
            assert(empty@ =~= Seq::<char>::empty());
            empty
        },
    }
}

fn title_candidates() -> (r: Vec<Vec<char>>)
    ensures
        views_of(r@) == title_names(),
{
    let r = vec![vec!['t', 'i', 't', 'l', 'e']];
    assert(views_of(r@) =~= title_names());
    r
}

fn description_candidates() -> (r: Vec<Vec<char>>)
    ensures
        views_of(r@) == description_names(),
{
    let r = vec![
        vec!['d', 'e', 's', 'c', 'r', 'i', 'p', 't', 'i', 'o', 'n'],
        vec!['s', 'u', 'm', 'm', 'a', 'r', 'y'],
    ];
    assert(views_of(r@) =~= description_names());
    r
}

fn published_candidates() -> (r: Vec<Vec<char>>)
    ensures
        views_of(r@) == published_names(),
{
    let r = vec![
        vec!['p', 'u', 'b', 'D', 'a', 't', 'e'],
        vec!['p', 'u', 'b', 'l', 'i', 's', 'h', 'e', 'd'],
        vec!['u', 'p', 'd', 'a', 't', 'e', 'd'],
    ];
    assert(views_of(r@) =~= published_names());
    r
}

/// One extracted feed entry: title, description/summary text, and the
/// published/updated timestamp as authored (not validated).
#[derive(Debug, Clone, PartialEq)]
pub struct FeedEntry {
    pub title: String,
    pub description: String,
    pub published: String,
}

impl View for FeedEntry {
    type V = (Seq<char>, Seq<char>, Seq<char>);

    open spec fn view(&self) -> Self::V {
        (self.title@, self.description@, self.published@)
    }
}

/// The views of a sequence of entries.
pub open spec fn entries_view(v: Seq<FeedEntry>) -> Seq<(Seq<char>, Seq<char>, Seq<char>)> {
    v.map_values(|e: FeedEntry| e@)
}

/// The entries of the blocks named `block_name`, at most `max_items`.
#[verifier::spinoff_prover]
#[verifier::rlimit(40)]
fn extract_blocks_of(xml: &[char], block_name: &[char], max_items: usize) -> (r: Vec<FeedEntry>)
    ensures
        entries_view(r@) == extract_blocks(xml@, block_name@, max_items as int, 0, 0),
{
    let n = xml.len();
    let titles = title_candidates();
    let descriptions = description_candidates();
    let dates = published_candidates();
    let mut out: Vec<FeedEntry> = Vec::new();
    let mut pos: usize = 0;
    assert(entries_view(out@) =~= Seq::empty());
    while out.len() < max_items
        invariant
            xml@.len() == n,
            pos <= n,
            views_of(titles@) == title_names(),
            views_of(descriptions@) == description_names(),
            views_of(dates@) == published_names(),
            extract_blocks(xml@, block_name@, max_items as int, 0, 0) == entries_view(out@)
                + extract_blocks(xml@, block_name@, max_items as int, pos as int, out@.len() as int),
        decreases n - pos,
    {
        let tag = match next_open_tag_at(xml, pos) {
            Some(t) => t,
            None => {
                assert(entries_view(out@) + Seq::empty() =~= entries_view(out@));
                return out;
            },
        };
        proof { lemma_next_open_tag_bounds(xml@, pos as int); }
        let q = copy_range(xml, tag.name_start, tag.name_end);
        let local = local_name_of(&q);
        if !chars_eq(&local, block_name) || tag.self_closing {
            pos = tag.after_tag;
            continue;
        }
        let needle = closing_needle(&q);
        let block_end = match find(xml, tag.after_tag, &needle) {
            Some(b) => b,
            None => {
                assert(entries_view(out@) + Seq::empty() =~= entries_view(out@));
                return out;
            },
        };
        proof { lemma_find_from_bounds(xml@, tag.after_tag as int, needle@); }
        let close_gt = match find_char(xml, block_end, '>') {
            Some(g) => g,
            None => {
                assert(entries_view(out@) + Seq::empty() =~= entries_view(out@));
                return out;
            },
        };
        proof { lemma_find_char_from_bounds(xml@, block_end as int, '>'); }
        let block = copy_range(xml, tag.after_tag, block_end);
        let title = field_text_of(&block, &titles);
        let description = field_text_of(&block, &descriptions);
        let published = field_text_of(&block, &dates);
        let entry = FeedEntry {
            title: string_of(&title),
            description: string_of(&description),
            published: string_of(&published),
        };
        let ghost before = out@;
        out.push(entry);
        proof {
            assert(entries_view(out@) =~= entries_view(before) + seq![block_fields(block@)]);
        }
        pos = close_gt + 1;
    }
    assert(entries_view(out@) + Seq::empty() =~= entries_view(out@));
    out
}

/// Extracts the entries of an RSS 2.0 or Atom 1.0 feed: the `<item>`
/// blocks, or the `<entry>` blocks when there are no items; at most
/// `max_items` entries. Malformed input yields fewer (possibly zero)
/// entries; nothing in the document is ever fetched or expanded.
pub fn extract_feed_entries(xml: &str, max_items: usize) -> (r: Vec<FeedEntry>)
    ensures
        entries_view(r@) == feed_entries(xml@, max_items as int),
{
    let chars = chars_of(xml);
    let item = ['i', 't', 'e', 'm'];
    let entry = ['e', 'n', 't', 'r', 'y'];
    assert(item@ =~= name_item());
    assert(entry@ =~= name_entry());
    let entries = extract_blocks_of(&chars, &item, max_items);
    if entries.len() == 0 {
        extract_blocks_of(&chars, &entry, max_items)
    } else {
        entries
    }
}


// ---------------------------------------------------------------------------
// Laws
// ---------------------------------------------------------------------------

proof fn lemma_extract_blocks_len(xml: Seq<char>, name: Seq<char>, max: int, pos: int, count: int)
    ensures
        count <= max ==> extract_blocks(xml, name, max, pos, count).len() <= max - count,
        count > max ==> extract_blocks(xml, name, max, pos, count).len() == 0,
    decreases xml.len() - pos,
{
    if count >= max || pos < 0 || pos > xml.len() {
    } else {
        match next_open_tag(xml, pos) {
            None => {},
            Some(t) => {
                let q = xml.subrange(t.0, t.1);
                if local_name(q) != name || t.3 {
                    if pos < t.2 <= xml.len() {
                        lemma_extract_blocks_len(xml, name, max, t.2, count);
                    }
                } else {
                    match find_from(xml, t.2, end_tag_open() + q) {
                        None => {},
                        Some(be) => match find_char_from(xml, be, '>') {
                            None => {},
                            Some(g) => if pos < t.2 <= be <= g < xml.len() {
                                lemma_extract_blocks_len(xml, name, max, g + 1, count + 1);
                            },
                        },
                    }
                }
            },
        }
    }
}

/// A feed never yields more than `max` entries (and none when `max` is 0).
pub proof fn law_feed_entries_bounded(xml: Seq<char>, max: int)
    requires
        0 <= max,
    ensures
        feed_entries(xml, max).len() <= max,
{
    lemma_extract_blocks_len(xml, name_item(), max, 0, 0);
    lemma_extract_blocks_len(xml, name_entry(), max, 0, 0);
}

/// Atom `<entry>` blocks are consulted only when the feed has no RSS
/// `<item>` entries; whenever it has some, those are the result.
pub proof fn law_items_take_precedence(xml: Seq<char>, max: int)
    ensures
        extract_blocks(xml, name_item(), max, 0, 0).len() > 0 ==> feed_entries(xml, max)
            == extract_blocks(xml, name_item(), max, 0, 0),
        extract_blocks(xml, name_item(), max, 0, 0).len() == 0 ==> feed_entries(xml, max)
            == extract_blocks(xml, name_entry(), max, 0, 0),
{
}

proof fn lemma_no_match_without_first_char(s: Seq<char>, pat: Seq<char>)
    requires
        pat.len() > 0,
        forall|j: int| 0 <= j < s.len() ==> s[j] != pat[0],
    ensures
        find_from(s, 0, pat) is None,
{
    lemma_find_from_bounds(s, 0, pat);
    if let Some(i) = find_from(s, 0, pat) {
        assert(s.subrange(i, i + pat.len())[0] == pat[0]);
    }
}

proof fn lemma_replace_all_absent(s: Seq<char>, pat: Seq<char>, rep: Seq<char>)
    requires
        pat.len() > 0,
        find_from(s, 0, pat) is None,
    ensures
        replace_all(s, pat, rep) == s,
{
}

/// Text holding none of the five predefined entity references is left
/// exactly as it is: in particular any other entity reference, such as a
/// reference to an entity declared in a DOCTYPE, passes through undecoded.
pub proof fn law_decode_entities_without_references(s: Seq<char>)
    requires
        find_from(s, 0, seq!['&', 'l', 't', ';']) is None,
        find_from(s, 0, seq!['&', 'g', 't', ';']) is None,
        find_from(s, 0, seq!['&', 'q', 'u', 'o', 't', ';']) is None,
        find_from(s, 0, seq!['&', 'a', 'p', 'o', 's', ';']) is None,
        find_from(s, 0, seq!['&', 'a', 'm', 'p', ';']) is None,
    ensures
        decode_entities(s) == s,
{
    reveal(decode_entities);
    lemma_replace_all_absent(s, seq!['&', 'l', 't', ';'], seq!['<']);
    lemma_replace_all_absent(s, seq!['&', 'g', 't', ';'], seq!['>']);
    lemma_replace_all_absent(s, seq!['&', 'q', 'u', 'o', 't', ';'], seq!['"']);
    lemma_replace_all_absent(s, seq!['&', 'a', 'p', 'o', 's', ';'], seq!['\'']);
    lemma_replace_all_absent(s, seq!['&', 'a', 'm', 'p', ';'], seq!['&']);
}

/// Element text with no `&` and no `<` is its own decoding.
pub proof fn law_plain_text_is_unchanged(s: Seq<char>)
    requires
        forall|j: int| 0 <= j < s.len() ==> s[j] != '&' && s[j] != '<',
    ensures
        decode_text(s) == s,
{
    lemma_no_match_without_first_char(s, cdata_open());
    lemma_no_match_without_first_char(s, seq!['&', 'l', 't', ';']);
    lemma_no_match_without_first_char(s, seq!['&', 'g', 't', ';']);
    lemma_no_match_without_first_char(s, seq!['&', 'q', 'u', 'o', 't', ';']);
    lemma_no_match_without_first_char(s, seq!['&', 'a', 'p', 'o', 's', ';']);
    lemma_no_match_without_first_char(s, seq!['&', 'a', 'm', 'p', ';']);
    law_decode_entities_without_references(s);
}

/// A document without a single `<` has no entries at all.
pub proof fn law_no_markup_no_entries(xml: Seq<char>, max: int)
    requires
        forall|j: int| 0 <= j < xml.len() ==> xml[j] != '<',
    ensures
        feed_entries(xml, max).len() == 0,
{
    lemma_find_char_from_bounds(xml, 0, '<');
    assert(next_open_tag(xml, 0) is None);
}

/// A local name never contains a namespace separator.
pub proof fn law_local_name_has_no_colon(q: Seq<char>)
    ensures
        forall|j: int| 0 <= j < local_name(q).len() ==> local_name(q)[j] != ':',
{
    lemma_rfind_char_below_bounds(q, q.len() as int, ':');
    match rfind_char_below(q, q.len() as int, ':') {
        Some(i) => {
            assert forall|j: int| 0 <= j < local_name(q).len() implies local_name(q)[j] != ':' by {
                assert(local_name(q)[j] == q[i + 1 + j]);
            }
        },
        None => {},
    }
}

} // verus!
