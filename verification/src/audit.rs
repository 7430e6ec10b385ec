//! The source audit: a line-by-line scan of a Rust source file's
//! production code (everything before its first `mod tests` line) for
//! anything that names or builds an order-placement request, or uses a
//! mutating HTTP verb. Reading files and walking directories is left to
//! the caller; this module decides what a file's text violates.

use vstd::prelude::*;
use crate::text::{
    ascii_lower, ascii_lowercase, chars_of, concat, find, find_from, lemma_find_char_from_bounds,
    occurs_at, replace, replace_all, split_from, split_pieces, starts_at, string_of,
    trim_start, trim_start_chars, views_of,
};

verus! {

/// One forbidden pattern found on one line.
#[derive(Debug, Clone)]
pub struct Violation {
    pub path: String,
    pub line_number: usize,
    pub line: String,
    pub reason: String,
}

/// A [`Violation`] as a mathematical value.
pub struct ViolationView {
    pub path: Seq<char>,
    pub line_number: int,
    pub line: Seq<char>,
    pub reason: Seq<char>,
}

impl View for Violation {
    type V = ViolationView;

    open spec fn view(&self) -> ViolationView {
        ViolationView {
            path: self.path@,
            line_number: self.line_number as int,
            line: self.line@,
            reason: self.reason@,
        }
    }
}

/// The views of a sequence of violations.
pub open spec fn violation_views(v: Seq<Violation>) -> Seq<ViolationView> {
    v.map_values(|x: Violation| x@)
}

/// Substrings that only order-placement code would contain; matched
/// against the ASCII-lowercased line.
pub open spec fn forbidden_substrings() -> Seq<Seq<char>> {
    seq!["place_order"@, "submit_order"@, "cancel_order"@, "/v2/orders"@, "orders/place"@]
}

/// HTTP calls that can change remote state; matched as written.
pub open spec fn mutating_verbs() -> Seq<Seq<char>> {
    seq!["ureq::put("@, "ureq::patch("@, "ureq::delete("@]
}

/// The one file allowed to make a `ureq::post(` call.
pub open spec fn allowed_post_suffix() -> Seq<char> {
    "smart-hedge-model-advisor/src/openai.rs"@
}

/// Whether `pat` occurs anywhere in `hay`.
pub open spec fn contains(hay: Seq<char>, pat: Seq<char>) -> bool {
    find_from(hay, 0, pat) is Some
}

/// Whether `s` ends with `suffix`.
pub open spec fn ends_with(s: Seq<char>, suffix: Seq<char>) -> bool {
    suffix.len() <= s.len() && occurs_at(s, s.len() - suffix.len(), suffix)
}

pub open spec fn forbidden_reason(needle: Seq<char>) -> Seq<char> {
    "contains forbidden order-related substring \""@ + needle + "\""@
}

pub open spec fn verb_reason(verb: Seq<char>) -> Seq<char> {
    "mutating HTTP verb "@ + verb + " is never expected anywhere in this codebase"@
}

pub open spec fn post_reason() -> Seq<char> {
    "ureq::post( used outside the one allowed file (OpenAI Responses API)"@
}

/// One violation per pattern of `needles[k..]` that occurs in `hay`, in
/// order; `verbs` picks the wording of the reason.
pub open spec fn needle_hits(
    path: Seq<char>,
    number: int,
    line: Seq<char>,
    hay: Seq<char>,
    needles: Seq<Seq<char>>,
    k: int,
    verbs: bool,
) -> Seq<ViolationView>
    decreases needles.len() - k,
{
    if k < 0 || k >= needles.len() {
        Seq::empty()
    } else {
        let here = if contains(hay, needles[k]) {
            seq![
                ViolationView {
                    path,
                    line_number: number,
                    line,
                    reason: if verbs { verb_reason(needles[k]) } else { forbidden_reason(needles[k]) },
                },
            ]
        } else {
            Seq::empty()
        };
        here + needle_hits(path, number, line, hay, needles, k + 1, verbs)
    }
}

/// The violations on line `number` (counted from 1): the forbidden
/// substrings in its lowercase form, then `ureq::post(` unless the file is
/// the allowed one, then the mutating verbs.
pub open spec fn line_violations(path: Seq<char>, number: int, line: Seq<char>, post_allowed: bool) -> Seq<ViolationView> {
    let lower = line.map_values(|c: char| ascii_lower(c));
    let post = if !post_allowed && contains(line, "ureq::post("@) {
        seq![ViolationView { path, line_number: number, line, reason: post_reason() }]
    } else {
        Seq::empty()
    };
    needle_hits(path, number, line, lower, forbidden_substrings(), 0, false) + post + needle_hits(
        path,
        number,
        line,
        line,
        mutating_verbs(),
        0,
        true,
    )
}

/// Whether `line` opens the test module: after leading white space, it
/// starts with `mod tests` or `pub mod tests`.
pub open spec fn opens_test_module(line: Seq<char>) -> bool {
    occurs_at(trim_start(line), 0, "mod tests"@) || occurs_at(trim_start(line), 0, "pub mod tests"@)
}

/// The violations of `lines[i..]`, stopping at the first line that opens
/// the test module.
pub open spec fn scan_lines(path: Seq<char>, lines: Seq<Seq<char>>, i: int, post_allowed: bool) -> Seq<ViolationView>
    decreases lines.len() - i,
{
    if i < 0 || i >= lines.len() || opens_test_module(lines[i]) {
        Seq::empty()
    } else {
        line_violations(path, i + 1, lines[i], post_allowed) + scan_lines(path, lines, i + 1, post_allowed)
    }
}

/// `l` without one trailing carriage return.
pub open spec fn without_cr(l: Seq<char>) -> Seq<char> {
    if l.len() > 0 && l.last() == '\r' {
        l.drop_last()
    } else {
        l
    }
}

/// The lines of `text` (`str::lines`): split at `\n`, with a `\r` just
/// before a `\n` removed, and no line after a final `\n`.
pub open spec fn text_lines(text: Seq<char>) -> Seq<Seq<char>> {
    let pieces = split_from(text, 0, '\n');
    let body = pieces.drop_last().map_values(|l: Seq<char>| without_cr(l));
    if pieces.last().len() == 0 {
        body
    } else {
        body.push(pieces.last())
    }
}

/// The violations in the production code of the file at `path` whose text
/// is `text`.
pub open spec fn file_violations(path: Seq<char>, text: Seq<char>) -> Seq<ViolationView> {
    let normalized = replace_all(path, seq!['\\'], seq!['/']);
    scan_lines(path, text_lines(text), 0, ends_with(normalized, allowed_post_suffix()))
}

proof fn lemma_split_from_nonempty(s: Seq<char>, start: int, sep: char)
    requires
        0 <= start <= s.len(),
    ensures
        split_from(s, start, sep).len() >= 1,
    decreases s.len() - start,
{
    lemma_find_char_from_bounds(s, start, sep);
    match crate::text::find_char_from(s, start, sep) {
        Some(i) => {
            lemma_split_from_nonempty(s, i + 1, sep);
        },
        None => {},
    }
}

fn push_hits(
    out: &mut Vec<Violation>,
    path: &str,
    number: usize,
    line: &[char],
    hay: &[char],
    needles: &Vec<Vec<char>>,
    verbs: bool,
)
    ensures
        violation_views(final(out)@) == violation_views(old(out)@) + needle_hits(
            path@,
            number as int,
            line@,
            hay@,
            views_of(needles@),
            0,
            verbs,
        ),
{
    let ghost nv = views_of(needles@);
    let ghost start = violation_views(out@);
    let n = needles.len();
    let mut k: usize = 0;
    while k < n
        invariant
            n == needles@.len(),
            nv == views_of(needles@),
            k <= n,
            violation_views(out@) + needle_hits(path@, number as int, line@, hay@, nv, k as int, verbs)
                == start + needle_hits(path@, number as int, line@, hay@, nv, 0, verbs),
        decreases n - k,
    {
        let needle = &needles[k];
        assert(needle@ == nv[k as int]);
        let ghost before = violation_views(out@);
        if find(hay, 0, needle).is_some() {
            let text = string_of(needle);
            let reason = if verbs {
                let a = concat("mutating HTTP verb ", text.as_str());
                concat(a.as_str(), " is never expected anywhere in this codebase")
            } else {
                let a = concat("contains forbidden order-related substring \"", text.as_str());
                concat(a.as_str(), "\"")
            };
            let v = Violation { path: path.to_owned(), line_number: number, line: string_of(line), reason };
            out.push(v);
            assert(violation_views(out@) =~= before + seq![v@]);
        }
        k = k + 1;
    }
}

fn push_line_violations(out: &mut Vec<Violation>, path: &str, number: usize, line: &[char], post_allowed: bool)
    ensures
        violation_views(final(out)@) == violation_views(old(out)@) + line_violations(
            path@,
            number as int,
            line@,
            post_allowed,
        ),
{
    let ghost start = violation_views(out@);
    let lower = ascii_lowercase(line);
    let forbidden = vec![
        chars_of("place_order"),
        chars_of("submit_order"),
        chars_of("cancel_order"),
        chars_of("/v2/orders"),
        chars_of("orders/place"),
    ];
    assert(views_of(forbidden@) =~= forbidden_substrings());
    let verbs = vec![chars_of("ureq::put("), chars_of("ureq::patch("), chars_of("ureq::delete(")];
    assert(views_of(verbs@) =~= mutating_verbs());
    push_hits(out, path, number, line, &lower, &forbidden, false);
    let ghost mid = violation_views(out@);
    let post = chars_of("ureq::post(");
    if !post_allowed && find(line, 0, &post).is_some() {
        let v = Violation {
            path: path.to_owned(),
            line_number: number,
            line: string_of(line),
            reason: "ureq::post( used outside the one allowed file (OpenAI Responses API)".to_owned(),
        };
        out.push(v);
        assert(violation_views(out@) =~= mid + seq![v@]);
    }
    push_hits(out, path, number, line, line, &verbs, true);
    let ghost lv = line_violations(path@, number as int, line@, post_allowed);
    assert(violation_views(out@) =~= start + lv);
}

/// Whether `s` ends with `suffix`.
fn ends_with_chars(s: &[char], suffix: &[char]) -> (r: bool)
    ensures
        r == ends_with(s@, suffix@),
{
    if suffix.len() > s.len() {
        return false;
    }
    starts_at(s, s.len() - suffix.len(), suffix)
}

fn without_cr_chars(l: &[char]) -> (r: Vec<char>)
    ensures
        r@ == without_cr(l@),
{
    let n = l.len();
    if n > 0 && l[n - 1] == '\r' {
        crate::text::copy_range(l, 0, n - 1)
    } else {
        crate::text::copy_range(l, 0, n)
    }
}

/// The violations in the production code of the file at `path` whose text
/// is `text`: every line before the first one that opens a test module is
/// checked for the forbidden substrings (ignoring ASCII case), for
/// `ureq::post(` outside the one allowed file, and for the mutating HTTP
/// verbs.
pub fn scan_text(path: &str, text: &str) -> (r: Vec<Violation>)
    ensures
        violation_views(r@) == file_violations(path@, text@),
{
    let pc = chars_of(path);
    let backslash_arr = ['\\'];
    let slash_arr = ['/'];
    let backslash: &[char] = &backslash_arr;
    let slash: &[char] = &slash_arr;
    assert(backslash@ =~= seq!['\\']);
    assert(slash@ =~= seq!['/']);
    let normalized = replace(&pc, backslash, slash);
    let suffix = chars_of("smart-hedge-model-advisor/src/openai.rs");
    let post_allowed = ends_with_chars(&normalized, &suffix);
    let tc = chars_of(text);
    let pieces = split_pieces(&tc, '\n');
    let ghost pv = views_of(pieces@);
    let ghost lines = text_lines(text@);
    proof {
        lemma_split_from_nonempty(text@, 0, '\n');
    }
    let np = pieces.len();
    let count = if pieces[np - 1].len() == 0 { np - 1 } else { np };
    assert(lines.len() == count);
    let mut out: Vec<Violation> = Vec::new();
    let mut i: usize = 0;
    assert(violation_views(out@) =~= Seq::<ViolationView>::empty());
    while i < count
        invariant
            np == pieces@.len(),
            np >= 1,
            pv == views_of(pieces@),
            pv == split_from(text@, 0, '\n'),
            lines == text_lines(text@),
            post_allowed == ends_with(replace_all(path@, seq!['\\'], seq!['/']), allowed_post_suffix()),
            count == lines.len(),
            count <= np,
            forall|j: int| 0 <= j < count ==> #[trigger] lines[j] == (if j + 1 < np { without_cr(pv[j]) } else { pv[j] }),
            i <= count,
            violation_views(out@) + scan_lines(path@, lines, i as int, post_allowed) == scan_lines(
                path@,
                lines,
                0,
                post_allowed,
            ),
        decreases count - i,
    {
        let line = if i + 1 < np { without_cr_chars(&pieces[i]) } else { crate::text::copy_range(&pieces[i], 0, pieces[i].len()) };
        assert(line@ == lines[i as int]);
        let trimmed = trim_start_chars(&line);
        if starts_at(&trimmed, 0, &chars_of("mod tests")) || starts_at(&trimmed, 0, &chars_of("pub mod tests")) {
            assert(violation_views(out@) + Seq::<ViolationView>::empty() =~= violation_views(out@));
            return out;
        }
        let ghost before = violation_views(out@);
        push_line_violations(&mut out, path, i + 1, &line, post_allowed);
        assert(before + scan_lines(path@, lines, i as int, post_allowed) =~= violation_views(out@)
            + scan_lines(path@, lines, i + 1, post_allowed));
        i = i + 1;
    }
    assert(violation_views(out@) + Seq::<ViolationView>::empty() =~= violation_views(out@));
    out
}

proof fn lemma_needle_hits_shape(
    path: Seq<char>,
    number: int,
    line: Seq<char>,
    hay: Seq<char>,
    needles: Seq<Seq<char>>,
    k: int,
    verbs: bool,
)
    ensures
        forall|j: int|
            0 <= j < needle_hits(path, number, line, hay, needles, k, verbs).len() ==> {
                let v = #[trigger] needle_hits(path, number, line, hay, needles, k, verbs)[j];
                v.line_number == number && v.line == line && v.reason != post_reason()
            },
    decreases needles.len() - k,
{
    if 0 <= k < needles.len() {
        lemma_needle_hits_shape(path, number, line, hay, needles, k + 1, verbs);
        let rest = needle_hits(path, number, line, hay, needles, k + 1, verbs);
        let all = needle_hits(path, number, line, hay, needles, k, verbs);
        reveal_strlit("contains forbidden order-related substring \"");
        reveal_strlit("mutating HTTP verb ");
        reveal_strlit("ureq::post( used outside the one allowed file (OpenAI Responses API)");
        assert forall|j: int| 0 <= j < all.len() implies {
            let v = #[trigger] all[j];
            v.line_number == number && v.line == line && v.reason != post_reason()
        } by {
            if contains(hay, needles[k]) {
                if j > 0 {
                    assert(all[j] == rest[j - 1]);
                } else {
                    let r = all[0].reason;
                    if verbs {
                        assert(r[0] == 'm');
                    } else {
                        assert(r[0] == 'c');
                    }
                    assert(post_reason()[0] == 'u');
                }
            } else {
                assert(all[j] == rest[j]);
            }
        }
    }
}

proof fn lemma_scan_lines_shape(path: Seq<char>, lines: Seq<Seq<char>>, i: int, post_allowed: bool)
    requires
        0 <= i,
    ensures
        forall|j: int|
            0 <= j < scan_lines(path, lines, i, post_allowed).len() ==> {
                let v = #[trigger] scan_lines(path, lines, i, post_allowed)[j];
                &&& i + 1 <= v.line_number <= lines.len()
                &&& v.line == lines[v.line_number - 1]
                &&& forall|m: int| i <= m < v.line_number ==> !opens_test_module(lines[m])
                &&& post_allowed ==> v.reason != post_reason()
            },
    decreases lines.len() - i,
{
    if i < lines.len() && !opens_test_module(lines[i]) {
        lemma_scan_lines_shape(path, lines, i + 1, post_allowed);
        let lower = lines[i].map_values(|c: char| ascii_lower(c));
        lemma_needle_hits_shape(path, i + 1, lines[i], lower, forbidden_substrings(), 0, false);
        lemma_needle_hits_shape(path, i + 1, lines[i], lines[i], mutating_verbs(), 0, true);
        let a = needle_hits(path, i + 1, lines[i], lower, forbidden_substrings(), 0, false);
        let post = if !post_allowed && contains(lines[i], "ureq::post("@) {
            seq![ViolationView { path, line_number: i + 1, line: lines[i], reason: post_reason() }]
        } else {
            Seq::empty()
        };
        let b = needle_hits(path, i + 1, lines[i], lines[i], mutating_verbs(), 0, true);
        let here = line_violations(path, i + 1, lines[i], post_allowed);
        assert(here == a + post + b);
        let rest = scan_lines(path, lines, i + 1, post_allowed);
        let all = scan_lines(path, lines, i, post_allowed);
        assert(all == here + rest);
        assert forall|j: int| 0 <= j < all.len() implies {
            let v = #[trigger] all[j];
            &&& i + 1 <= v.line_number <= lines.len()
            &&& v.line == lines[v.line_number - 1]
            &&& forall|m: int| i <= m < v.line_number ==> !opens_test_module(lines[m])
            &&& post_allowed ==> v.reason != post_reason()
        } by {
            if j < a.len() {
                assert(all[j] == a[j]);
            } else if j < a.len() + post.len() {
                assert(all[j] == post[j - a.len()]);
            } else if j < here.len() {
                assert(all[j] == b[j - a.len() - post.len()]);
            } else {
                assert(all[j] == rest[j - here.len()]);
            }
        }
    }
}

/// Only production code is scanned, and every violation points at a real
/// line: its number is a line of the text, it quotes that line, and no
/// line up to it opens the test module.
pub proof fn law_violations_come_before_the_test_module(path: Seq<char>, text: Seq<char>)
    ensures
        forall|j: int|
            0 <= j < file_violations(path, text).len() ==> {
                let v = #[trigger] file_violations(path, text)[j];
                let lines = text_lines(text);
                &&& 1 <= v.line_number <= lines.len()
                &&& v.line == lines[v.line_number - 1]
                &&& forall|m: int| 0 <= m < v.line_number ==> !opens_test_module(lines[m])
            },
{
    let normalized = replace_all(path, seq!['\\'], seq!['/']);
    lemma_scan_lines_shape(path, text_lines(text), 0, ends_with(normalized, allowed_post_suffix()));
}

/// The one allowed file may call `ureq::post(`: no violation found in a
/// file whose path ends with that file's path is about `ureq::post(`.
pub proof fn law_post_allowed_in_the_advisor_file(path: Seq<char>, text: Seq<char>)
    requires
        ends_with(replace_all(path, seq!['\\'], seq!['/']), allowed_post_suffix()),
    ensures
        forall|j: int|
            0 <= j < file_violations(path, text).len() ==> (#[trigger] file_violations(path, text)[j]).reason
                != post_reason(),
{
    lemma_scan_lines_shape(path, text_lines(text), 0, true);
}

} // verus!
