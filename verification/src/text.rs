//! Character-sequence helpers shared by the scanners: substring search,
//! replacement, and the conversions between `str`/`String` and `Vec<char>`.

use vstd::prelude::*;

verus! {

/// `pat` occurs in `hay` starting at index `i`.
pub open spec fn occurs_at(hay: Seq<char>, i: int, pat: Seq<char>) -> bool {
    0 <= i && i + pat.len() <= hay.len() && hay.subrange(i, i + pat.len()) =~= pat
}

/// The first index `>= from` at which `pat` occurs in `hay` (the semantics
/// of `str::find` applied to the suffix starting at `from`).
pub open spec fn find_from(hay: Seq<char>, from: int, pat: Seq<char>) -> Option<int>
    decreases hay.len() - from,
{
    if from < 0 || from + pat.len() > hay.len() {
        None
    } else if occurs_at(hay, from, pat) {
        Some(from)
    } else {
        find_from(hay, from + 1, pat)
    }
}

pub proof fn lemma_find_from_bounds(hay: Seq<char>, from: int, pat: Seq<char>)
    ensures
        find_from(hay, from, pat) matches Some(i) ==> from <= i && i + pat.len() <= hay.len()
            && occurs_at(hay, i, pat),
    decreases hay.len() - from,
{
    if from < 0 || from + pat.len() > hay.len() {
    } else if occurs_at(hay, from, pat) {
    } else {
        lemma_find_from_bounds(hay, from + 1, pat);
    }
}

/// Whether two character sequences are equal.
pub fn chars_eq(a: &[char], b: &[char]) -> (r: bool)
    ensures
        r == (a@ == b@),
{
    if a.len() != b.len() {
        return false;
    }
    let n = a.len();
    let mut i: usize = 0;
    while i < n
        invariant
            a@.len() == n,
            b@.len() == n,
            i <= n,
            forall|j: int| 0 <= j < i ==> a@[j] == b@[j],
        decreases n - i,
    {
        if a[i] != b[i] {
            return false;
        }
        i = i + 1;
    }
    assert(a@ =~= b@);
    true
}

/// The views of a sequence of character vectors.
pub open spec fn views_of(v: Seq<Vec<char>>) -> Seq<Seq<char>> {
    v.map_values(|x: Vec<char>| x@)
}

/// Whether `name` is one of `names`.
pub fn contains_chars(names: &[Vec<char>], name: &[char]) -> (r: bool)
    ensures
        r == views_of(names@).contains(name@),
{
    let n = names.len();
    let mut i: usize = 0;
    while i < n
        invariant
            names@.len() == n,
            i <= n,
            forall|j: int| 0 <= j < i ==> names@[j]@ != name@,
        decreases n - i,
    {
        if chars_eq(names[i].as_slice(), name) {
            assert(views_of(names@)[i as int] == name@);
            return true;
        }
        i = i + 1;
    }
    assert forall|k: int| 0 <= k < views_of(names@).len() implies views_of(names@)[k] != name@ by {
        assert(names@[k]@ != name@);
    }
    false
}

/// An optional index as a mathematical integer.
pub open spec fn opt_int(o: Option<usize>) -> Option<int> {
    match o {
        Some(u) => Some(u as int),
        None => None,
    }
}

/// Whether `pat` occurs in `hay` at index `i` (false when it would run past
/// the end).
pub fn starts_at(hay: &[char], i: usize, pat: &[char]) -> (b: bool)
    ensures
        b == occurs_at(hay@, i as int, pat@),
{
    if i > hay.len() || pat.len() > hay.len() - i {
        return false;
    }
    matches_at(hay, i, pat)
}

fn matches_at(hay: &[char], i: usize, pat: &[char]) -> (b: bool)
    requires
        i + pat@.len() <= hay@.len(),
    ensures
        b == occurs_at(hay@, i as int, pat@),
{
    let n = hay.len();
    let mut k: usize = 0;
    while k < pat.len()
        invariant
            k <= pat@.len(),
            i + pat@.len() <= hay@.len(),
            hay@.len() == n,
            forall|j: int| 0 <= j < k ==> hay@[i + j] == pat@[j],
        decreases pat@.len() - k,
    {
        if hay[i + k] != pat[k] {
            assert(hay@.subrange(i as int, i + pat@.len())[k as int] != pat@[k as int]);
            return false;
        }
        k = k + 1;
    }
    assert(hay@.subrange(i as int, i + pat@.len()) =~= pat@);
    true
}

/// First occurrence of `pat` in `hay` at or after `from`.
pub fn find(hay: &[char], from: usize, pat: &[char]) -> (r: Option<usize>)
    ensures
        opt_int(r) == find_from(hay@, from as int, pat@),
{
    if pat.len() > hay.len() {
        return None;
    }
    if pat.len() == 0 {
        if from <= hay.len() {
            assert(hay@.subrange(from as int, from as int) =~= pat@);
            return Some(from);
        }
        return None;
    }
    let n = hay.len();
    let last = n - pat.len();
    let mut i = from;
    while i <= last
        invariant
            last + pat@.len() == hay@.len(),
            hay@.len() == n,
            pat@.len() > 0,
            from <= i,
            find_from(hay@, from as int, pat@) == find_from(hay@, i as int, pat@),
        decreases last + 1 - i,
    {
        if matches_at(hay, i, pat) {
            return Some(i);
        }
        i = i + 1;
    }
    None
}


/// First index `>= from` holding the character `c`.
pub open spec fn find_char_from(hay: Seq<char>, from: int, c: char) -> Option<int>
    decreases hay.len() - from,
{
    if from < 0 || from >= hay.len() {
        None
    } else if hay[from] == c {
        Some(from)
    } else {
        find_char_from(hay, from + 1, c)
    }
}

pub proof fn lemma_find_char_from_bounds(hay: Seq<char>, from: int, c: char)
    requires
        0 <= from,
    ensures
        find_char_from(hay, from, c) matches Some(i) ==> from <= i < hay.len() && hay[i] == c,
        find_char_from(hay, from, c) is None ==> forall|j: int|
            from <= j < hay.len() ==> hay[j] != c,
    decreases hay.len() - from,
{
    if from < 0 || from >= hay.len() {
    } else if hay[from] == c {
    } else {
        lemma_find_char_from_bounds(hay, from + 1, c);
    }
}

/// First occurrence of the character `c` in `hay` at or after `from`.
pub fn find_char(hay: &[char], from: usize, c: char) -> (r: Option<usize>)
    ensures
        opt_int(r) == find_char_from(hay@, from as int, c),
{
    let n = hay.len();
    let mut i = from;
    while i < n
        invariant
            hay@.len() == n,
            from <= i,
            find_char_from(hay@, from as int, c) == find_char_from(hay@, i as int, c),
        decreases n - i,
    {
        if hay[i] == c {
            return Some(i);
        }
        i = i + 1;
    }
    None
}

/// Last index holding the character `c`.
pub open spec fn rfind_char_below(s: Seq<char>, end: int, c: char) -> Option<int>
    decreases end,
{
    if end <= 0 || end > s.len() {
        None
    } else if s[end - 1] == c {
        Some(end - 1)
    } else {
        rfind_char_below(s, end - 1, c)
    }
}

pub proof fn lemma_rfind_char_below_bounds(s: Seq<char>, end: int, c: char)
    requires
        end <= s.len(),
    ensures
        rfind_char_below(s, end, c) matches Some(i) ==> 0 <= i < end && s[i] == c && forall|j: int|
            i < j < end ==> s[j] != c,
        rfind_char_below(s, end, c) is None ==> forall|j: int| 0 <= j < end ==> s[j] != c,
    decreases end,
{
    if end <= 0 {
    } else if s[end - 1] == c {
    } else {
        lemma_rfind_char_below_bounds(s, end - 1, c);
    }
}

/// Last occurrence of the character `c` in `s`.
pub fn rfind_char(s: &[char], c: char) -> (r: Option<usize>)
    ensures
        opt_int(r) == rfind_char_below(s@, s@.len() as int, c),
{
    let mut end = s.len();
    while end > 0
        invariant
            end <= s@.len(),
            rfind_char_below(s@, s@.len() as int, c) == rfind_char_below(s@, end as int, c),
        decreases end,
    {
        if s[end - 1] == c {
            return Some(end - 1);
        }
        end = end - 1;
    }
    None
}

/// `s` with every non-overlapping occurrence of `pat` (scanned left to
/// right) replaced by `rep` — the semantics of `str::replace` for a
/// non-empty pattern.
pub open spec fn replace_all(s: Seq<char>, pat: Seq<char>, rep: Seq<char>) -> Seq<char>
    decreases s.len(),
{
    if pat.len() == 0 {
        s
    } else {
        match find_from(s, 0, pat) {
            Some(i) => if 0 <= i && i + pat.len() <= s.len() {
                s.subrange(0, i) + rep + replace_all(s.subrange(i + pat.len(), s.len() as int), pat, rep)
            } else {
                s
            },
            None => s,
        }
    }
}

/// Copy of `s[from..to]`.
pub fn copy_range(s: &[char], from: usize, to: usize) -> (r: Vec<char>)
    requires
        from <= to <= s@.len(),
    ensures
        r@ =~= s@.subrange(from as int, to as int),
{
    let mut r: Vec<char> = Vec::new();
    let mut i = from;
    while i < to
        invariant
            from <= i <= to,
            to <= s@.len(),
            r@ =~= s@.subrange(from as int, i as int),
        decreases to - i,
    {
        r.push(s[i]);
        i = i + 1;
    }
    r
}

/// Appends `s[from..to]` to `out`.
pub fn push_range(out: &mut Vec<char>, s: &[char], from: usize, to: usize)
    requires
        from <= to <= s@.len(),
    ensures
        final(out)@ =~= old(out)@ + s@.subrange(from as int, to as int),
{
    let mut i = from;
    while i < to
        invariant
            from <= i <= to,
            to <= s@.len(),
            out@ =~= old(out)@ + s@.subrange(from as int, i as int),
        decreases to - i,
    {
        out.push(s[i]);
        i = i + 1;
    }
}

/// Appends all of `s` to `out`.
pub fn push_all(out: &mut Vec<char>, s: &[char])
    ensures
        final(out)@ =~= old(out)@ + s@,
{
    push_range(out, s, 0, s.len());
    assert(s@.subrange(0, s@.len() as int) =~= s@);
}

/// `s` with every occurrence of `pat` replaced by `rep`.
pub fn replace(s: &[char], pat: &[char], rep: &[char]) -> (r: Vec<char>)
    requires
        pat@.len() > 0,
    ensures
        r@ == replace_all(s@, pat@, rep@),
{
    let mut out: Vec<char> = Vec::new();
    let mut pos: usize = 0;
    let n = s.len();
    assert(s@.subrange(0, n as int) =~= s@);
    while pos <= n
        invariant
            s@.len() == n,
            pat@.len() > 0,
            pos <= n,
            replace_all(s@, pat@, rep@) == out@ + replace_all(
                s@.subrange(pos as int, n as int),
                pat@,
                rep@,
            ),
        decreases n - pos,
    {
        let ghost rest = s@.subrange(pos as int, n as int);
        match find(s, pos, pat) {
            Some(i) => {
                proof {
                    lemma_find_from_bounds(s@, pos as int, pat@);
                    lemma_find_from_shift(s@, pos as int, pat@);
                    assert(rest.subrange(0, i - pos) =~= s@.subrange(pos as int, i as int));
                    assert(rest.subrange(i - pos + pat@.len(), rest.len() as int) =~= s@.subrange(
                        i + pat@.len(),
                        n as int,
                    ));
                }
                push_range(&mut out, s, pos, i);
                push_all(&mut out, rep);
                pos = i + pat.len();
            },
            None => {
                proof {
                    lemma_find_from_shift(s@, pos as int, pat@);
                }
                push_range(&mut out, s, pos, n);
                return out;
            },
        }
    }
    out
}

/// Searching a suffix from its start is searching the whole sequence from
/// the suffix's offset.
pub proof fn lemma_find_from_shift(s: Seq<char>, pos: int, pat: Seq<char>)
    requires
        0 <= pos <= s.len(),
    ensures
        find_from(s.subrange(pos, s.len() as int), 0, pat) == (match find_from(s, pos, pat) {
            Some(i) => Some(i - pos),
            None => None,
        }),
{
    lemma_find_from_shift_gen(s, pos, 0, pat);
}

pub proof fn lemma_find_from_shift_gen(s: Seq<char>, pos: int, k: int, pat: Seq<char>)
    requires
        0 <= pos <= s.len(),
        0 <= k,
    ensures
        find_from(s.subrange(pos, s.len() as int), k, pat) == (match find_from(s, pos + k, pat) {
            Some(i) => Some(i - pos),
            None => None,
        }),
    decreases s.len() - pos - k,
{
    let t = s.subrange(pos, s.len() as int);
    if k + pat.len() > t.len() {
    } else {
        assert(t.subrange(k, k + pat.len()) =~= s.subrange(pos + k, pos + k + pat.len()));
        if occurs_at(t, k, pat) {
        } else {
            lemma_find_from_shift_gen(s, pos, k + 1, pat);
        }
    }
}


/// The characters of `s`, in order.
pub fn chars_of(s: &str) -> (v: Vec<char>)
    ensures
        v@ == s@,
{
    broadcast use vstd::string::group_string_axioms;
    let mut v: Vec<char> = Vec::new();
    for c in it: s.chars()
        invariant
            v@ == it.seq().take(it.index() as int),
    {
        v.push(c);
    }
    assert(v@ =~= s@);
    v
}


/// The string holding exactly the characters of `v`.
///
/// Trusted: collects the characters with `Iterator::collect::<String>`;
/// the contract claims the resulting string's characters are `v`, in order.
#[verifier::external_body]
pub(crate) fn string_of(v: &[char]) -> (s: String)
    ensures
        s@ == v@,
{
    v.iter().collect()
}

/// What `char::is_whitespace` answers for `c`.
pub uninterp spec fn std_is_whitespace(c: char) -> bool;

/// Whether `c` has the Unicode `White_Space` property. Among ASCII
/// characters these are exactly space, tab, line feed, vertical tab, form
/// feed and carriage return (U+0009 to U+000D and U+0020).
pub open spec fn unicode_white_space(c: char) -> bool {
    if (c as int) < 0x80 {
        c == ' ' || (0x09 <= (c as int) && (c as int) <= 0x0d)
    } else {
        std_is_whitespace(c)
    }
}

/// Trusted: calls `char::is_whitespace`, which answers whether `c` has the
/// Unicode `White_Space` property; the contract states the ASCII part of
/// that property and names the answer for other characters.
#[verifier::external_body]
pub(crate) fn char_is_whitespace(c: char) -> (b: bool)
    ensures
        b == (if (c as int) < 0x80 { unicode_white_space(c) } else { std_is_whitespace(c) }),
{
    c.is_whitespace()
}


/// Index of the first character at or after `i` that is not white space.
pub open spec fn skip_white_from(s: Seq<char>, i: int) -> int
    decreases s.len() - i,
{
    if i < 0 || i >= s.len() {
        s.len() as int
    } else if unicode_white_space(s[i]) {
        skip_white_from(s, i + 1)
    } else {
        i
    }
}

/// Length of `s[..end]` once trailing white space is removed.
pub open spec fn white_trimmed_end(s: Seq<char>, end: int) -> int
    decreases end,
{
    if end <= 0 || end > s.len() {
        0
    } else if unicode_white_space(s[end - 1]) {
        white_trimmed_end(s, end - 1)
    } else {
        end
    }
}

/// `s` without trailing white space (`str::trim_end`).
pub open spec fn trim_end(s: Seq<char>) -> Seq<char> {
    s.subrange(0, white_trimmed_end(s, s.len() as int))
}

/// `s` without leading white space (`str::trim_start`).
pub open spec fn trim_start(s: Seq<char>) -> Seq<char> {
    s.subrange(skip_white_from(s, 0), s.len() as int)
}

/// `s` without leading or trailing white space (`str::trim`).
pub open spec fn trim(s: Seq<char>) -> Seq<char> {
    trim_end(trim_start(s))
}

pub proof fn lemma_skip_white_from_bounds(s: Seq<char>, i: int)
    requires
        0 <= i <= s.len(),
    ensures
        i <= skip_white_from(s, i) <= s.len(),
    decreases s.len() - i,
{
    if i < s.len() && unicode_white_space(s[i]) {
        lemma_skip_white_from_bounds(s, i + 1);
    }
}

pub proof fn lemma_white_trimmed_end_bounds(s: Seq<char>, end: int)
    requires
        0 <= end <= s.len(),
    ensures
        0 <= white_trimmed_end(s, end) <= end,
    decreases end,
{
    if end > 0 && unicode_white_space(s[end - 1]) {
        lemma_white_trimmed_end_bounds(s, end - 1);
    }
}

/// `s` without trailing white space.
pub fn trim_end_chars(s: &[char]) -> (r: Vec<char>)
    ensures
        r@ == trim_end(s@),
{
    let n = s.len();
    let mut end = n;
    while end > 0 && char_is_whitespace(s[end - 1])
        invariant
            end <= n,
            s@.len() == n,
            white_trimmed_end(s@, n as int) == white_trimmed_end(s@, end as int),
        decreases end,
    {
        end = end - 1;
    }
    copy_range(s, 0, end)
}

/// `s` without leading white space.
pub fn trim_start_chars(s: &[char]) -> (r: Vec<char>)
    ensures
        r@ == trim_start(s@),
{
    let n = s.len();
    let mut i: usize = 0;
    while i < n && char_is_whitespace(s[i])
        invariant
            i <= n,
            s@.len() == n,
            skip_white_from(s@, 0) == skip_white_from(s@, i as int),
        decreases n - i,
    {
        i = i + 1;
    }
    copy_range(s, i, n)
}

/// `s` without leading or trailing white space.
pub fn trim_chars(s: &[char]) -> (r: Vec<char>)
    ensures
        r@ == trim(s@),
{
    let a = trim_start_chars(s);
    trim_end_chars(&a)
}

/// The ASCII lowercase of `c` (other characters unchanged).
pub open spec fn ascii_lower(c: char) -> char {
    if 'A' <= c && c <= 'Z' {
        ((c as u32) + 32) as char
    } else {
        c
    }
}

/// `char::to_ascii_lowercase`.
pub fn ascii_lower_char(c: char) -> (r: char)
    ensures
        r == ascii_lower(c),
{
    if 'A' <= c && c <= 'Z' {
        ((c as u8) + 32) as char
    } else {
        c
    }
}

/// Whether `a` and `b` are equal ignoring ASCII case.
pub open spec fn eq_ignore_ascii_case(a: Seq<char>, b: Seq<char>) -> bool {
    a.len() == b.len() && forall|i: int| 0 <= i < a.len() ==> ascii_lower(a[i]) == ascii_lower(b[i])
}

/// `str::eq_ignore_ascii_case` on character sequences.
pub fn chars_eq_ignore_ascii_case(a: &[char], b: &[char]) -> (r: bool)
    ensures
        r == eq_ignore_ascii_case(a@, b@),
{
    if a.len() != b.len() {
        return false;
    }
    let n = a.len();
    let mut i: usize = 0;
    while i < n
        invariant
            a@.len() == n,
            b@.len() == n,
            i <= n,
            forall|j: int| 0 <= j < i ==> ascii_lower(a@[j]) == ascii_lower(b@[j]),
        decreases n - i,
    {
        if ascii_lower_char(a[i]) != ascii_lower_char(b[i]) {
            return false;
        }
        i = i + 1;
    }
    true
}


/// The ASCII uppercase of `c` (other characters unchanged).
pub open spec fn ascii_upper(c: char) -> char {
    if 'a' <= c && c <= 'z' {
        ((c as u32) - 32) as char
    } else {
        c
    }
}

/// `s` with its ASCII letters uppercased.
pub fn ascii_uppercase(s: &[char]) -> (r: Vec<char>)
    ensures
        r@ == s@.map_values(|c: char| ascii_upper(c)),
{
    let n = s.len();
    let mut out: Vec<char> = Vec::new();
    let mut i: usize = 0;
    while i < n
        invariant
            s@.len() == n,
            i <= n,
            out@ =~= s@.subrange(0, i as int).map_values(|c: char| ascii_upper(c)),
        decreases n - i,
    {
        let c = s[i];
        let u = if 'a' <= c && c <= 'z' { ((c as u8) - 32) as char } else { c };
        out.push(u);
        i = i + 1;
    }
    assert(s@.subrange(0, n as int) =~= s@);
    out
}

/// `s` with its ASCII letters lowercased.
pub fn ascii_lowercase(s: &[char]) -> (r: Vec<char>)
    ensures
        r@ == s@.map_values(|c: char| ascii_lower(c)),
{
    let n = s.len();
    let mut out: Vec<char> = Vec::new();
    let mut i: usize = 0;
    while i < n
        invariant
            s@.len() == n,
            i <= n,
            out@ =~= s@.subrange(0, i as int).map_values(|c: char| ascii_lower(c)),
        decreases n - i,
    {
        out.push(ascii_lower_char(s[i]));
        i = i + 1;
    }
    assert(s@.subrange(0, n as int) =~= s@);
    out
}

/// The pieces of `s[start..]` between occurrences of `sep`
/// (`str::split`).
pub open spec fn split_from(s: Seq<char>, start: int, sep: char) -> Seq<Seq<char>>
    decreases s.len() - start,
{
    if start < 0 || start > s.len() {
        Seq::empty()
    } else {
        match find_char_from(s, start, sep) {
            Some(i) => if start <= i < s.len() {
                seq![s.subrange(start, i)] + split_from(s, i + 1, sep)
            } else {
                Seq::empty()
            },
            None => seq![s.subrange(start, s.len() as int)],
        }
    }
}


/// The pieces of `s` between occurrences of `sep` (`str::split`).
pub fn split_pieces(s: &[char], sep: char) -> (r: Vec<Vec<char>>)
    ensures
        views_of(r@) == split_from(s@, 0, sep),
{
    let n = s.len();
    let mut out: Vec<Vec<char>> = Vec::new();
    let mut start: usize = 0;
    assert(views_of(out@) =~= Seq::<Seq<char>>::empty());
    loop
        invariant
            s@.len() == n,
            start <= n,
            split_from(s@, 0, sep) == views_of(out@) + split_from(s@, start as int, sep),
        decreases n - start,
    {
        proof { lemma_find_char_from_bounds(s@, start as int, sep); }
        let (end, last) = match find_char(s, start, sep) {
            Some(i) => (i, false),
            None => (n, true),
        };
        let piece = copy_range(s, start, end);
        let ghost before = views_of(out@);
        out.push(piece);
        assert(views_of(out@) =~= before.push(s@.subrange(start as int, end as int)));
        if last {
            assert(split_from(s@, start as int, sep) =~= seq![s@.subrange(start as int, n as int)]);
            assert(views_of(out@) + Seq::<Seq<char>>::empty() =~= views_of(out@));
            assert(split_from(s@, 0, sep) =~= views_of(out@));
            return out;
        }
        assert(before + split_from(s@, start as int, sep) =~= views_of(out@) + split_from(
            s@,
            end + 1,
            sep,
        ));
        start = end + 1;
    }
}


/// Whether every character of `s` is ASCII.
pub open spec fn all_ascii(s: Seq<char>) -> bool {
    forall|i: int| 0 <= i < s.len() ==> (s[i] as int) < 0x80
}

/// What `str::to_lowercase` produces for `s`.
pub uninterp spec fn std_to_lowercase(s: Seq<char>) -> Seq<char>;

/// The Unicode lowercase of `s` (full case mapping; one character may map
/// to several). On ASCII text it maps `A`-`Z` to `a`-`z` and keeps the rest.
pub open spec fn unicode_lowercase(s: Seq<char>) -> Seq<char> {
    if all_ascii(s) {
        s.map_values(|c: char| ascii_lower(c))
    } else {
        std_to_lowercase(s)
    }
}

/// Trusted: calls `str::to_lowercase`; the contract states the ASCII case
/// mapping and names the result for other text.
#[verifier::external_body]
pub(crate) fn to_lowercase(s: &str) -> (r: String)
    ensures
        r@ == (if all_ascii(s@) { unicode_lowercase(s@) } else { std_to_lowercase(s@) }),
{
    s.to_lowercase()
}

/// What `str::to_uppercase` produces for `s`.
pub uninterp spec fn std_to_uppercase(s: Seq<char>) -> Seq<char>;

/// The Unicode uppercase of `s` (full case mapping; one character may map
/// to several). On ASCII text it maps `a`-`z` to `A`-`Z` and keeps the rest.
pub open spec fn unicode_uppercase(s: Seq<char>) -> Seq<char> {
    if all_ascii(s) {
        s.map_values(|c: char| ascii_upper(c))
    } else {
        std_to_uppercase(s)
    }
}

/// Trusted: calls `str::to_uppercase`; the contract states the ASCII case
/// mapping and names the result for other text.
#[verifier::external_body]
pub(crate) fn to_uppercase(s: &str) -> (r: String)
    ensures
        r@ == (if all_ascii(s@) { unicode_uppercase(s@) } else { std_to_uppercase(s@) }),
{
    s.to_uppercase()
}

/// What `char::is_alphanumeric` answers for `c`.
pub uninterp spec fn std_is_alphanumeric(c: char) -> bool;

/// Whether `c` is alphabetic or numeric in Unicode. Among ASCII characters
/// these are exactly `0`-`9`, `A`-`Z` and `a`-`z`.
pub open spec fn unicode_alphanumeric(c: char) -> bool {
    if (c as int) < 0x80 {
        ('0' <= c && c <= '9') || ('A' <= c && c <= 'Z') || ('a' <= c && c <= 'z')
    } else {
        std_is_alphanumeric(c)
    }
}

/// Trusted: calls `char::is_alphanumeric`; the contract states the ASCII
/// part of the answer and names it for other characters.
#[verifier::external_body]
pub(crate) fn char_is_alphanumeric(c: char) -> (b: bool)
    ensures
        b == (if (c as int) < 0x80 { unicode_alphanumeric(c) } else { std_is_alphanumeric(c) }),
{
    c.is_alphanumeric()
}

/// The first `max` characters of `s` (all of them when there are fewer).
pub open spec fn take_chars(s: Seq<char>, max: int) -> Seq<char> {
    if s.len() <= max {
        s
    } else {
        s.subrange(0, max)
    }
}

/// The first `max` characters of `s`.
pub fn truncate_chars(s: &str, max: usize) -> (r: String)
    ensures
        r@ == take_chars(s@, max as int),
{
    let c = chars_of(s);
    let end = if c.len() <= max { c.len() } else { max };
    let t = copy_range(&c, 0, end);
    assert(c@.len() <= max ==> t@ =~= c@);
    string_of(&t)
}

/// `a`, then `b`.
pub fn concat(a: &str, b: &str) -> (r: String)
    ensures
        r@ == a@ + b@,
{
    let mut v = chars_of(a);
    let w = chars_of(b);
    let mut i: usize = 0;
    while i < w.len()
        invariant
            i <= w@.len(),
            v@ == a@ + w@.subrange(0, i as int),
        decreases w@.len() - i,
    {
        v.push(w[i]);
        i = i + 1;
        assert(v@ =~= a@ + w@.subrange(0, i as int));
    }
    assert(w@.subrange(0, w@.len() as int) =~= w@);
    string_of(&v)
}

/// The decimal digits of `n`, most significant first.
pub open spec fn nat_text(n: nat) -> Seq<char>
    decreases n,
{
    if n < 10 {
        seq![((n + 48) as u8) as char]
    } else {
        nat_text(n / 10).push((((n % 10) + 48) as u8) as char)
    }
}

/// The decimal text of `n`, with a leading `-` when it is negative.
pub open spec fn int_text(n: int) -> Seq<char> {
    if n < 0 {
        seq!['-'] + nat_text((-n) as nat)
    } else {
        nat_text(n as nat)
    }
}

fn push_nat(out: &mut Vec<char>, n: u64)
    ensures
        final(out)@ == old(out)@ + nat_text(n as nat),
    decreases n,
{
    if n >= 10 {
        push_nat(out, n / 10);
    }
    let d = (n % 10) as u8;
    out.push((d + 48) as char);
    proof {
        if n < 10 {
            assert(final(out)@ =~= old(out)@ + nat_text(n as nat)) by {
                assert(d == n);
            }
        }
    }
}

/// The decimal text of `n` (what `Display` prints for an integer).
pub fn int_to_text(n: i64) -> (r: String)
    ensures
        r@ == int_text(n as int),
{
    let mut v: Vec<char> = Vec::new();
    if n < 0 {
        v.push('-');
        let m: u64 = if n == i64::MIN { 9223372036854775808u64 } else { (-n) as u64 };
        push_nat(&mut v, m);
    } else {
        push_nat(&mut v, n as u64);
    }
    string_of(&v)
}

/// The decimal text of the unsigned `n`.
pub fn nat_to_text(n: u64) -> (r: String)
    ensures
        r@ == nat_text(n as nat),
{
    let mut v: Vec<char> = Vec::new();
    push_nat(&mut v, n);
    string_of(&v)
}

} // verus!
