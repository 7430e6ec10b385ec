//! Path handling on `/`-separated path text: `~` expansion, lexical
//! normalization (no filesystem access, no symlink resolution), resolution
//! of configured paths against the configuration directory, and the fixed
//! locations of the C++ core. The home directory and the platform are
//! supplied by the caller.

use vstd::prelude::*;
use crate::text::{
    chars_eq, chars_of, copy_range, find_char_from, lemma_find_char_from_bounds, occurs_at, push_all, split_from,
    split_pieces, starts_at, string_of, views_of,
};

verus! {

/// `a` joined with `b` as `Path::join` does: an absolute `b` replaces `a`;
/// otherwise a `/` is inserted unless `a` is empty or already ends in one.
pub open spec fn join(a: Seq<char>, b: Seq<char>) -> Seq<char> {
    if b.len() > 0 && b[0] == '/' {
        b
    } else if a.len() == 0 || a[a.len() - 1] == '/' {
        a + b
    } else {
        a + seq!['/'] + b
    }
}

/// `a` joined with `b`.
pub fn join_path(a: &[char], b: &[char]) -> (r: Vec<char>)
    ensures
        r@ == join(a@, b@),
{
    if b.len() > 0 && b[0] == '/' {
        return copy_range(b, 0, b.len());
    }
    let mut out: Vec<char> = Vec::new();
    push_all(&mut out, a);
    if !(a.len() == 0 || a[a.len() - 1] == '/') {
        out.push('/');
    }
    push_all(&mut out, b);
    out
}

/// `~` expanded against `home`: a bare `~` becomes the home directory and
/// `~/rest` (or `~\rest`) becomes the home directory joined with `rest`;
/// without a home directory, or for anything else, the path is unchanged.
pub open spec fn expanded(raw: Seq<char>, home: Option<Seq<char>>) -> Seq<char> {
    if raw == seq!['~'] {
        match home {
            Some(h) => h,
            None => raw,
        }
    } else if (occurs_at(raw, 0, seq!['~', '/']) || occurs_at(raw, 0, seq!['~', '\\']))
        && home is Some {
        join(home->0, raw.subrange(2, raw.len() as int))
    } else {
        raw
    }
}

/// Expands a leading `~` in `raw` against the home directory `home`.
pub fn expand_user(raw: &str, home: Option<&str>) -> (r: String)
    ensures
        r@ == expanded(raw@, match home {
            Some(h) => Some(h@),
            None => None,
        }),
{
    let chars = chars_of(raw);
    let tilde = ['~'];
    let slash = ['~', '/'];
    let back = ['~', '\\'];
    assert(tilde@ =~= seq!['~']);
    assert(slash@ =~= seq!['~', '/']);
    assert(back@ =~= seq!['~', '\\']);
    if chars_eq(&chars, &tilde) {
        return match home {
            Some(h) => string_of(&chars_of(h)),
            None => string_of(&chars),
        };
    }
    if starts_at(&chars, 0, &slash) || starts_at(&chars, 0, &back) {
        if let Some(h) = home {
            let home_chars = chars_of(h);
            let rest = copy_range(&chars, 2, chars.len());
            let joined = join_path(&home_chars, &rest);
            return string_of(&joined);
        }
    }
    string_of(&chars)
}

/// The components of a path that name something: the `/`-separated pieces
/// that are neither empty nor `.`.
pub open spec fn path_pieces(pieces: Seq<Seq<char>>) -> Seq<Seq<char>>
    decreases pieces.len(),
{
    if pieces.len() == 0 {
        Seq::empty()
    } else {
        let rest = path_pieces(pieces.drop_last());
        let p = pieces.last();
        if p.len() == 0 || p == seq!['.'] {
            rest
        } else {
            rest.push(p)
        }
    }
}

/// The components left after applying each `..` to the components before
/// it (a `..` with nothing before it is dropped).
pub open spec fn normalized_components(pieces: Seq<Seq<char>>) -> Seq<Seq<char>>
    decreases pieces.len(),
{
    if pieces.len() == 0 {
        Seq::empty()
    } else {
        let rest = normalized_components(pieces.drop_last());
        let p = pieces.last();
        if p == seq!['.', '.'] {
            if rest.len() > 0 {
                rest.drop_last()
            } else {
                rest
            }
        } else {
            rest.push(p)
        }
    }
}

/// Components joined with `/`.
pub open spec fn join_components(comps: Seq<Seq<char>>) -> Seq<char>
    decreases comps.len(),
{
    if comps.len() == 0 {
        Seq::empty()
    } else if comps.len() == 1 {
        comps[0]
    } else {
        join_components(comps.drop_last()) + seq!['/'] + comps.last()
    }
}

/// `path` with `.` and `..` collapsed lexically: absolute stays absolute,
/// empty and `.` components vanish, `..` removes the component before it.
pub open spec fn normalized(path: Seq<char>) -> Seq<char> {
    let comps = normalized_components(path_pieces(split_from(path, 0, '/')));
    if path.len() > 0 && path[0] == '/' {
        seq!['/'] + join_components(comps)
    } else {
        join_components(comps)
    }
}

proof fn lemma_path_pieces_push(a: Seq<Seq<char>>, p: Seq<char>)
    ensures
        path_pieces(a.push(p)) == (if p.len() == 0 || p == seq!['.'] {
            path_pieces(a)
        } else {
            path_pieces(a).push(p)
        }),
{
    assert(a.push(p).drop_last() =~= a);
}

proof fn lemma_normalized_components_push(a: Seq<Seq<char>>, p: Seq<char>)
    ensures
        normalized_components(a.push(p)) == (if p == seq!['.', '.'] {
            if normalized_components(a).len() > 0 {
                normalized_components(a).drop_last()
            } else {
                normalized_components(a)
            }
        } else {
            normalized_components(a).push(p)
        }),
{
    assert(a.push(p).drop_last() =~= a);
}

/// Collapses `.`/`..` components purely lexically.
pub fn lexically_normalize(path: &str) -> (r: String)
    ensures
        r@ == normalized(path@),
{
    let chars = chars_of(path);
    let pieces = split_pieces(&chars, '/');
    let n = pieces.len();
    let dot_arr = ['.'];
    let dotdot_arr = ['.', '.'];
    let dot: &[char] = &dot_arr;
    let dotdot: &[char] = &dotdot_arr;
    assert(dot@ =~= seq!['.']);
    assert(dotdot@ =~= seq!['.', '.']);
    let mut comps: Vec<Vec<char>> = Vec::new();
    let mut i: usize = 0;
    assert(views_of(pieces@).subrange(0, 0) =~= Seq::<Seq<char>>::empty());
    assert(views_of(comps@) =~= Seq::<Seq<char>>::empty());
    while i < n
        invariant
            pieces@.len() == n,
            i <= n,
            dot@ == seq!['.'],
            dotdot@ == seq!['.', '.'],
            views_of(comps@) == normalized_components(
                path_pieces(views_of(pieces@).subrange(0, i as int)),
            ),
        decreases n - i,
    {
        let ghost prefix = views_of(pieces@).subrange(0, i as int);
        let piece = &pieces[i];
        assert(views_of(pieces@).subrange(0, i + 1) =~= prefix.push(piece@));
        proof { lemma_path_pieces_push(prefix, piece@); }
        if piece.len() == 0 || chars_eq(piece.as_slice(), dot) {
        } else if chars_eq(piece.as_slice(), dotdot) {
            proof { lemma_normalized_components_push(path_pieces(prefix), piece@); }
            if comps.len() > 0 {
                let ghost before = views_of(comps@);
                comps.pop();
                assert(views_of(comps@) =~= before.drop_last());
            }

        } else {
            proof { lemma_normalized_components_push(path_pieces(prefix), piece@); }
            let ghost before = views_of(comps@);
            let c = copy_range(piece.as_slice(), 0, piece.len());
            assert(c@ =~= piece@);
            comps.push(c);
            assert(views_of(comps@) =~= before.push(piece@));
        }
        i = i + 1;
    }
    assert(views_of(pieces@).subrange(0, n as int) =~= views_of(pieces@));
    let mut out: Vec<char> = Vec::new();
    if chars.len() > 0 && chars[0] == '/' {
        out.push('/');
    }
    let ghost lead = out@;
    let m = comps.len();
    let mut k: usize = 0;
    assert(views_of(comps@).subrange(0, 0) =~= Seq::<Seq<char>>::empty());
    while k < m
        invariant
            comps@.len() == m,
            k <= m,
            out@ == lead + join_components(views_of(comps@).subrange(0, k as int)),
        decreases m - k,
    {
        let ghost prefix = views_of(comps@).subrange(0, k as int);
        assert(views_of(comps@).subrange(0, k + 1) =~= prefix.push(comps@[k as int]@));
        assert(prefix.push(comps@[k as int]@).drop_last() =~= prefix);
        if k > 0 {
            out.push('/');
        }
        push_all(&mut out, comps[k].as_slice());
        proof {
            if k == 0 {
                assert(out@ =~= lead + comps@[0]@);
            } else {
                assert(out@ =~= lead + (join_components(prefix) + seq!['/'] + comps@[k as int]@));
            }
        }
        k = k + 1;
    }
    assert(views_of(comps@).subrange(0, m as int) =~= views_of(comps@));
    proof {
        if chars@.len() > 0 && chars@[0] == '/' {
        } else {
            assert(lead =~= Seq::<char>::empty());
            assert(out@ =~= join_components(views_of(comps@)));
        }
    }
    string_of(&out)
}


/// Whether a path is absolute: on the `/`-separated paths this module
/// handles, one that starts with `/`. A drive-letter path such as `C:\x` is
/// relative here, as `Path::is_absolute` has it on Unix.
pub open spec fn is_absolute(p: Seq<char>) -> bool {
    p.len() > 0 && p[0] == '/'
}

/// Where a configured path points: `~` expanded; an absolute path as is;
/// otherwise joined onto `config_dir` and normalized lexically.
pub open spec fn resolved(config_dir: Seq<char>, raw: Seq<char>, home: Option<Seq<char>>) -> Seq<char> {
    let e = expanded(raw, home);
    if is_absolute(e) {
        e
    } else {
        normalized(join(config_dir, e))
    }
}

/// Resolves a configured path against the configuration directory.
pub fn resolve_project_path(config_dir: &str, raw: &str, home: Option<&str>) -> (r: String)
    ensures
        r@ == resolved(config_dir@, raw@, match home {
            Some(h) => Some(h@),
            None => None,
        }),
{
    let e = expand_user(raw, home);
    let ec = chars_of(e.as_str());
    if ec.len() > 0 && ec[0] == '/' {
        return e;
    }
    let dir = chars_of(config_dir);
    let joined = join_path(&dir, &ec);
    let joined_text = string_of(&joined);
    lexically_normalize(joined_text.as_str())
}

/// `root/first/second`.
fn join3(root: &str, first: &[char], second: &[char]) -> (r: String)
    ensures
        r@ == join(join(root@, first@), second@),
{
    let r = chars_of(root);
    let a = join_path(&r, first);
    let b = join_path(&a, second);
    string_of(&b)
}

pub open spec fn core_binary_name(windows: bool) -> Seq<char> {
    if windows {
        "smart_dynamic_hedge.exe"@
    } else {
        "smart_dynamic_hedge"@
    }
}

/// The C++ core binary under `project_root/build/`, with the `.exe`
/// suffix on Windows.
pub fn default_binary_path(project_root: &str, windows: bool) -> (r: String)
    ensures
        r@ == join(join(project_root@, "build"@), core_binary_name(windows)),
{
    let build = chars_of("build");
    let name = if windows { chars_of("smart_dynamic_hedge.exe") } else { chars_of("smart_dynamic_hedge") };
    join3(project_root, &build, &name)
}

/// Where the core binary is: the configured `core.binary` (trimmed),
/// resolved against the configuration's directory; or the platform
/// default under `project_root/build/` when none is configured.
pub open spec fn resolved_binary(
    configured: Seq<char>,
    config_dir: Seq<char>,
    project_root: Seq<char>,
    windows: bool,
    home: Option<Seq<char>>,
) -> Seq<char> {
    let raw = crate::text::trim(configured);
    if raw.len() == 0 {
        join(join(project_root, "build"@), core_binary_name(windows))
    } else {
        resolved(config_dir, raw, home)
    }
}

/// The core binary to run (see [`resolved_binary`]).
pub fn resolve_binary(configured: &str, config_dir: &str, project_root: &str, windows: bool, home: Option<&str>) -> (r: String)
    ensures
        r@ == resolved_binary(configured@, config_dir@, project_root@, windows, match home {
            Some(h) => Some(h@),
            None => None,
        }),
{
    let raw = crate::text::trim_chars(&chars_of(configured));
    if raw.len() == 0 {
        return default_binary_path(project_root, windows);
    }
    let raw_text = string_of(&raw);
    resolve_project_path(config_dir, raw_text.as_str(), home)
}

/// Where multi-config generators put the Windows release binary:
/// `project_root/build/Release/smart_dynamic_hedge.exe`.
pub fn windows_multi_config_fallback(project_root: &str) -> (r: String)
    ensures
        r@ == join(join(join(project_root@, "build"@), "Release"@), "smart_dynamic_hedge.exe"@),
{
    let r = chars_of(project_root);
    let build = chars_of("build");
    let release = chars_of("Release");
    let name = chars_of("smart_dynamic_hedge.exe");
    let a = join_path(&r, &build);
    let b = join_path(&a, &release);
    let c = join_path(&b, &name);
    string_of(&c)
}

/// The C++ core's source file: `project_root/cpp/smart_dynamic_hedge.cpp`.
pub fn cpp_source_path(project_root: &str) -> (r: String)
    ensures
        r@ == join(join(project_root@, "cpp"@), "smart_dynamic_hedge.cpp"@),
{
    let cpp = chars_of("cpp");
    let name = chars_of("smart_dynamic_hedge.cpp");
    join3(project_root, &cpp, &name)
}

/// The final component of a path, or empty when it has none (the root, an
/// empty path, `.`) or ends in `..`.
pub open spec fn file_name(path: Seq<char>) -> Seq<char> {
    let pieces = path_pieces(split_from(path, 0, '/'));
    if pieces.len() == 0 || pieces.last() == seq!['.', '.'] {
        Seq::empty()
    } else {
        pieces.last()
    }
}

/// The final component of `path`, or empty.
pub fn path_file_name(path: &str) -> (r: String)
    ensures
        r@ == file_name(path@),
{
    let chars = chars_of(path);
    let pieces = split_pieces(&chars, '/');
    let n = pieces.len();
    let dot_arr = ['.'];
    let dot: &[char] = &dot_arr;
    assert(dot@ =~= seq!['.']);
    let mut last: Option<usize> = None;
    let mut i: usize = 0;
    while i < n
        invariant
            pieces@.len() == n,
            i <= n,
            dot@ == seq!['.'],
            match last {
                Some(j) => j < i && path_pieces(views_of(pieces@).subrange(0, i as int)).len() > 0
                    && path_pieces(views_of(pieces@).subrange(0, i as int)).last() == pieces@[j as int]@,
                None => path_pieces(views_of(pieces@).subrange(0, i as int)).len() == 0,
            },
        decreases n - i,
    {
        let ghost prefix = views_of(pieces@).subrange(0, i as int);
        assert(views_of(pieces@).subrange(0, i + 1) =~= prefix.push(pieces@[i as int]@));
        proof { lemma_path_pieces_push(prefix, pieces@[i as int]@); }
        if !(pieces[i].len() == 0 || chars_eq(pieces[i].as_slice(), dot)) {
            last = Some(i);
        }
        i = i + 1;
    }
    assert(views_of(pieces@).subrange(0, n as int) =~= views_of(pieces@));
    let dotdot = ['.', '.'];
    assert(dotdot@ =~= seq!['.', '.']);
    match last {
        None => string_of(&[]),
        Some(j) => {
            if chars_eq(pieces[j].as_slice(), &dotdot) {
                string_of(&[])
            } else {
                string_of(pieces[j].as_slice())
            }
        },
    }
}


/// A component that names something: non-empty, not `.`, not `..`.
pub open spec fn clean_component(c: Seq<char>) -> bool {
    c.len() > 0 && c != seq!['.'] && c != seq!['.', '.']
}

proof fn lemma_path_pieces_named(pieces: Seq<Seq<char>>)
    ensures
        forall|i: int| 0 <= i < path_pieces(pieces).len() ==> path_pieces(pieces)[i].len() > 0
            && path_pieces(pieces)[i] != seq!['.'],
    decreases pieces.len(),
{
    if pieces.len() > 0 {
        lemma_path_pieces_named(pieces.drop_last());
        let rest = path_pieces(pieces.drop_last());
        let p = pieces.last();
        if !(p.len() == 0 || p == seq!['.']) {
            assert forall|i: int| 0 <= i < rest.push(p).len() implies rest.push(p)[i].len() > 0
                && rest.push(p)[i] != seq!['.'] by {
                if i < rest.len() {
                    assert(rest.push(p)[i] == rest[i]);
                }
            }
        }
    }
}

proof fn lemma_normalized_components_clean(pieces: Seq<Seq<char>>)
    requires
        forall|i: int| 0 <= i < pieces.len() ==> pieces[i].len() > 0 && pieces[i] != seq!['.'],
    ensures
        forall|i: int| 0 <= i < normalized_components(pieces).len() ==> clean_component(
            normalized_components(pieces)[i],
        ),
    decreases pieces.len(),
{
    if pieces.len() > 0 {
        let rest = pieces.drop_last();
        assert forall|i: int| 0 <= i < rest.len() implies rest[i].len() > 0 && rest[i] != seq!['.'] by {
            assert(rest[i] == pieces[i]);
        }
        lemma_normalized_components_clean(rest);
        let r = normalized_components(rest);
        if pieces.last() == seq!['.', '.'] {
            if r.len() > 0 {
                assert forall|i: int| 0 <= i < r.drop_last().len() implies clean_component(
                    r.drop_last()[i],
                ) by {
                    assert(r.drop_last()[i] == r[i]);
                }
            }
        } else {
            assert(pieces.last() == pieces[pieces.len() - 1]);
        }
    }
}

/// Normalization leaves only components that name something: none is
/// empty, `.` or `..`.
pub proof fn law_normalized_components_are_clean(path: Seq<char>)
    ensures
        forall|i: int| 0 <= i < normalized_components(path_pieces(split_from(path, 0, '/'))).len()
            ==> clean_component(normalized_components(path_pieces(split_from(path, 0, '/')))[i]),
{
    lemma_path_pieces_named(split_from(path, 0, '/'));
    lemma_normalized_components_clean(path_pieces(split_from(path, 0, '/')));
}

/// Normalization keeps a path absolute or relative.
pub proof fn law_normalized_keeps_root(path: Seq<char>)
    ensures
        is_absolute(path) ==> is_absolute(normalized(path)),
{
}

/// Every configured path resolved against an absolute configuration
/// directory is absolute.
pub proof fn law_resolved_is_absolute(config_dir: Seq<char>, raw: Seq<char>, home: Option<Seq<char>>)
    requires
        is_absolute(config_dir),
    ensures
        is_absolute(resolved(config_dir, raw, home)),
{
    let e = expanded(raw, home);
    if !is_absolute(e) {
        let j = join(config_dir, e);
        assert(j[0] == '/');
    }
}

// ---------------------------------------------------------------------------
// Normalizing twice
// ---------------------------------------------------------------------------

/// `c` holds no `/`.
pub open spec fn no_slash(c: Seq<char>) -> bool {
    forall|j: int| 0 <= j < c.len() ==> c[j] != '/'
}

proof fn lemma_find_char_first(hay: Seq<char>, from: int, c: char)
    requires
        0 <= from,
    ensures
        find_char_from(hay, from, c) matches Some(i) ==> forall|j: int| from <= j < i ==> hay[j] != c,
    decreases hay.len() - from,
{
    if from < hay.len() && hay[from] != c {
        lemma_find_char_first(hay, from + 1, c);
    }
}

proof fn lemma_split_pieces_no_slash(s: Seq<char>, start: int)
    requires
        0 <= start,
    ensures
        forall|i: int| 0 <= i < split_from(s, start, '/').len() ==> no_slash(#[trigger] split_from(s, start, '/')[i]),
    decreases s.len() - start,
{
    if start <= s.len() {
        lemma_find_char_from_bounds(s, start, '/');
        lemma_find_char_first(s, start, '/');
        let r = split_from(s, start, '/');
        match find_char_from(s, start, '/') {
            Some(i) => {
                lemma_split_pieces_no_slash(s, i + 1);
                assert forall|k: int| 0 <= k < r.len() implies no_slash(#[trigger] r[k]) by {
                    if k > 0 {
                        assert(r[k] == split_from(s, i + 1, '/')[k - 1]);
                    }
                }
            },
            None => {},
        }
    }
}

proof fn lemma_path_pieces_no_slash(pieces: Seq<Seq<char>>)
    requires
        forall|i: int| 0 <= i < pieces.len() ==> no_slash(#[trigger] pieces[i]),
    ensures
        forall|i: int| 0 <= i < path_pieces(pieces).len() ==> no_slash(#[trigger] path_pieces(pieces)[i]),
    decreases pieces.len(),
{
    if pieces.len() > 0 {
        let rest = pieces.drop_last();
        assert forall|i: int| 0 <= i < rest.len() implies no_slash(#[trigger] rest[i]) by {
            assert(rest[i] == pieces[i]);
        }
        lemma_path_pieces_no_slash(rest);
        let last = pieces[pieces.len() - 1];
        assert(no_slash(last));
        let pr = path_pieces(rest);
        if !(last.len() == 0 || last == seq!['.']) {
            assert(path_pieces(pieces) == pr.push(last));
            assert forall|i: int| 0 <= i < pr.push(last).len() implies no_slash(#[trigger] pr.push(last)[i]) by {
                if i < pr.len() {
                    assert(pr.push(last)[i] == pr[i]);
                }
            }
        }
    }
}

proof fn lemma_normalized_components_no_slash(pieces: Seq<Seq<char>>)
    requires
        forall|i: int| 0 <= i < pieces.len() ==> no_slash(#[trigger] pieces[i]),
    ensures
        forall|i: int| 0 <= i < normalized_components(pieces).len() ==> no_slash(
            #[trigger] normalized_components(pieces)[i],
        ),
    decreases pieces.len(),
{
    if pieces.len() > 0 {
        let rest = pieces.drop_last();
        assert forall|i: int| 0 <= i < rest.len() implies no_slash(#[trigger] rest[i]) by {
            assert(rest[i] == pieces[i]);
        }
        lemma_normalized_components_no_slash(rest);
        let r = normalized_components(rest);
        assert(no_slash(pieces[pieces.len() - 1]));
        if pieces.last() == seq!['.', '.'] && r.len() > 0 {
            assert forall|i: int| 0 <= i < r.drop_last().len() implies no_slash(#[trigger] r.drop_last()[i]) by {
                assert(r.drop_last()[i] == r[i]);
            }
        }
    }
}

proof fn lemma_path_pieces_fixed(c: Seq<Seq<char>>)
    requires
        forall|i: int| 0 <= i < c.len() ==> clean_component(#[trigger] c[i]),
    ensures
        path_pieces(c) == c,
    decreases c.len(),
{
    if c.len() > 0 {
        let rest = c.drop_last();
        assert forall|i: int| 0 <= i < rest.len() implies clean_component(#[trigger] rest[i]) by {
            assert(rest[i] == c[i]);
        }
        lemma_path_pieces_fixed(rest);
        assert(clean_component(c[c.len() - 1]));
        assert(rest.push(c.last()) =~= c);
    }
}

proof fn lemma_normalized_components_fixed(c: Seq<Seq<char>>)
    requires
        forall|i: int| 0 <= i < c.len() ==> clean_component(#[trigger] c[i]),
    ensures
        normalized_components(c) == c,
    decreases c.len(),
{
    if c.len() > 0 {
        let rest = c.drop_last();
        assert forall|i: int| 0 <= i < rest.len() implies clean_component(#[trigger] rest[i]) by {
            assert(rest[i] == c[i]);
        }
        lemma_normalized_components_fixed(rest);
        assert(clean_component(c[c.len() - 1]));
        assert(rest.push(c.last()) =~= c);
    }
}

proof fn lemma_path_pieces_after_empty(c: Seq<Seq<char>>)
    requires
        forall|i: int| 0 <= i < c.len() ==> clean_component(#[trigger] c[i]),
    ensures
        path_pieces(seq![Seq::<char>::empty()] + c) == c,
    decreases c.len(),
{
    let e = seq![Seq::<char>::empty()];
    if c.len() == 0 {
        assert(e + c =~= e);
        assert(e.drop_last() =~= Seq::<Seq<char>>::empty());
        assert(e.last() == Seq::<char>::empty());
        assert(path_pieces(e) == path_pieces(Seq::<Seq<char>>::empty()));
    } else {
        let rest = c.drop_last();
        assert forall|i: int| 0 <= i < rest.len() implies clean_component(#[trigger] rest[i]) by {
            assert(rest[i] == c[i]);
        }
        lemma_path_pieces_after_empty(rest);
        let ec = e + c;
        assert(ec.drop_last() =~= e + rest);
        assert(ec.last() == c[c.len() - 1]);
        assert(clean_component(c[c.len() - 1]));
        assert(path_pieces(ec) == path_pieces(ec.drop_last()).push(ec.last()));
        assert(rest.push(c.last()) =~= c);
    }
}

proof fn lemma_find_char_prefix(a: Seq<char>, s: Seq<char>, start: int, c: char)
    requires
        0 <= start <= a.len() <= s.len(),
        forall|j: int| 0 <= j < a.len() ==> s[j] == a[j],
    ensures
        find_char_from(a, start, c) matches Some(i) ==> find_char_from(s, start, c) == Some(i),
        find_char_from(a, start, c) is None ==> find_char_from(s, start, c) == find_char_from(s, a.len() as int, c),
    decreases a.len() - start,
{
    if start < a.len() && a[start] != c {
        lemma_find_char_prefix(a, s, start + 1, c);
    }
}

proof fn lemma_split_concat(a: Seq<char>, c: Seq<char>, start: int)
    requires
        0 <= start <= a.len(),
        no_slash(c),
    ensures
        split_from(a + seq!['/'] + c, start, '/') == split_from(a, start, '/').push(c),
    decreases a.len() - start,
{
    let s = a + seq!['/'] + c;
    lemma_find_char_prefix(a, s, start, '/');
    lemma_find_char_from_bounds(a, start, '/');
    match find_char_from(a, start, '/') {
        Some(i) => {
            lemma_split_concat(a, c, i + 1);
            assert(s.subrange(start, i) =~= a.subrange(start, i));
            assert(split_from(s, start, '/') =~= seq![a.subrange(start, i)] + split_from(s, i + 1, '/'));
            assert(split_from(a, start, '/') =~= seq![a.subrange(start, i)] + split_from(a, i + 1, '/'));
            assert(split_from(s, start, '/') =~= split_from(a, start, '/').push(c));
        },
        None => {
            assert(s[a.len() as int] == '/');
            assert(find_char_from(s, a.len() as int, '/') == Some(a.len() as int));
            lemma_find_char_from_bounds(s, (a.len() + 1) as int, '/');
            assert(find_char_from(s, (a.len() + 1) as int, '/') is None) by {
                if find_char_from(s, (a.len() + 1) as int, '/') is Some {
                    let k = find_char_from(s, (a.len() + 1) as int, '/')->Some_0;
                    assert(s[k] == c[k - a.len() - 1]);
                }
            }
            assert(s.subrange((a.len() + 1) as int, s.len() as int) =~= c);
            assert(split_from(s, (a.len() + 1) as int, '/') =~= seq![c]);
            assert(s.subrange(start, a.len() as int) =~= a.subrange(start, a.len() as int));
            assert(split_from(a, start, '/') =~= seq![a.subrange(start, a.len() as int)]);
            assert(split_from(s, start, '/') =~= seq![a.subrange(start, a.len() as int)] + split_from(
                s,
                (a.len() + 1) as int,
                '/',
            ));
            assert(split_from(s, start, '/') =~= split_from(a, start, '/').push(c));
        },
    }
}

proof fn lemma_split_join(comps: Seq<Seq<char>>)
    requires
        comps.len() >= 1,
        forall|i: int| 0 <= i < comps.len() ==> no_slash(#[trigger] comps[i]),
    ensures
        split_from(join_components(comps), 0, '/') == comps,
    decreases comps.len(),
{
    if comps.len() == 1 {
        let c0 = comps[0];
        assert(no_slash(c0));
        lemma_find_char_from_bounds(c0, 0, '/');
        assert(find_char_from(c0, 0, '/') is None);
        assert(c0.subrange(0, c0.len() as int) =~= c0);
        assert(seq![c0] =~= comps);
    } else {
        let rest = comps.drop_last();
        assert forall|i: int| 0 <= i < rest.len() implies no_slash(#[trigger] rest[i]) by {
            assert(rest[i] == comps[i]);
        }
        lemma_split_join(rest);
        assert(no_slash(comps[comps.len() - 1]));
        lemma_split_concat(join_components(rest), comps.last(), 0);
        assert(rest.push(comps.last()) =~= comps);
    }
}

proof fn lemma_join_after_empty(comps: Seq<Seq<char>>)
    requires
        comps.len() >= 1,
    ensures
        join_components(seq![Seq::<char>::empty()] + comps) == seq!['/'] + join_components(comps),
    decreases comps.len(),
{
    let e = seq![Seq::<char>::empty()];
    let ec = e + comps;
    assert(join_components(e) == Seq::<char>::empty());
    if comps.len() == 1 {
        assert(ec.drop_last() =~= e);
        assert(ec.last() == comps[0]);
        assert(join_components(ec) == join_components(ec.drop_last()) + seq!['/'] + ec.last());
        assert(Seq::<char>::empty() + seq!['/'] + comps[0] =~= seq!['/'] + comps[0]);
        assert(join_components(comps) == comps[0]);
    } else {
        let rest = comps.drop_last();
        lemma_join_after_empty(rest);
        assert(ec.drop_last() =~= e + rest);
        assert(ec.last() == comps.last());
        assert(join_components(ec) == join_components(ec.drop_last()) + seq!['/'] + ec.last());
        assert(seq!['/'] + join_components(rest) + seq!['/'] + comps.last() =~= seq!['/'] + (join_components(rest)
            + seq!['/'] + comps.last()));
    }
}

proof fn lemma_join_first(comps: Seq<Seq<char>>)
    requires
        comps.len() >= 1,
        comps[0].len() > 0,
    ensures
        join_components(comps).len() > 0,
        join_components(comps)[0] == comps[0][0],
    decreases comps.len(),
{
    if comps.len() > 1 {
        let rest = comps.drop_last();
        assert(rest[0] == comps[0]);
        lemma_join_first(rest);
    }
}

/// Normalizing a normalized path changes nothing.
pub proof fn law_normalize_is_idempotent(path: Seq<char>)
    ensures
        normalized(normalized(path)) == normalized(path),
{
    let pieces = split_from(path, 0, '/');
    let c = normalized_components(path_pieces(pieces));
    law_normalized_components_are_clean(path);
    lemma_split_pieces_no_slash(path, 0);
    lemma_path_pieces_no_slash(pieces);
    lemma_normalized_components_no_slash(path_pieces(pieces));
    let n = normalized(path);
    let e = seq![Seq::<char>::empty()];
    if c.len() == 0 {
        if path.len() > 0 && path[0] == '/' {
            let one = seq!['/'];
            assert(n =~= one);
            assert(find_char_from(one, 0, '/') == Some(0int));
            assert(find_char_from(one, 1, '/') is None);
            assert(one.subrange(1, 1) =~= Seq::<char>::empty());
            assert(one.subrange(0, 0) =~= Seq::<char>::empty());
            assert(split_from(one, 1, '/') == seq![one.subrange(1, 1)]);
            assert(split_from(one, 1, '/') =~= seq![Seq::<char>::empty()]);
            assert(split_from(one, 0, '/') == seq![one.subrange(0, 0)] + split_from(one, 1, '/'));
            assert(split_from(n, 0, '/') =~= seq![Seq::<char>::empty(), Seq::<char>::empty()]);
            assert(seq![Seq::<char>::empty(), Seq::<char>::empty()].drop_last() =~= e);
            assert(e.drop_last() =~= Seq::<Seq<char>>::empty());
            assert(e.last() == Seq::<char>::empty());
            assert(path_pieces(split_from(n, 0, '/')) == path_pieces(e));
            assert(path_pieces(e) == path_pieces(e.drop_last()));
            assert(normalized(n) =~= seq!['/']);
        } else {
            let none = Seq::<char>::empty();
            assert(n =~= none);
            assert(find_char_from(none, 0, '/') is None);
            assert(none.subrange(0, 0) =~= none);
            assert(split_from(none, 0, '/') == seq![none.subrange(0, 0)]);
            assert(split_from(n, 0, '/') =~= e);
            assert(e.drop_last() =~= Seq::<Seq<char>>::empty());
            assert(e.last() == Seq::<char>::empty());
            assert(path_pieces(e) == path_pieces(e.drop_last()));
            assert(normalized(n) =~= none);
        }
    } else {
        lemma_path_pieces_fixed(c);
        lemma_normalized_components_fixed(c);
        if path.len() > 0 && path[0] == '/' {
            lemma_join_after_empty(c);
            assert forall|i: int| 0 <= i < (e + c).len() implies no_slash(#[trigger] (e + c)[i]) by {
                if i > 0 {
                    assert((e + c)[i] == c[i - 1]);
                }
            }
            lemma_split_join(e + c);
            lemma_path_pieces_after_empty(c);
            assert(n == seq!['/'] + join_components(c));
            assert(n[0] == '/');
            assert(normalized(n) == seq!['/'] + join_components(normalized_components(path_pieces(split_from(n, 0, '/')))));
        } else {
            lemma_split_join(c);
            assert(clean_component(c[0]));
            lemma_join_first(c);
            assert(no_slash(c[0]));
            assert(n == join_components(c));
            assert(n[0] != '/');
            assert(normalized(n) == join_components(normalized_components(path_pieces(split_from(n, 0, '/')))));
        }
    }
}

} // verus!
