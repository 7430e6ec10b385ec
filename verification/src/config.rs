//! Building the configuration tree: the defaults, a user file deep-merged
//! over them, then the environment-variable overrides; and the hard stops
//! that refuse anything but paper trading. Reading the file, parsing the
//! JSON and deserialising the typed configuration are left to the caller.

use vstd::prelude::*;
use crate::errors::ConfigError;
use crate::json::{json_of_text, parse_json_text};
use crate::defaults::{default_config, default_config_view};
use crate::json::{
    deep_merge, find_key_in, json_view, key_index, lemma_key_index_from, lemma_pairs_view,
    lemma_pairs_view_ext, merged, pairs_view, Json, JsonView,
};
use crate::text::{chars_eq, chars_of, to_lowercase, unicode_lowercase};

verus! {

/// The RSS evidence settings.
#[derive(Debug, Clone, PartialEq)]
pub struct RssConfig {
    pub enabled: bool,
    pub feeds: Vec<String>,
    pub max_items_per_feed: i64,
}

/// Where decisions are stored.
#[derive(Debug, Clone, PartialEq)]
pub struct StorageConfig {
    pub sqlite_path: String,
}

/// The environment-variable overrides, as plain values: the provider kind,
/// the model kind, the OpenAI model name, the core binary and the SQLite
/// path.
#[derive(Debug, Clone, PartialEq, Eq)]
pub struct EnvOverrides {
    pub provider_kind: Option<String>,
    pub model_kind: Option<String>,
    pub openai_model: Option<String>,
    pub core_binary: Option<String>,
    pub storage_sqlite_path: Option<String>,
}

impl Default for EnvOverrides {
    fn default() -> (r: Self)
        ensures
            r.provider_kind is None,
            r.model_kind is None,
            r.openai_model is None,
            r.core_binary is None,
            r.storage_sqlite_path is None,
    {
        EnvOverrides {
            provider_kind: None,
            model_kind: None,
            openai_model: None,
            core_binary: None,
            storage_sqlite_path: None,
        }
    }
}

/// The characters of each string.
pub open spec fn str_views(path: Seq<&str>) -> Seq<Seq<char>> {
    path.map_values(|s: &str| s@)
}

/// `root` with the string `value` stored at `path`: each step descends
/// into the member of that name, creating it as an empty object when it
/// is missing, and replacing any value that is not an object on the way.
pub open spec fn with_nested_string(root: JsonView, path: Seq<Seq<char>>, value: Seq<char>) -> JsonView
    decreases path.len(),
{
    if path.len() == 0 {
        JsonView::Text(value)
    } else {
        let ps = match root {
            JsonView::Object(p) => p,
            _ => Seq::empty(),
        };
        let k = path[0];
        let rest = path.subrange(1, path.len() as int);
        match key_index(ps, k) {
            Some(j) => if 0 <= j < ps.len() {
                JsonView::Object(ps.update(j, (k, with_nested_string(ps[j].1, rest, value))))
            } else {
                root
            },
            None => JsonView::Object(
                ps.push((k, with_nested_string(JsonView::Object(Seq::empty()), rest, value))),
            ),
        }
    }
}

/// Stores the string `value` at `path` in `root` (see
/// [`with_nested_string`]).
pub fn set_nested_string(root: &mut Json, path: &[&str], value: &str)
    ensures
        final(root)@ == with_nested_string(old(root)@, str_views(path@), value@),
    decreases path@.len(),
{
    if path.len() == 0 {
        *root = Json::Text(value.to_owned());
        return;
    }
    let ghost pv = str_views(path@);
    let ghost rest_view = pv.subrange(1, pv.len() as int);
    let rest = path.split_at(1).1;
    assert(str_views(rest@) =~= rest_view);
    let mut taken = Json::Null;
    std::mem::swap(&mut taken, root);
    let mut ps: Vec<(String, Json)> = match taken {
        Json::Object(p) => p,
        _ => Vec::new(),
    };
    let ghost start = pairs_view(ps@);
    assert(start =~= (match old(root)@ {
        JsonView::Object(p) => p,
        _ => Seq::<(Seq<char>, JsonView)>::empty(),
    }));
    let key = chars_of(path[0]);
    proof {
        lemma_pairs_view(ps@);
    }
    match find_key_in(&ps, &key) {
        Some(j) => {
            proof {
                lemma_key_index_from(start, key@, 0);
            }
            let ghost before = ps@;
            let (kk, mut child) = ps.remove(j);
            set_nested_string(&mut child, rest, value);
            let ghost newv = json_view(child);
            ps.insert(j, (kk, child));
            proof {
                assert(ps@ =~= before.update(j as int, ps@[j as int]));
                lemma_pairs_view_ext(ps@, start.update(j as int, (pv[0], newv)));
            }
        },
        None => {
            let mut child = Json::Object(Vec::new());
            proof {
                assert(pairs_view(Seq::<(String, Json)>::empty()) =~= Seq::<(Seq<char>, JsonView)>::empty());
            }
            set_nested_string(&mut child, rest, value);
            let ghost newv = json_view(child);
            ps.push((path[0].to_owned(), child));
            proof {
                lemma_pairs_view_ext(ps@, start.push((pv[0], newv)));
            }
        },
    }
    *root = Json::Object(ps);
}

/// `config` with the overrides that are set stored at `provider.kind`,
/// `model.kind`, `model.name`, `core.binary` and `storage.sqlite_path`, in
/// that order.
pub open spec fn env_applied(config: JsonView, env: EnvOverrides) -> JsonView {
    let c1 = match env.provider_kind {
        Some(v) => with_nested_string(config, seq!["provider"@, "kind"@], v@),
        None => config,
    };
    let c2 = match env.model_kind {
        Some(v) => with_nested_string(c1, seq!["model"@, "kind"@], v@),
        None => c1,
    };
    let c3 = match env.openai_model {
        Some(v) => with_nested_string(c2, seq!["model"@, "name"@], v@),
        None => c2,
    };
    let c4 = match env.core_binary {
        Some(v) => with_nested_string(c3, seq!["core"@, "binary"@], v@),
        None => c3,
    };
    match env.storage_sqlite_path {
        Some(v) => with_nested_string(c4, seq!["storage"@, "sqlite_path"@], v@),
        None => c4,
    }
}

fn set_pair(config: &mut Json, a: &str, b: &str, value: &str)
    ensures
        final(config)@ == with_nested_string(old(config)@, seq![a@, b@], value@),
{
    let path = [a, b];
    let p: &[&str] = &path;
    assert(str_views(p@) =~= seq![a@, b@]);
    set_nested_string(config, p, value);
}

/// Applies the environment-variable overrides to `config` (see
/// [`env_applied`]).
pub fn apply_env_overrides(config: &mut Json, env: &EnvOverrides)
    ensures
        final(config)@ == env_applied(old(config)@, *env),
{
    if let Some(v) = &env.provider_kind {
        set_pair(config, "provider", "kind", v.as_str());
    }
    if let Some(v) = &env.model_kind {
        set_pair(config, "model", "kind", v.as_str());
    }
    if let Some(v) = &env.openai_model {
        set_pair(config, "model", "name", v.as_str());
    }
    if let Some(v) = &env.core_binary {
        set_pair(config, "core", "binary", v.as_str());
    }
    if let Some(v) = &env.storage_sqlite_path {
        set_pair(config, "storage", "sqlite_path", v.as_str());
    }
}

/// Merges the user's configuration file, when there is one, over
/// `defaults`, then applies the environment overrides. A user file whose
/// root is not an object is refused.
pub fn merge_user_config(defaults: Json, user: Option<&Json>, env: &EnvOverrides) -> (r: Result<Json, ConfigError>)
    ensures
        match user {
            Some(u) => if u@ is Object {
                r matches Ok(j) && j@ == env_applied(merged(defaults@, u@), *env)
            } else {
                r matches Err(ConfigError::RootNotAnObject)
            },
            None => r matches Ok(j) && j@ == env_applied(defaults@, *env),
        },
{
    let mut tree = defaults;
    if let Some(u) = user {
        if !u.is_object() {
            return Err(ConfigError::RootNotAnObject);
        }
        deep_merge(&mut tree, u);
    }
    apply_env_overrides(&mut tree, env);
    Ok(tree)
}

/// The configuration tree for a user file with the text `text`: the
/// defaults with the file merged over them, then the environment
/// overrides. Text that is not JSON, and a file whose root is not an
/// object, are refused.
pub fn user_config_from_text(text: &str, env: &EnvOverrides) -> (r: Result<Json, ConfigError>)
    ensures
        match json_of_text(text@) {
            None => r matches Err(ConfigError::InvalidJson(_)),
            Some(u) => if u is Object {
                r matches Ok(j) && j@ == env_applied(merged(default_config_view(), u), *env)
            } else {
                r matches Err(ConfigError::RootNotAnObject)
            },
        },
{
    match parse_json_text(text) {
        Ok(user) => merge_user_config(default_config(), Some(&user), env),
        Err(message) => Err(ConfigError::InvalidJson(message)),
    }
}

/// The hard stops: the mode must be `paper` (ignoring case) and
/// `policy.paper_only` must be true.
pub fn check_paper_only(mode: &str, paper_only: bool) -> (r: Result<(), ConfigError>)
    ensures
        unicode_lowercase(mode@) != "paper"@ ==> r matches Err(ConfigError::LiveModeNotSupported),
        unicode_lowercase(mode@) == "paper"@ && !paper_only ==> r matches Err(
            ConfigError::PolicyPaperOnlyRequired,
        ),
        unicode_lowercase(mode@) == "paper"@ && paper_only ==> r is Ok,
{
    let lower = to_lowercase(mode);
    let lc = chars_of(lower.as_str());
    if !chars_eq(&lc, &chars_of("paper")) {
        return Err(ConfigError::LiveModeNotSupported);
    }
    if !paper_only {
        return Err(ConfigError::PolicyPaperOnlyRequired);
    }
    Ok(())
}

/// The value found by following the member names of `path` from `v`.
pub open spec fn nested_get(v: JsonView, path: Seq<Seq<char>>) -> Option<JsonView>
    decreases path.len(),
{
    if path.len() == 0 {
        Some(v)
    } else {
        match crate::json::json_get(v, path[0]) {
            Some(child) => nested_get(child, path.subrange(1, path.len() as int)),
            None => None,
        }
    }
}

proof fn lemma_first_index_kept(ps: Seq<(Seq<char>, JsonView)>, qs: Seq<(Seq<char>, JsonView)>, k: Seq<char>, j: int)
    requires
        0 <= j < qs.len(),
        qs[j].0 == k,
        forall|m: int| 0 <= m < j ==> qs[m].0 != k,
    ensures
        key_index(qs, k) == Some(j),
    decreases j,
{
    lemma_first_from(qs, k, j, 0);
}

proof fn lemma_first_from(qs: Seq<(Seq<char>, JsonView)>, k: Seq<char>, j: int, i: int)
    requires
        0 <= i <= j < qs.len(),
        qs[j].0 == k,
        forall|m: int| i <= m < j ==> qs[m].0 != k,
    ensures
        crate::json::key_index_from(qs, k, i) == Some(j),
    decreases j - i,
{
    if i < j {
        lemma_first_from(qs, k, j, i + 1);
    }
}

/// What [`set_nested_string`] stores is what a lookup along the same path
/// finds: reading `path` back after writing `value` there gives `value`.
pub proof fn law_nested_string_read_back(root: JsonView, path: Seq<Seq<char>>, value: Seq<char>)
    ensures
        nested_get(with_nested_string(root, path, value), path) == Some(JsonView::Text(value)),
    decreases path.len(),
{
    if path.len() > 0 {
        let ps = match root {
            JsonView::Object(p) => p,
            _ => Seq::empty(),
        };
        let k = path[0];
        let rest = path.subrange(1, path.len() as int);
        lemma_key_index_from(ps, k, 0);
        match key_index(ps, k) {
            Some(j) => {
                let child = with_nested_string(ps[j].1, rest, value);
                let qs = ps.update(j, (k, child));
                lemma_first_index_kept(ps, qs, k, j);
                law_nested_string_read_back(ps[j].1, rest, value);
            },
            None => {
                let child = with_nested_string(JsonView::Object(Seq::empty()), rest, value);
                let qs = ps.push((k, child));
                lemma_first_index_kept(ps, qs, k, ps.len() as int);
                law_nested_string_read_back(JsonView::Object(Seq::empty()), rest, value);
            },
        }
    }
}

/// The members of an object; none for anything else.
pub open spec fn members(v: JsonView) -> Seq<(Seq<char>, JsonView)> {
    match v {
        JsonView::Object(p) => p,
        _ => Seq::empty(),
    }
}

/// What a write through `k` descends into: the member `k` of `v`, or an
/// empty object when there is none.
pub open spec fn child_or_empty(v: JsonView, k: Seq<char>) -> JsonView {
    match crate::json::json_get(v, k) {
        Some(c) => c,
        None => JsonView::Object(Seq::empty()),
    }
}

proof fn lemma_write_shape(root: JsonView, path: Seq<Seq<char>>, value: Seq<char>, c: Seq<char>)
    requires
        path.len() > 0,
    ensures
        with_nested_string(root, path, value) is Object,
        crate::json::json_get(with_nested_string(root, path, value), path[0]) == Some(
            with_nested_string(child_or_empty(root, path[0]), path.subrange(1, path.len() as int), value),
        ),
        c != path[0] && root is Object ==> crate::json::json_get(with_nested_string(root, path, value), c)
            == crate::json::json_get(root, c),
{
    let ps = members(root);
    let k = path[0];
    let rest = path.subrange(1, path.len() as int);
    lemma_key_index_from(ps, k, 0);
    lemma_key_index_from(ps, c, 0);
    match key_index(ps, k) {
        Some(j) => {
            let qs = ps.update(j, (k, with_nested_string(ps[j].1, rest, value)));
            lemma_first_index_kept(ps, qs, k, j);
            if c != k {
                assert(forall|q: int| 0 <= q < qs.len() ==> (qs[q].0 == c <==> (q < ps.len() && ps[q].0 == c)));
                crate::json::lemma_key_index_from(qs, c, 0);
                lemma_same_index(ps, qs, c, 0);
            }
        },
        None => {
            let qs = ps.push((k, with_nested_string(JsonView::Object(Seq::empty()), rest, value)));
            lemma_first_index_kept(ps, qs, k, ps.len() as int);
            if c != k {
                assert(forall|q: int| 0 <= q < qs.len() ==> (qs[q].0 == c <==> (q < ps.len() && ps[q].0 == c)));
                lemma_same_index(ps, qs, c, 0);
            }
        },
    }
}

proof fn lemma_same_index(a: Seq<(Seq<char>, JsonView)>, b: Seq<(Seq<char>, JsonView)>, k: Seq<char>, i: int)
    requires
        0 <= i,
        a.len() <= b.len(),
        forall|m: int| 0 <= m < b.len() ==> (b[m].0 == k <==> (m < a.len() && a[m].0 == k)),
    ensures
        crate::json::key_index_from(b, k, i) == crate::json::key_index_from(a, k, i),
    decreases b.len() - i,
{
    if i < b.len() {
        lemma_same_index(a, b, k, i + 1);
    }
}

/// Writing `a.b` leaves `c.d` as it was when `a` and `c` differ, and
/// leaves `a.d` as it was when `b` and `d` differ and `a` is already an
/// object.
proof fn lemma_write_pair_keeps_other(root: JsonView, a: Seq<char>, b: Seq<char>, c: Seq<char>, d: Seq<char>, value: Seq<char>)
    requires
        root is Object,
        a != c || (b != d && (crate::json::json_get(root, a) matches Some(x) && x is Object)),
    ensures
        nested_get(with_nested_string(root, seq![a, b], value), seq![c, d]) == nested_get(root, seq![c, d]),
{
    let w = with_nested_string(root, seq![a, b], value);
    lemma_write_shape(root, seq![a, b], value, c);
    assert(seq![c, d].subrange(1, 2) =~= seq![d]);
    assert(seq![a, b].subrange(1, 2) =~= seq![b]);
    assert(seq![a, b][0] == a);
    assert(seq![c, d][0] == c);
    if a == c {
        let child = child_or_empty(root, a);
        let inner = with_nested_string(child, seq![b], value);
        assert(child is Object);
        lemma_write_shape(child, seq![b], value, d);
        assert(seq![b][0] == b);
        assert(crate::json::json_get(w, a) == Some(inner));
        assert(crate::json::json_get(inner, d) == crate::json::json_get(child, d));
        assert(nested_get(w, seq![c, d]) == nested_get(inner, seq![d]));
        assert(nested_get(root, seq![c, d]) == nested_get(child, seq![d]));
    } else {
        assert(crate::json::json_get(w, c) == crate::json::json_get(root, c));
    }
}

proof fn lemma_write_pair_reads_back(root: JsonView, a: Seq<char>, b: Seq<char>, value: Seq<char>)
    ensures
        nested_get(with_nested_string(root, seq![a, b], value), seq![a, b]) == Some(JsonView::Text(value)),
        with_nested_string(root, seq![a, b], value) is Object,
        (crate::json::json_get(with_nested_string(root, seq![a, b], value), a) matches Some(x) && x is Object),
{
    law_nested_string_read_back(root, seq![a, b], value);
    lemma_write_shape(root, seq![a, b], value, a);
    assert(seq![a, b].subrange(1, 2) =~= seq![b]);
    lemma_write_shape(child_or_empty(root, a), seq![b], value, b);
}

/// Every override that is set is found at its place in the result:
/// `provider.kind`, `model.kind`, `model.name`, `core.binary` and
/// `storage.sqlite_path` (for a configuration tree that is an object).
pub proof fn law_env_overrides_read_back(config: JsonView, env: EnvOverrides)
    requires
        config is Object,
    ensures
        env.provider_kind matches Some(v) ==> nested_get(env_applied(config, env), seq!["provider"@, "kind"@])
            == Some(JsonView::Text(v@)),
        env.model_kind matches Some(v) ==> nested_get(env_applied(config, env), seq!["model"@, "kind"@])
            == Some(JsonView::Text(v@)),
        env.openai_model matches Some(v) ==> nested_get(env_applied(config, env), seq!["model"@, "name"@])
            == Some(JsonView::Text(v@)),
        env.core_binary matches Some(v) ==> nested_get(env_applied(config, env), seq!["core"@, "binary"@])
            == Some(JsonView::Text(v@)),
        env.storage_sqlite_path matches Some(v) ==> nested_get(env_applied(config, env), seq!["storage"@, "sqlite_path"@])
            == Some(JsonView::Text(v@)),
{
    let provider = "provider"@;
    let model = "model"@;
    let core = "core"@;
    let storage = "storage"@;
    let kind = "kind"@;
    let name = "name"@;
    let binary = "binary"@;
    let sqlite = "sqlite_path"@;
    reveal_strlit("provider");
    reveal_strlit("model");
    reveal_strlit("core");
    reveal_strlit("storage");
    reveal_strlit("kind");
    reveal_strlit("name");
    assert(provider.len() == 8 && model.len() == 5 && core.len() == 4 && storage.len() == 7);
    assert(kind[0] == 'k' && name[0] == 'n');
    assert(provider != model && provider != core && provider != storage);
    assert(model != core && model != storage && core != storage);
    assert(kind != name);
    let c1 = match env.provider_kind {
        Some(v) => with_nested_string(config, seq![provider, kind], v@),
        None => config,
    };
    let c2 = match env.model_kind {
        Some(v) => with_nested_string(c1, seq![model, kind], v@),
        None => c1,
    };
    let c3 = match env.openai_model {
        Some(v) => with_nested_string(c2, seq![model, name], v@),
        None => c2,
    };
    let c4 = match env.core_binary {
        Some(v) => with_nested_string(c3, seq![core, binary], v@),
        None => c3,
    };
    let c5 = match env.storage_sqlite_path {
        Some(v) => with_nested_string(c4, seq![storage, sqlite], v@),
        None => c4,
    };
    assert(c5 == env_applied(config, env));
    // Each step yields an object.
    if let Some(v) = env.provider_kind {
        lemma_write_pair_reads_back(config, provider, kind, v@);
    }
    if let Some(v) = env.model_kind {
        lemma_write_pair_reads_back(c1, model, kind, v@);
    }
    if let Some(v) = env.openai_model {
        lemma_write_pair_reads_back(c2, model, name, v@);
    }
    if let Some(v) = env.core_binary {
        lemma_write_pair_reads_back(c3, core, binary, v@);
    }
    if let Some(v) = env.storage_sqlite_path {
        lemma_write_pair_reads_back(c4, storage, sqlite, v@);
    }
    // Later steps keep what earlier steps wrote.
    if let Some(v) = env.model_kind {
        lemma_write_pair_keeps_other(c1, model, kind, provider, kind, v@);
    }
    if let Some(v) = env.openai_model {
        lemma_write_pair_keeps_other(c2, model, name, provider, kind, v@);
        if env.model_kind is Some {
            lemma_write_pair_keeps_other(c2, model, name, model, kind, v@);
        }
    }
    if let Some(v) = env.core_binary {
        lemma_write_pair_keeps_other(c3, core, binary, provider, kind, v@);
        lemma_write_pair_keeps_other(c3, core, binary, model, kind, v@);
        lemma_write_pair_keeps_other(c3, core, binary, model, name, v@);
    }
    if let Some(v) = env.storage_sqlite_path {
        lemma_write_pair_keeps_other(c4, storage, sqlite, provider, kind, v@);
        lemma_write_pair_keeps_other(c4, storage, sqlite, model, kind, v@);
        lemma_write_pair_keeps_other(c4, storage, sqlite, model, name, v@);
        lemma_write_pair_keeps_other(c4, storage, sqlite, core, binary, v@);
    }
}

} // verus!
