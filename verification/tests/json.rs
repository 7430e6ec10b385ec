use smart_hedge::config::{
    user_config_from_text,
    apply_env_overrides, check_paper_only, merge_user_config, set_nested_string, EnvOverrides,
};
use smart_hedge::defaults::default_config;
use smart_hedge::errors::ConfigError;
use smart_hedge::json::{deep_merge, Json};

fn obj(members: Vec<(&str, Json)>) -> Json {
    Json::Object(members.into_iter().map(|(k, v)| (k.to_string(), v)).collect())
}

fn n(text: &str) -> Json {
    Json::Number(text.to_string())
}

fn s(text: &str) -> Json {
    Json::Text(text.to_string())
}

#[test]
fn merges_nested_objects_recursively() {
    let mut base = obj(vec![("a", obj(vec![("x", n("1")), ("y", n("2"))])), ("b", n("3"))]);
    let over = obj(vec![("a", obj(vec![("y", n("20"))]))]);
    deep_merge(&mut base, &over);
    assert_eq!(base, obj(vec![("a", obj(vec![("x", n("1")), ("y", n("20"))])), ("b", n("3"))]));
}

#[test]
fn override_replaces_non_object_values_entirely() {
    let mut base = obj(vec![("a", Json::Array(vec![n("1"), n("2"), n("3")]))]);
    let over = obj(vec![("a", Json::Array(vec![n("9")]))]);
    deep_merge(&mut base, &over);
    assert_eq!(base, obj(vec![("a", Json::Array(vec![n("9")]))]));
}

#[test]
fn override_replaces_object_with_non_object() {
    let mut base = obj(vec![("a", obj(vec![("x", n("1"))]))]);
    let over = obj(vec![("a", s("now a string"))]);
    deep_merge(&mut base, &over);
    assert_eq!(base, obj(vec![("a", s("now a string"))]));
}

#[test]
fn override_adds_new_keys() {
    let mut base = obj(vec![("a", n("1"))]);
    let over = obj(vec![("b", n("2"))]);
    deep_merge(&mut base, &over);
    assert_eq!(base, obj(vec![("a", n("1")), ("b", n("2"))]));
}

#[test]
fn empty_override_leaves_base_unchanged() {
    let mut base = obj(vec![("a", obj(vec![("x", n("1"))]))]);
    let original = base.deep_copy();
    deep_merge(&mut base, &obj(vec![]));
    assert_eq!(base, original);
}

#[test]
fn contracts_map_merges_per_symbol() {
    let mut base = obj(vec![("contracts", obj(vec![("SPY", obj(vec![("strike", n("100.0")), ("contracts", n("1"))]))]))]);
    let over = obj(vec![(
        "contracts",
        obj(vec![("SPY", obj(vec![("strike", n("105.0"))])), ("QQQ", obj(vec![("strike", n("50.0"))]))]),
    )]);
    deep_merge(&mut base, &over);
    assert_eq!(
        base,
        obj(vec![(
            "contracts",
            obj(vec![
                ("SPY", obj(vec![("strike", n("105.0")), ("contracts", n("1"))])),
                ("QQQ", obj(vec![("strike", n("50.0"))])),
            ]),
        )])
    );
}

#[test]
fn a_non_object_override_changes_nothing_and_an_object_replaces_a_non_object() {
    let mut base = obj(vec![("a", n("1"))]);
    deep_merge(&mut base, &n("5"));
    assert_eq!(base, obj(vec![("a", n("1"))]));
    let mut scalar = s("x");
    deep_merge(&mut scalar, &obj(vec![("k", Json::Bool(true))]));
    assert_eq!(scalar, obj(vec![("k", Json::Bool(true))]));
}

#[test]
fn nested_strings_are_stored_creating_objects_on_the_way() {
    let mut root = obj(vec![("core", s("not an object"))]);
    set_nested_string(&mut root, &["core", "binary"], "/opt/core");
    set_nested_string(&mut root, &["storage", "sqlite_path"], "/tmp/db");
    assert_eq!(
        root,
        obj(vec![
            ("core", obj(vec![("binary", s("/opt/core"))])),
            ("storage", obj(vec![("sqlite_path", s("/tmp/db"))])),
        ])
    );
    let mut scalar = n("3");
    set_nested_string(&mut scalar, &[], "top");
    assert_eq!(scalar, s("top"));
}

#[test]
fn env_overrides_apply_on_top_of_defaults() {
    let env = EnvOverrides {
        provider_kind: Some("alpaca-readonly".to_string()),
        model_kind: Some("openai".to_string()),
        openai_model: Some("gpt-test".to_string()),
        core_binary: Some("/opt/core".to_string()),
        storage_sqlite_path: Some("/tmp/decisions.sqlite3".to_string()),
    };
    let mut tree = default_config();
    apply_env_overrides(&mut tree, &env);
    let get = |a: &str, b: &str| tree.get(a).and_then(|x| x.get(b)).and_then(|x| x.as_str()).map(|x| x.to_string());
    assert_eq!(get("provider", "kind").as_deref(), Some("alpaca-readonly"));
    assert_eq!(get("model", "kind").as_deref(), Some("openai"));
    assert_eq!(get("model", "name").as_deref(), Some("gpt-test"));
    assert_eq!(get("core", "binary").as_deref(), Some("/opt/core"));
    assert_eq!(get("storage", "sqlite_path").as_deref(), Some("/tmp/decisions.sqlite3"));
}

#[test]
fn loads_defaults_with_no_override_file() {
    let tree = merge_user_config(default_config(), None, &EnvOverrides::default()).unwrap();
    assert_eq!(tree.get("mode").and_then(|m| m.as_str()), Some("paper"));
    assert_eq!(tree.get("provider").and_then(|p| p.get("kind")).and_then(|k| k.as_str()), Some("synthetic"));
    let contracts = tree.get("contracts").unwrap();
    assert!(contracts.get("SPY").is_some());
    assert_eq!(tree.get("policy").and_then(|p| p.get("paper_only")).and_then(|b| b.as_bool()), Some(true));
    assert_eq!(
        tree.get("dashboard").and_then(|d| d.get("port")).and_then(|p| p.as_i64()),
        Some(8765)
    );
}

#[test]
fn user_config_file_deep_merges_over_defaults() {
    let user = obj(vec![("policy", obj(vec![("max_spread_bps", n("99.0"))]))]);
    let tree = merge_user_config(default_config(), Some(&user), &EnvOverrides::default()).unwrap();
    let policy = tree.get("policy").unwrap();
    assert_eq!(policy.get("max_spread_bps"), Some(&n("99.0")));
    assert_eq!(policy.get("max_quote_age_seconds"), Some(&n("45.0")));
}

#[test]
fn non_object_config_file_is_rejected() {
    let user = Json::Array(vec![n("1")]);
    let result = merge_user_config(default_config(), Some(&user), &EnvOverrides::default());
    assert!(matches!(result, Err(ConfigError::RootNotAnObject)));
}

#[test]
fn non_paper_mode_is_rejected() {
    assert!(matches!(check_paper_only("live", true), Err(ConfigError::LiveModeNotSupported)));
    assert!(check_paper_only("PAPER", true).is_ok());
}

#[test]
fn paper_only_false_is_rejected_even_if_mode_is_paper() {
    assert!(matches!(check_paper_only("paper", false), Err(ConfigError::PolicyPaperOnlyRequired)));
}

#[test]
fn reading_members_follows_serde_semantics() {
    let v = obj(vec![("code", n("-32601")), ("big", n("1e3")), ("flag", Json::Bool(false)), ("list", Json::Array(vec![]))]);
    assert_eq!(v.get("code").and_then(|c| c.as_i64()), Some(-32601));
    assert_eq!(v.get("big").and_then(|c| c.as_i64()), None);
    assert_eq!(v.get("flag").and_then(|c| c.as_bool()), Some(false));
    assert_eq!(v.get("list").and_then(|c| c.as_array()).map(|a| a.len()), Some(0));
    assert!(v.get("missing").is_none());
    assert!(n("1").get("code").is_none());
    assert!(v.is_object());
}

#[test]
fn user_config_text_is_parsed_merged_and_overridden() {
    let env = EnvOverrides { storage_sqlite_path: Some("/tmp/x.sqlite3".to_string()), ..EnvOverrides::default() };
    let tree = user_config_from_text(r#"{"mode": "paper", "dashboard": {"port": 9000}}"#, &env).unwrap();
    let Json::Object(top) = &tree else { panic!("expected an object") };
    let dashboard = &top.iter().find(|(k, _)| k == "dashboard").unwrap().1;
    let Json::Object(d) = dashboard else { panic!("expected an object") };
    assert_eq!(d.iter().find(|(k, _)| k == "port").map(|(_, v)| v), Some(&Json::Number("9000".to_string())));
    let storage = &top.iter().find(|(k, _)| k == "storage").unwrap().1;
    let Json::Object(st) = storage else { panic!("expected an object") };
    assert_eq!(
        st.iter().find(|(k, _)| k == "sqlite_path").map(|(_, v)| v),
        Some(&Json::Text("/tmp/x.sqlite3".to_string()))
    );
    assert!(matches!(user_config_from_text("{oops", &env), Err(ConfigError::InvalidJson(_))));
    assert!(matches!(user_config_from_text("[1, 2]", &env), Err(ConfigError::RootNotAnObject)));
}

#[test]
fn merging_the_same_override_twice_is_merging_it_once() {
    let over = Json::Object(vec![
        ("a".to_string(), Json::Number("1".to_string())),
        ("b".to_string(), Json::Object(vec![("c".to_string(), Json::Bool(true))])),
        ("d".to_string(), Json::Object(vec![])),
    ]);
    let mut once = Json::Object(vec![
        ("b".to_string(), Json::Object(vec![("x".to_string(), Json::Null)])),
        ("d".to_string(), Json::Text("s".to_string())),
    ]);
    deep_merge(&mut once, &over);
    let mut twice = Json::Object(vec![
        ("b".to_string(), Json::Object(vec![("x".to_string(), Json::Null)])),
        ("d".to_string(), Json::Text("s".to_string())),
    ]);
    deep_merge(&mut twice, &over);
    deep_merge(&mut twice, &over);
    assert_eq!(once, twice);
}
