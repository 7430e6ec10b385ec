use smart_hedge::paths::{
    cpp_source_path, default_binary_path, expand_user, lexically_normalize, path_file_name,
    resolve_binary, resolve_project_path, windows_multi_config_fallback,
};

#[test]
fn absolute_path_is_returned_unchanged() {
    let result = resolve_project_path("/config/dir", "/abs/path", None);
    assert_eq!(result, "/abs/path");
}

#[test]
fn relative_path_joins_onto_config_dir() {
    let result = resolve_project_path("/config/dir", "data/evidence.json", None);
    assert_eq!(result, "/config/dir/data/evidence.json");
}

#[test]
fn parent_dir_components_are_collapsed() {
    let result = resolve_project_path("/config/dir", "../sibling/file.json", None);
    assert_eq!(result, "/config/sibling/file.json");
}

#[test]
fn current_dir_components_are_dropped() {
    let result = resolve_project_path("/config/dir", "./file.json", None);
    assert_eq!(result, "/config/dir/file.json");
}

#[test]
fn lexically_normalize_does_not_touch_the_filesystem_for_nonexistent_paths() {
    let result = lexically_normalize("/nonexistent/../also-nonexistent/./x");
    assert_eq!(result, "/also-nonexistent/x");
}

#[test]
fn default_binary_path_has_platform_correct_suffix() {
    assert_eq!(default_binary_path("/root", false), "/root/build/smart_dynamic_hedge");
    assert_eq!(default_binary_path("/root", true), "/root/build/smart_dynamic_hedge.exe");
}

#[test]
fn windows_fallback_path_is_under_release_subdirectory() {
    let path = windows_multi_config_fallback("/root");
    assert_eq!(path, "/root/build/Release/smart_dynamic_hedge.exe");
}

#[test]
fn cpp_source_path_is_under_the_cpp_directory() {
    assert_eq!(cpp_source_path("/repo"), "/repo/cpp/smart_dynamic_hedge.cpp");
}

#[test]
fn tilde_expands_against_the_home_directory() {
    assert_eq!(expand_user("~", Some("/home/me")), "/home/me");
    assert_eq!(expand_user("~/cfg.json", Some("/home/me")), "/home/me/cfg.json");
    assert_eq!(expand_user("~/cfg.json", None), "~/cfg.json");
    assert_eq!(expand_user("~other/cfg.json", Some("/home/me")), "~other/cfg.json");
    assert_eq!(expand_user("plain/cfg.json", Some("/home/me")), "plain/cfg.json");
}

#[test]
fn a_tilde_path_resolves_to_an_absolute_path() {
    assert_eq!(resolve_project_path("/config/dir", "~/data/x.json", Some("/home/me")), "/home/me/data/x.json");
}

#[test]
fn normalizing_keeps_the_root_and_drops_parents_above_it() {
    assert_eq!(lexically_normalize("/../a"), "/a");
    assert_eq!(lexically_normalize("a/b/../../c"), "c");
    assert_eq!(lexically_normalize("a//b/./c/"), "a/b/c");
}

#[test]
fn file_name_is_the_last_component() {
    assert_eq!(path_file_name("/a/b/c.json"), "c.json");
    assert_eq!(path_file_name("/"), "");
    assert_eq!(path_file_name("a/.."), "");
}

#[test]
fn resolve_binary_with_no_override_falls_back_to_the_platform_default() {
    let resolved = resolve_binary("", "/cfg", "/some/other/project/root", false, None);
    assert_eq!(resolved, default_binary_path("/some/other/project/root", false));
}

#[test]
fn resolve_binary_with_an_explicit_absolute_path_uses_it_verbatim() {
    let resolved = resolve_binary("/opt/custom/smart_dynamic_hedge", "/cfg", "/some/other/project/root", false, None);
    assert_eq!(resolved, "/opt/custom/smart_dynamic_hedge");
}

#[test]
fn resolve_binary_with_an_explicit_relative_path_resolves_against_config_dir_not_project_root() {
    let resolved = resolve_binary("bin/smart_dynamic_hedge", "/cfg/dir", "/unrelated/project/root", false, None);
    assert_eq!(resolved, "/cfg/dir/bin/smart_dynamic_hedge");
    assert!(!resolved.starts_with("/unrelated/project/root"));
}

#[test]
fn resolve_binary_with_a_whitespace_only_override_falls_back_to_the_platform_default() {
    let resolved = resolve_binary("   ", "/cfg", "/root", true, None);
    assert_eq!(resolved, default_binary_path("/root", true));
}
