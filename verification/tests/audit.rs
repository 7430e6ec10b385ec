use smart_hedge::audit::scan_text;

#[test]
fn the_checker_itself_flags_a_deliberately_planted_violation() {
    let violations = scan_text("fixture.rs", "pub fn place_order(qty: f64) {}\n");
    assert!(!violations.is_empty(), "checker failed to flag a planted place_order fixture");
    assert_eq!(violations[0].line_number, 1);
    assert_eq!(violations[0].line, "pub fn place_order(qty: f64) {}");
    assert_eq!(violations[0].reason, "contains forbidden order-related substring \"place_order\"");
    assert_eq!(violations[0].path, "fixture.rs");
}

#[test]
fn the_checker_ignores_a_planted_mention_inside_a_test_module() {
    let violations = scan_text("fixture.rs", "pub fn real_code() {}\n\nmod tests {\n    fn asserts_no_place_order() {}\n}\n");
    assert!(violations.is_empty(), "checker should not flag mentions inside a test module");
}

#[test]
fn the_checker_flags_a_mutating_http_verb_outside_the_allowed_file() {
    let violations = scan_text("fixture.rs", "let r = ureq::put(\"http://example.com\");\n");
    assert_eq!(violations.len(), 1);
    assert_eq!(
        violations[0].reason,
        "mutating HTTP verb ureq::put( is never expected anywhere in this codebase"
    );
}

#[test]
fn the_checker_allows_post_specifically_in_the_openai_file() {
    let text = "let r = ureq::post(\"https://api.openai.com/v1/responses\");\n";
    let violations = scan_text("/tmp/x/smart-hedge-model-advisor/src/openai.rs", text);
    assert!(violations.is_empty(), "expected no violations for the allowed OpenAI POST file, got {violations:?}");
    let elsewhere = scan_text("/tmp/x/other/src/lib.rs", text);
    assert_eq!(elsewhere.len(), 1);
    assert_eq!(elsewhere[0].reason, "ureq::post( used outside the one allowed file (OpenAI Responses API)");
}

#[test]
fn windows_separators_still_match_the_allowed_file() {
    let text = "ureq::post(x)\n";
    assert!(scan_text("C:\\repo\\smart-hedge-model-advisor\\src\\openai.rs", text).is_empty());
}

#[test]
fn forbidden_substrings_are_matched_ignoring_case_and_each_is_reported() {
    let v = scan_text("a.rs", "x\r\nSubmit_Order and CANCEL_ORDER via /V2/Orders\r\n");
    let reasons: Vec<&str> = v.iter().map(|x| x.reason.as_str()).collect();
    assert_eq!(
        reasons,
        vec![
            "contains forbidden order-related substring \"submit_order\"",
            "contains forbidden order-related substring \"cancel_order\"",
            "contains forbidden order-related substring \"/v2/orders\"",
        ]
    );
    assert!(v.iter().all(|x| x.line_number == 2));
    assert_eq!(v[0].line, "Submit_Order and CANCEL_ORDER via /V2/Orders");
}

#[test]
fn verbs_are_matched_as_written() {
    assert!(scan_text("a.rs", "UREQ::DELETE(x)\n").is_empty());
    assert_eq!(scan_text("a.rs", "ureq::patch(x); ureq::delete(y)\n").len(), 2);
}

#[test]
fn an_indented_pub_test_module_also_ends_the_scan() {
    let v = scan_text("a.rs", "fn a() {}\n    pub mod tests {\n place_order\n");
    assert!(v.is_empty());
    let v = scan_text("a.rs", "// mod tests later\nplace_order\n");
    assert_eq!(v.len(), 1);
    assert_eq!(v[0].line_number, 2);
}
