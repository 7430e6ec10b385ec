use smart_hedge::http::{
    exceeds_header_bytes, line_budget, read_request_text, header_step, parse_query, parse_request_line, percent_decode, start_headers, write_response,
    HeaderStep, HttpError, MAX_BODY_BYTES, MAX_HEADERS, MAX_HEADER_BYTES,
};

#[test]
fn write_response_produces_well_formed_headers_and_body() {
    let mut out = Vec::new();
    write_response(&mut out, 200, "OK", "application/json", b"{}").unwrap();
    let text = String::from_utf8(out).unwrap();
    assert!(text.starts_with("HTTP/1.1 200 OK\r\n"));
    assert!(text.contains("Content-Type: application/json\r\n"));
    assert!(text.contains("Content-Length: 2\r\n"));
    assert!(text.ends_with("{}"));
}

#[test]
fn write_response_writes_exactly_the_status_headers_and_body() {
    let mut out = Vec::new();
    write_response(&mut out, 404, "Not Found", "text/plain", b"nope").unwrap();
    assert_eq!(
        String::from_utf8(out).unwrap(),
        "HTTP/1.1 404 Not Found\r\nContent-Type: text/plain\r\nContent-Length: 4\r\nConnection: close\r\n\r\nnope"
    );
}

#[test]
fn percent_decoding_handles_escapes_plus_and_stray_percents() {
    assert_eq!(percent_decode("hello%20world"), "hello world");
    assert_eq!(percent_decode("hello+world"), "hello world");
    assert_eq!(percent_decode("%2Fslash"), "/slash");
    assert_eq!(percent_decode("100%25off"), "100%off");
    assert_eq!(percent_decode("trunc%"), "trunc%");
    assert_eq!(percent_decode("%zz"), "%zz");
    assert_eq!(percent_decode("%e2%9c%93text"), "\u{2713}text");
    assert_eq!(percent_decode("plain"), "plain");
}

#[test]
fn query_strings_become_key_value_pairs_and_the_last_value_wins() {
    let q = parse_query("symbol=SPY&fresh=true&&flag&symbol=QQQ");
    assert_eq!(q.get("symbol"), Some(&"QQQ".to_string()));
    assert_eq!(q.get("fresh"), Some(&"true".to_string()));
    assert_eq!(q.get("flag"), Some(&"".to_string()));
    assert!(q.get("missing").is_none());
    assert!(q.contains_key("flag"));
    assert!(parse_query("").is_empty());
}

#[test]
fn request_lines_split_into_method_path_and_query() {
    let req = parse_request_line("GET /api/recommendation?symbol=SPY&fresh=true HTTP/1.1\r\n").unwrap();
    assert_eq!(req.method, "GET");
    assert_eq!(req.path, "/api/recommendation");
    assert_eq!(req.query.get("symbol"), Some(&"SPY".to_string()));
    let plain = parse_request_line("GET /api/health HTTP/1.1\r\n").unwrap();
    assert_eq!(plain.path, "/api/health");
    assert!(plain.query.is_empty());
}

#[test]
fn a_request_line_without_a_target_is_malformed() {
    assert!(matches!(parse_request_line("GET\r\n"), Err(HttpError::MalformedRequestLine)));
    assert!(matches!(parse_request_line(""), Err(HttpError::MalformedRequestLine)));
    assert!(matches!(parse_request_line(" /x HTTP/1.1"), Err(HttpError::MalformedRequestLine)));
}

#[test]
fn a_blank_line_ends_the_headers_and_reports_the_body_to_drain() {
    let s = start_headers(20);
    let s = match header_step(s, "Content-Length: 5\r\n") {
        HeaderStep::Continue(next) => next,
        _ => panic!("expected to continue"),
    };
    assert_eq!(s.content_length, 5);
    assert_eq!(s.header_count, 1);
    assert!(matches!(header_step(s, "\r\n"), HeaderStep::Done(5)));
}

#[test]
fn the_body_drain_is_bounded() {
    let s = start_headers(20);
    let s = match header_step(s, "content-length: 999999\r\n") {
        HeaderStep::Continue(next) => next,
        _ => panic!("expected to continue"),
    };
    match header_step(s, "\n") {
        HeaderStep::Done(n) => assert_eq!(n, MAX_BODY_BYTES),
        _ => panic!("expected the headers to end"),
    }
}

#[test]
fn an_invalid_content_length_counts_as_zero() {
    let s = start_headers(20);
    let s = match header_step(s, "Content-Length: abc\r\n") {
        HeaderStep::Continue(next) => next,
        _ => panic!("expected to continue"),
    };
    assert_eq!(s.content_length, 0);
}

#[test]
fn too_many_header_lines_are_refused() {
    let mut s = start_headers(20);
    for _ in 0..MAX_HEADERS {
        s = match header_step(s, "X: y\r\n") {
            HeaderStep::Continue(next) => next,
            _ => panic!("expected to continue"),
        };
    }
    assert!(matches!(header_step(s, "X: y\r\n"), HeaderStep::Failed(HttpError::TooManyHeaders)));
}

#[test]
fn oversized_headers_are_refused() {
    let s = start_headers(MAX_HEADER_BYTES - 3);
    assert!(matches!(header_step(s, "X: y\r\n"), HeaderStep::Failed(HttpError::HeadersTooLarge)));
}

#[test]
fn parses_a_simple_get_request_with_no_query_string() {
    let raw = "GET /api/health HTTP/1.1\r\nHost: localhost\r\n\r\n";
    let req = read_request_text(raw).unwrap();
    assert_eq!(req.method, "GET");
    assert_eq!(req.path, "/api/health");
    assert!(req.query.is_empty());
}

#[test]
fn parses_a_query_string_into_key_value_pairs() {
    let raw = "GET /api/recommendation?symbol=SPY&fresh=true HTTP/1.1\r\n\r\n";
    let req = read_request_text(raw).unwrap();
    assert_eq!(req.path, "/api/recommendation");
    assert_eq!(req.query.get("symbol"), Some(&"SPY".to_string()));
    assert_eq!(req.query.get("fresh"), Some(&"true".to_string()));
}

#[test]
fn percent_decodes_query_values() {
    let raw = "GET /x?a=hello%20world&b=%2Fslash HTTP/1.1\r\n\r\n";
    let req = read_request_text(raw).unwrap();
    assert_eq!(req.query.get("a"), Some(&"hello world".to_string()));
    assert_eq!(req.query.get("b"), Some(&"/slash".to_string()));
}

#[test]
fn plus_decodes_as_space_in_query_strings() {
    let raw = "GET /x?a=hello+world HTTP/1.1\r\n\r\n";
    let req = read_request_text(raw).unwrap();
    assert_eq!(req.query.get("a"), Some(&"hello world".to_string()));
}

#[test]
fn a_query_key_with_no_equals_sign_becomes_an_empty_value() {
    let raw = "GET /x?flag HTTP/1.1\r\n\r\n";
    let req = read_request_text(raw).unwrap();
    assert_eq!(req.query.get("flag"), Some(&"".to_string()));
}

#[test]
fn a_trailing_percent_with_no_hex_digits_is_left_literal_not_panicking() {
    let raw = "GET /x?a=100%25off HTTP/1.1\r\n\r\n";
    let req = read_request_text(raw).unwrap();
    assert_eq!(req.query.get("a"), Some(&"100%off".to_string()));
    let raw2 = "GET /x?a=trunc% HTTP/1.1\r\n\r\n";
    let req2 = read_request_text(raw2).unwrap();
    assert_eq!(req2.query.get("a"), Some(&"trunc%".to_string()));
}

#[test]
fn a_stray_percent_next_to_a_multibyte_character_never_panics() {
    let raw = "GET /x?a=%e2%9c%93text HTTP/1.1\r\n\r\n";
    let req = read_request_text(raw).unwrap();
    assert!(req.query.contains_key("a"));
}

#[test]
fn empty_input_is_a_malformed_request_line_not_a_panic() {
    let result = read_request_text("");
    assert!(matches!(result, Err(HttpError::MalformedRequestLine)));
}

#[test]
fn a_request_line_with_no_target_is_malformed() {
    let result = read_request_text("GET\r\n\r\n");
    assert!(matches!(result, Err(HttpError::MalformedRequestLine)));
}

#[test]
fn headers_exceeding_the_total_byte_bound_are_rejected() {
    let mut raw = "GET / HTTP/1.1\r\n".to_string();
    for i in 0..10 {
        raw.push_str(&format!("X-Header-{i}: {}\r\n", "x".repeat(3000)));
    }
    raw.push_str("\r\n");
    let result = read_request_text(&raw);
    assert!(matches!(result, Err(HttpError::HeadersTooLarge)));
}

#[test]
fn a_large_number_of_small_headers_is_rejected_by_the_count_bound() {
    let mut raw = "GET / HTTP/1.1\r\n".to_string();
    for i in 0..2000 {
        raw.push_str(&format!("X-Header-{i}: x\r\n"));
    }
    raw.push_str("\r\n");
    let result = read_request_text(&raw);
    assert!(matches!(result, Err(HttpError::TooManyHeaders) | Err(HttpError::HeadersTooLarge)));
}

#[test]
fn a_request_with_a_body_and_content_length_is_drained_not_left_dangling() {
    let raw = "GET /x HTTP/1.1\r\nContent-Length: 5\r\n\r\nhello";
    let req = read_request_text(raw).unwrap();
    assert_eq!(req.path, "/x");
}

#[test]
fn headers_may_end_at_the_end_of_input_without_a_blank_line() {
    let req = read_request_text("GET /y HTTP/1.1\r\nHost: a\r\n").unwrap();
    assert_eq!(req.path, "/y");
    let req = read_request_text("GET /z HTTP/1.1").unwrap();
    assert_eq!(req.path, "/z");
}

#[test]
fn an_over_long_request_line_is_too_large() {
    let raw = format!("GET /{} HTTP/1.1\r\n\r\n", "a".repeat(20_000));
    assert!(matches!(read_request_text(&raw), Err(HttpError::HeadersTooLarge)));
    let malformed = format!("{}\r\n\r\n", "G".repeat(20_000));
    assert!(matches!(read_request_text(&malformed), Err(HttpError::HeadersTooLarge)));
}

#[test]
fn a_bounded_reader_stops_just_past_the_bound() {
    assert_eq!(line_budget(0), MAX_HEADER_BYTES + 1);
    assert_eq!(line_budget(MAX_HEADER_BYTES), 1);
    assert_eq!(line_budget(100), MAX_HEADER_BYTES - 99);
    assert!(!exceeds_header_bytes(100, MAX_HEADER_BYTES - 100));
    assert!(exceeds_header_bytes(100, line_budget(100)));
    assert!(exceeds_header_bytes(0, MAX_HEADER_BYTES + 1));
}

#[test]
fn percent_decoding_gives_the_query_text() {
    let raw = "GET /x?a=hello%20world&b=%2Fslash&c=hello+world&d=100%25off&e=trunc%&flag HTTP/1.1\r\n\r\n";
    let req = read_request_text(raw).unwrap();
    assert_eq!(req.path, "/x");
    assert_eq!(req.query.get("a"), Some(&"hello world".to_string()));
    assert_eq!(req.query.get("b"), Some(&"/slash".to_string()));
    assert_eq!(req.query.get("c"), Some(&"hello world".to_string()));
    assert_eq!(req.query.get("d"), Some(&"100%off".to_string()));
    assert_eq!(req.query.get("e"), Some(&"trunc%".to_string()));
    assert_eq!(req.query.get("flag"), Some(&"".to_string()));
}
