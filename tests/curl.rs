use spamapi::{parse_curl, set_header, tokenize_curl, TestMode};

fn header<'a>(headers: &'a [(String, String)], name: &str) -> Option<&'a str> {
    headers.iter().find(|(k, _)| k == name).map(|(_, v)| v.as_str())
}

#[test]
fn tokenize_splits_on_blanks() {
    let t = tokenize_curl("curl  -X\tGET\nhttp://a.b ");
    assert_eq!(t, vec!["curl", "-X", "GET", "http://a.b"]);
}

#[test]
fn tokenize_keeps_quoted_text_whole() {
    let t = tokenize_curl(r#"curl -H 'Content-Type: application/json' -d "a b""#);
    assert_eq!(t, vec!["curl", "-H", "Content-Type: application/json", "-d", "a b"]);
}

#[test]
fn tokenize_single_quotes_are_literal() {
    let t = tokenize_curl(r#"'say "hi" there'"#);
    assert_eq!(t, vec![r#"say "hi" there"#]);
}

#[test]
fn tokenize_backslash_newline_continues_line() {
    let t = tokenize_curl("curl \\\n  http://x.y \\\r\n -X PUT");
    assert_eq!(t, vec!["curl", "http://x.y", "-X", "PUT"]);
}

#[test]
fn tokenize_empty_and_blank_give_nothing() {
    assert!(tokenize_curl("").is_empty());
    assert!(tokenize_curl("   \t\n").is_empty());
}

#[test]
fn parse_curl_full_example() {
    let c = parse_curl(
        r#"curl -X POST 'https://api.example.com/v1/users' -H 'Content-Type: application/json' -d '{"name":"x"}'"#
            .to_string(),
    )
    .unwrap();
    assert_eq!(c.method, "POST");
    assert_eq!(c.url, "https://api.example.com/v1/users");
    assert_eq!(header(&c.headers, "content-type"), Some("application/json"));
    assert_eq!(c.body.as_deref(), Some(r#"{"name":"x"}"#));
    assert_eq!(c.mode, TestMode::Burst);
    assert_eq!(c.virtual_users, 100);
    assert_eq!(c.iterations, Some(1));
    assert_eq!(c.duration_secs, None);
    assert_eq!(c.timeout_ms, 10_000);
    assert_eq!(c.think_time_ms, 0);
}

#[test]
fn parse_curl_without_url_fails() {
    let e = parse_curl("curl -X GET ftp://nowhere".to_string()).unwrap_err();
    assert_eq!(e, "No URL found in curl command");
}

#[test]
fn parse_curl_defaults_to_get() {
    let c = parse_curl("curl http://localhost:8080/ok".to_string()).unwrap();
    assert_eq!(c.method, "GET");
    assert!(c.headers.is_empty());
    assert!(c.body.is_none());
}

#[test]
fn parse_curl_uppercases_method() {
    let c = parse_curl("curl --request patch http://h/x".to_string()).unwrap();
    assert_eq!(c.method, "PATCH");
}

#[test]
fn parse_curl_data_promotes_get_to_post() {
    let c = parse_curl("curl http://h/x --data-raw abc".to_string()).unwrap();
    assert_eq!(c.method, "POST");
    assert_eq!(c.body.as_deref(), Some("abc"));
}

#[test]
fn parse_curl_data_keeps_explicit_method() {
    let c = parse_curl("curl -X PUT http://h/x --data-binary abc".to_string()).unwrap();
    assert_eq!(c.method, "PUT");
}

#[test]
fn parse_curl_first_url_wins() {
    let c = parse_curl("curl https://first/a http://second/b".to_string()).unwrap();
    assert_eq!(c.url, "https://first/a");
}

#[test]
fn parse_curl_header_name_lowercased_value_trimmed() {
    let c = parse_curl("curl http://h -H '  X-Token :  abc:def  '".to_string()).unwrap();
    assert_eq!(c.headers, vec![("x-token".to_string(), "abc:def".to_string())]);
}

#[test]
fn parse_curl_later_header_replaces_earlier() {
    let c = parse_curl("curl http://h -H 'A: 1' -H 'B: 2' -H 'a: 3'".to_string()).unwrap();
    assert_eq!(c.headers.len(), 2);
    assert_eq!(header(&c.headers, "a"), Some("3"));
    assert_eq!(header(&c.headers, "b"), Some("2"));
}

#[test]
fn parse_curl_header_without_colon_ignored() {
    let c = parse_curl("curl http://h -H nocolon".to_string()).unwrap();
    assert!(c.headers.is_empty());
}

#[test]
fn parse_curl_flag_at_end_ignored() {
    let c = parse_curl("curl http://h -X".to_string()).unwrap();
    assert_eq!(c.method, "GET");
    let c = parse_curl("curl http://h -d".to_string()).unwrap();
    assert!(c.body.is_none());
}

#[test]
fn parse_curl_is_deterministic() {
    let cmd = "curl -X delete 'http://h/a b' -H 'K: V' -d x".to_string();
    let a = parse_curl(cmd.clone()).unwrap();
    let b = parse_curl(cmd).unwrap();
    assert_eq!(a.url, b.url);
    assert_eq!(a.method, b.method);
    assert_eq!(a.headers, b.headers);
    assert_eq!(a.body, b.body);
    assert_eq!(a.url, "http://h/a b");
    assert_eq!(a.method, "DELETE");
}

#[test]
fn set_header_appends_and_replaces() {
    let mut h: Vec<(String, String)> = Vec::new();
    set_header(&mut h, "a".to_string(), "1".to_string());
    set_header(&mut h, "b".to_string(), "2".to_string());
    set_header(&mut h, "a".to_string(), "3".to_string());
    assert_eq!(h, vec![("b".to_string(), "2".to_string()), ("a".to_string(), "3".to_string())]);
}
