use antikythera::http_headers::build_headers;

fn h(pairs: &[(&str, &str)]) -> Vec<(String, String)> {
    pairs.iter().map(|(k, v)| (k.to_string(), v.to_string())).collect()
}

#[test]
fn empty_authorization_headers_are_dropped() {
    let headers = h(&[
        ("Accept", "application/json"),
        ("Authorization", "   "),
        ("authorization", " bearer "),
        ("X-Empty", ""),
    ]);
    assert_eq!(build_headers(&headers), h(&[("Accept", "application/json"), ("X-Empty", "")]));
}

#[test]
fn authorization_with_a_token_is_kept() {
    let headers = h(&[("AUTHORIZATION", "Bearer abc123"), ("Authorization", "Basic xyz")]);
    assert_eq!(build_headers(&headers), headers);
    assert!(build_headers(&Vec::new()).is_empty());
}
