use sbox::proxy::{host_allowed, parse_request_head};

#[test]
fn host_allowed_matches_exact_and_subdomain() {
    let allow = vec!["api.stripe.com".to_string(), "github.com".to_string()];
    assert!(host_allowed("api.stripe.com", &allow));
    assert!(host_allowed("codeload.github.com", &allow));
    assert!(!host_allowed("evil.com", &allow));
    assert!(!host_allowed("", &allow));
}

#[test]
fn connect_request_names_its_target_host() {
    let target = parse_request_head("CONNECT evil.com:443 HTTP/1.1\r\nHost: evil.com\r\n\r\n");
    assert!(target.connect);
    assert_eq!(target.host, "evil.com");
    assert!(!host_allowed(&target.host, &vec!["example.com".to_string()]));
}
