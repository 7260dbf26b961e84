use astrea::uri::decimal_string;
use astrea::uri::parse_uri;
use astrea::uri::Authority;
use astrea::uri::Uri;

#[test]
fn parses_a_url_with_port_and_no_path() {
    let uri = parse_uri("http://backend1:9000").expect("valid endpoint URL");
    assert_eq!(uri.scheme.as_deref(), Some("http"));
    let authority = uri.authority.expect("authority present");
    assert_eq!(authority.host, "backend1");
    assert_eq!(authority.port, Some(9000));
    assert_eq!(uri.path_and_query, "");
}

#[test]
fn parses_a_url_with_path_and_query() {
    let uri = parse_uri("http://backend1:9000/foo?x=1").expect("valid endpoint URL");
    assert_eq!(uri.scheme.as_deref(), Some("http"));
    let authority = uri.authority.expect("authority present");
    assert_eq!(authority.host, "backend1");
    assert_eq!(authority.port, Some(9000));
    assert_eq!(uri.path_and_query, "/foo?x=1");
}

#[test]
fn parses_a_url_without_port() {
    let uri = parse_uri("https://example.com/").expect("valid endpoint URL");
    assert_eq!(uri.scheme.as_deref(), Some("https"));
    let authority = uri.authority.expect("authority present");
    assert_eq!(authority.host, "example.com");
    assert_eq!(authority.port, None);
    assert_eq!(uri.path_and_query, "/");
}

#[test]
fn parses_a_query_right_after_the_authority() {
    let uri = parse_uri("http://example.com?x=1").expect("valid endpoint URL");
    let authority = uri.authority.expect("authority present");
    assert_eq!(authority.host, "example.com");
    assert_eq!(authority.port, None);
    assert_eq!(uri.path_and_query, "?x=1");
}

#[test]
fn rejects_malformed_urls() {
    assert!(parse_uri("").is_none());
    assert!(parse_uri("backend1:9000").is_none());
    assert!(parse_uri("http:/backend1").is_none());
    assert!(parse_uri("http://").is_none());
    assert!(parse_uri("://backend1").is_none());
    assert!(parse_uri("1http://backend1").is_none());
    assert!(parse_uri("http://backend1:port").is_none());
    assert!(parse_uri("http://backend1:").is_none());
    assert!(parse_uri("http://backend1:70000").is_none());
    assert!(parse_uri("http://back end/x").is_none());
    assert!(parse_uri("http://backend1/a#b").is_none());
}

#[test]
fn authority_string_joins_host_and_port() {
    let with_port = Authority { host: "backend1".to_string(), port: Some(9000) };
    assert_eq!(with_port.authority_string(), "backend1:9000");
    let without_port = Authority { host: "example.com".to_string(), port: None };
    assert_eq!(without_port.authority_string(), "example.com");
}

#[test]
fn decimal_string_writes_exact_digits() {
    assert_eq!(decimal_string(0), "0");
    assert_eq!(decimal_string(7), "7");
    assert_eq!(decimal_string(80), "80");
    assert_eq!(decimal_string(443), "443");
    assert_eq!(decimal_string(65535), "65535");
}

#[test]
fn parses_bracketed_ipv6_hosts() {
    let uri = parse_uri("http://[::1]:8080/foo").expect("valid endpoint URL");
    assert_eq!(uri.scheme.as_deref(), Some("http"));
    let authority = uri.authority.expect("authority present");
    assert_eq!(authority.host, "[::1]");
    assert_eq!(authority.port, Some(8080));
    assert_eq!(uri.path_and_query, "/foo");

    let uri = parse_uri("https://[2001:db8::1]/").expect("valid endpoint URL");
    let authority = uri.authority.expect("authority present");
    assert_eq!(authority.host, "[2001:db8::1]");
    assert_eq!(authority.port, None);
    assert_eq!(uri.path_and_query, "/");
}

#[test]
fn rejects_malformed_bracketed_hosts() {
    assert!(parse_uri("http://[::1").is_none());
    assert!(parse_uri("http://[zz]/").is_none());
    assert!(parse_uri("http://[::1]x/").is_none());
    assert!(parse_uri("http://[fe80::1%1]:80/").is_none());
}

#[test]
fn authority_string_keeps_ipv6_brackets() {
    let authority = Authority { host: "[::1]".to_string(), port: Some(80) };
    assert_eq!(authority.authority_string(), "[::1]:80");
}

#[test]
fn uri_string_writes_the_whole_target() {
    let uri = parse_uri("http://backend1:9000/foo?x=1").expect("valid endpoint URL");
    assert_eq!(uri.uri_string(), "http://backend1:9000/foo?x=1");

    let uri = parse_uri("http://[::1]:8080").expect("valid endpoint URL");
    assert_eq!(uri.uri_string(), "http://[::1]:8080");

    let origin_form = Uri { scheme: None, authority: None, path_and_query: "/x?y=1".to_string() };
    assert_eq!(origin_form.uri_string(), "/x?y=1");
}
