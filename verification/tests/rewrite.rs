use astrea::endpoint::EndpointSelector;
use astrea::endpoint::RoundRobin;
use astrea::protocol::http::rewrite_request;
use astrea::protocol::http::select_and_rewrite;
use astrea::protocol::http::HttpEndpointParser;
use astrea::protocol::http::HttpHeader;
use astrea::protocol::http::HttpRequest;
use astrea::protocol::http::RewriteError;
use astrea::uri::parse_uri;
use astrea::uri::Uri;

fn header(name: &str, value: &str) -> HttpHeader {
    HttpHeader { name: name.to_string(), value: value.to_string() }
}

fn inbound_request(path_and_query: &str) -> HttpRequest<Vec<u8>> {
    HttpRequest {
        method: "GET".to_string(),
        uri: Uri { scheme: None, authority: None, path_and_query: path_and_query.to_string() },
        headers: vec![
            header("accept", "text/plain"),
            header("host", "proxy.example"),
            header("x-trace", "abc123"),
        ],
        body: b"hello body".to_vec(),
    }
}

#[test]
fn rewrite_points_the_request_at_the_endpoint() {
    let endpoint = parse_uri("http://backend1:9000").expect("valid endpoint");
    let rewritten = rewrite_request(inbound_request("/foo?x=1"), &endpoint).expect("rewrite works");

    assert_eq!(rewritten.uri.scheme.as_deref(), Some("http"));
    let authority = rewritten.uri.authority.expect("authority present");
    assert_eq!(authority.host, "backend1");
    assert_eq!(authority.port, Some(9000));
    assert_eq!(rewritten.uri.path_and_query, "/foo?x=1");
}

#[test]
fn rewrite_replaces_the_host_header_and_keeps_the_rest() {
    let endpoint = parse_uri("http://backend1:9000").expect("valid endpoint");
    let rewritten = rewrite_request(inbound_request("/foo?x=1"), &endpoint).expect("rewrite works");

    assert_eq!(rewritten.method, "GET");
    assert_eq!(rewritten.body, b"hello body".to_vec());
    assert_eq!(rewritten.headers.len(), 3);
    assert_eq!(rewritten.headers[0].name, "accept");
    assert_eq!(rewritten.headers[0].value, "text/plain");
    assert_eq!(rewritten.headers[1].name, "x-trace");
    assert_eq!(rewritten.headers[1].value, "abc123");
    assert_eq!(rewritten.headers[2].name, "host");
    assert_eq!(rewritten.headers[2].value, "backend1:9000");
}

#[test]
fn rewrite_inserts_a_host_header_when_none_was_sent() {
    let endpoint = parse_uri("https://example.com").expect("valid endpoint");
    let request: HttpRequest<Vec<u8>> = HttpRequest {
        method: "POST".to_string(),
        uri: Uri { scheme: None, authority: None, path_and_query: "/".to_string() },
        headers: Vec::new(),
        body: Vec::new(),
    };
    let rewritten = rewrite_request(request, &endpoint).expect("rewrite works");
    assert_eq!(rewritten.headers.len(), 1);
    assert_eq!(rewritten.headers[0].name, "host");
    assert_eq!(rewritten.headers[0].value, "example.com");
}

#[test]
fn rewrite_fails_on_an_endpoint_without_scheme_or_authority() {
    let no_scheme = Uri { scheme: None, authority: None, path_and_query: String::new() };
    match rewrite_request(inbound_request("/"), &no_scheme) {
        Err(RewriteError::MissingScheme) => {}
        _ => panic!("an endpoint without a scheme must be rejected"),
    }
    let no_authority = Uri {
        scheme: Some("http".to_string()),
        authority: None,
        path_and_query: String::new(),
    };
    match rewrite_request(inbound_request("/"), &no_authority) {
        Err(RewriteError::MissingAuthority) => {}
        _ => panic!("an endpoint without an authority must be rejected"),
    }
}

#[test]
fn sequential_requests_are_forwarded_round_robin() {
    let endpoints = vec![
        "http://backend-a:9001".to_string(),
        "http://backend-b:9002".to_string(),
        "http://backend-c:9003".to_string(),
    ];
    let mut selector = EndpointSelector::new(endpoints, HttpEndpointParser, RoundRobin)
        .expect("non-empty pool");

    let mut hosts: Vec<String> = Vec::new();
    for _ in 0..4 {
        let rewritten =
            select_and_rewrite(&mut selector, inbound_request("/foo?x=1")).expect("rewrite works");
        let authority = rewritten.uri.authority.expect("authority present");
        hosts.push(authority.host.clone());
        assert_eq!(rewritten.uri.path_and_query, "/foo?x=1");
    }
    assert_eq!(hosts, vec!["backend-a", "backend-b", "backend-c", "backend-a"]);
}

#[test]
fn rewrite_targets_an_ipv6_endpoint_with_bracketed_host_header() {
    let endpoint = parse_uri("http://[::1]:9000").expect("valid endpoint");
    let rewritten = rewrite_request(inbound_request("/foo?x=1"), &endpoint).expect("rewrite works");
    let authority = rewritten.uri.authority.as_ref().expect("authority present");
    assert_eq!(authority.host, "[::1]");
    assert_eq!(authority.port, Some(9000));
    assert_eq!(rewritten.headers[2].name, "host");
    assert_eq!(rewritten.headers[2].value, "[::1]:9000");
    assert_eq!(rewritten.uri.uri_string(), "http://[::1]:9000/foo?x=1");
}
