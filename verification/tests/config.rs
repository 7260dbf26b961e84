use astrea::endpoint::Strategy;
use astrea::protocol::http::HttpsConfig;
use astrea::protocol::Protocol;
use astrea::AstreaConfig;

#[test]
fn default_ports_match_the_two_listeners() {
    assert_eq!(astrea::default_port(), 80);
    assert_eq!(astrea::protocol::http::default_port(), 443);
}

#[test]
fn a_full_configuration_can_be_assembled() {
    let config = AstreaConfig {
        host: "127.0.0.1".to_string(),
        port: astrea::default_port(),
        endpoints: vec!["http://backend1:9000".to_string()],
        endpoint_selector: Strategy::RoundRobin,
        protocol: Protocol::HTTP,
        https_config: Some(HttpsConfig {
            identity_file: "identity.pfx".to_string(),
            password: String::new(),
            port: astrea::protocol::http::default_port(),
        }),
    };
    assert_eq!(config.endpoint_selector, Strategy::RoundRobin);
    assert_eq!(config.protocol, Protocol::HTTP);
    let https = config.https_config.expect("TLS settings present");
    assert_eq!(https.port, 443);
    assert_eq!(https.identity_file, "identity.pfx");
}
