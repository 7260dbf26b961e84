use astrea::addr::parse_socket_addr;
use astrea::addr::IpAddress;
use astrea::addr::Ipv4Address;
use astrea::addr::Ipv6Address;
use astrea::addr::SocketAddress;
use astrea::endpoint::EndpointParser;
use astrea::endpoint::ParseError;
use astrea::protocol::tcp::TcpEndpointParser;

fn v4(a: u8, b: u8, c: u8, d: u8, port: u16) -> SocketAddress {
    SocketAddress { ip: IpAddress::V4(Ipv4Address { a, b, c, d }), port }
}

fn v6(groups: [u16; 8], port: u16) -> SocketAddress {
    SocketAddress {
        ip: IpAddress::V6(Ipv6Address {
            g0: groups[0],
            g1: groups[1],
            g2: groups[2],
            g3: groups[3],
            g4: groups[4],
            g5: groups[5],
            g6: groups[6],
            g7: groups[7],
        }),
        port,
    }
}

#[test]
fn parses_a_plain_socket_address() {
    assert_eq!(parse_socket_addr("127.0.0.1:8080"), Some(v4(127, 0, 0, 1, 8080)));
}

#[test]
fn parses_the_extremes_of_the_octet_and_port_ranges() {
    assert_eq!(parse_socket_addr("0.0.0.0:0"), Some(v4(0, 0, 0, 0, 0)));
    assert_eq!(parse_socket_addr("255.255.255.255:65535"), Some(v4(255, 255, 255, 255, 65535)));
}

#[test]
fn accepts_leading_zeroes_in_the_port_only() {
    assert_eq!(parse_socket_addr("10.0.0.1:00080"), Some(v4(10, 0, 0, 1, 80)));
    assert_eq!(parse_socket_addr("010.0.0.1:80"), None);
    assert_eq!(parse_socket_addr("10.0.0.01:80"), None);
}

#[test]
fn rejects_out_of_range_values() {
    assert_eq!(parse_socket_addr("256.0.0.1:80"), None);
    assert_eq!(parse_socket_addr("10.0.0.1:65536"), None);
    assert_eq!(parse_socket_addr("10.0.0.1:99999999"), None);
}

#[test]
fn rejects_malformed_shapes() {
    assert_eq!(parse_socket_addr(""), None);
    assert_eq!(parse_socket_addr("10.0.0.1"), None);
    assert_eq!(parse_socket_addr("10.0.0.1:"), None);
    assert_eq!(parse_socket_addr(":80"), None);
    assert_eq!(parse_socket_addr("10.0.1:80"), None);
    assert_eq!(parse_socket_addr("10.0.0.0.1:80"), None);
    assert_eq!(parse_socket_addr("a.b.c.d:80"), None);
    assert_eq!(parse_socket_addr("10.0.0.1:8x"), None);
    assert_eq!(parse_socket_addr("10..0.1:80"), None);
}

#[test]
fn parses_bracketed_ipv6_addresses() {
    assert_eq!(parse_socket_addr("[::1]:80"), Some(v6([0, 0, 0, 0, 0, 0, 0, 1], 80)));
    assert_eq!(parse_socket_addr("[::]:0"), Some(v6([0, 0, 0, 0, 0, 0, 0, 0], 0)));
    assert_eq!(
        parse_socket_addr("[2001:db8::1]:443"),
        Some(v6([0x2001, 0x0db8, 0, 0, 0, 0, 0, 1], 443))
    );
    assert_eq!(
        parse_socket_addr("[1:2:3:4:5:6:7:8]:9000"),
        Some(v6([1, 2, 3, 4, 5, 6, 7, 8], 9000))
    );
    assert_eq!(
        parse_socket_addr("[1:2:3:4:5:6:7::]:80"),
        Some(v6([1, 2, 3, 4, 5, 6, 7, 0], 80))
    );
    assert_eq!(
        parse_socket_addr("[A:b:C:d:E:f:1:2]:80"),
        Some(v6([0xa, 0xb, 0xc, 0xd, 0xe, 0xf, 1, 2], 80))
    );
    assert_eq!(
        parse_socket_addr("[0001:0:0:0:0:0:0:1]:80"),
        Some(v6([1, 0, 0, 0, 0, 0, 0, 1], 80))
    );
}

#[test]
fn parses_embedded_ipv4_tails() {
    assert_eq!(
        parse_socket_addr("[::ffff:192.168.0.1]:8080"),
        Some(v6([0, 0, 0, 0, 0, 0xffff, 0xc0a8, 0x0001], 8080))
    );
    assert_eq!(
        parse_socket_addr("[1:2:3:4:5:6:77.77.88.88]:80"),
        Some(v6([1, 2, 3, 4, 5, 6, 0x4d4d, 0x5858], 80))
    );
}

#[test]
fn rejects_malformed_ipv6_shapes() {
    assert_eq!(parse_socket_addr("[::1]"), None);
    assert_eq!(parse_socket_addr("[::1]80"), None);
    assert_eq!(parse_socket_addr("[::1]:"), None);
    assert_eq!(parse_socket_addr("[:::1]:80"), None);
    assert_eq!(parse_socket_addr("[1::2::3]:80"), None);
    assert_eq!(parse_socket_addr("[1:2:3:4:5:6:7:8:9]:80"), None);
    assert_eq!(parse_socket_addr("[1:2:3:4:5:6:7]:80"), None);
    assert_eq!(parse_socket_addr("[::1:2:3:4:5:6:7:8]:80"), None);
    assert_eq!(parse_socket_addr("[12345::1]:80"), None);
    assert_eq!(parse_socket_addr("[1.2.3.4::]:80"), None);
    assert_eq!(parse_socket_addr("[g::1]:80"), None);
    assert_eq!(parse_socket_addr("[fe80::1%1]:80"), None);
    assert_eq!(parse_socket_addr("::1:80"), None);
    assert_eq!(parse_socket_addr("[]:80"), None);
}

#[test]
fn the_parser_trait_reports_malformed_endpoints() {
    let parser = TcpEndpointParser;
    assert_eq!(parser.parse_endpoint("10.0.0.1:80".to_string()), Ok(v4(10, 0, 0, 1, 80)));
    assert_eq!(
        parser.parse_endpoint("[::1]:8080".to_string()),
        Ok(v6([0, 0, 0, 0, 0, 0, 0, 1], 8080))
    );
    assert_eq!(parser.parse_endpoint("not-an-address".to_string()), Err(ParseError));
}
