use astrea::addr::IpAddress;
use astrea::addr::Ipv4Address;
use astrea::addr::SocketAddress;
use astrea::endpoint::EndpointSelector;
use astrea::endpoint::RoundRobin;
use astrea::endpoint::SelectorError;
use astrea::protocol::tcp::TcpEndpointParser;

fn addr(a: u8, b: u8, c: u8, d: u8, port: u16) -> SocketAddress {
    SocketAddress { ip: IpAddress::V4(Ipv4Address { a, b, c, d }), port }
}

#[test]
fn round_robin_returns_each_endpoint_once_per_cycle() {
    let endpoints = vec![
        "10.0.0.1:80".to_string(),
        "10.0.0.2:80".to_string(),
        "10.0.0.3:80".to_string(),
    ];
    let mut selector =
        EndpointSelector::new(endpoints, TcpEndpointParser, RoundRobin).expect("non-empty pool");
    let first_cycle = [selector.next(), selector.next(), selector.next()];
    assert_eq!(first_cycle[0], addr(10, 0, 0, 1, 80));
    assert_eq!(first_cycle[1], addr(10, 0, 0, 2, 80));
    assert_eq!(first_cycle[2], addr(10, 0, 0, 3, 80));
}

#[test]
fn round_robin_is_periodic() {
    let endpoints = vec![
        "10.0.0.1:80".to_string(),
        "10.0.0.2:80".to_string(),
        "10.0.0.3:80".to_string(),
    ];
    let mut selector =
        EndpointSelector::new(endpoints, TcpEndpointParser, RoundRobin).expect("non-empty pool");
    let first_cycle = [selector.next(), selector.next(), selector.next()];
    let second_cycle = [selector.next(), selector.next(), selector.next()];
    assert_eq!(first_cycle, second_cycle);
}

#[test]
fn single_endpoint_pool_always_returns_it() {
    let endpoints = vec!["192.168.1.9:4242".to_string()];
    let mut selector =
        EndpointSelector::new(endpoints, TcpEndpointParser, RoundRobin).expect("non-empty pool");
    for _ in 0..5 {
        assert_eq!(selector.next(), addr(192, 168, 1, 9, 4242));
    }
}

#[test]
fn empty_endpoint_list_is_a_fatal_error() {
    let endpoints: Vec<String> = Vec::new();
    let result = EndpointSelector::<SocketAddress, RoundRobin>::new(
        endpoints,
        TcpEndpointParser,
        RoundRobin,
    );
    match result {
        Err(SelectorError::EmptyPool) => {}
        _ => panic!("an empty endpoint list must be rejected"),
    }
}

#[test]
fn first_malformed_endpoint_is_reported() {
    let endpoints = vec![
        "10.0.0.1:80".to_string(),
        "not-an-address".to_string(),
        "10.0.0.3:80".to_string(),
    ];
    let result = EndpointSelector::<SocketAddress, RoundRobin>::new(
        endpoints,
        TcpEndpointParser,
        RoundRobin,
    );
    match result {
        Err(SelectorError::InvalidEndpoint(index)) => assert_eq!(index, 1),
        _ => panic!("a malformed endpoint must be rejected"),
    }
}
