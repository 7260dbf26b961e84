//! The transport engine's verified core. The engine itself is an accept
//! loop that relays bytes; what it decides — which backend each accepted
//! connection goes to — is the selector's work, and the endpoint strings it
//! is configured with are parsed here.
use crate::addr::spec_parse_socket_addr;
use crate::addr::parse_socket_addr;
use crate::addr::SocketAddress;
use crate::endpoint::EndpointParser;
use crate::endpoint::ParseError;
use vstd::prelude::*;

verus! {

/// Parses transport endpoints: socket-address literals `a.b.c.d:port`.
pub struct TcpEndpointParser;

impl EndpointParser<SocketAddress> for TcpEndpointParser {
    open spec fn spec_parse(&self, input: Seq<char>) -> Option<SocketAddress> {
        spec_parse_socket_addr(input)
    }

    fn parse_endpoint(&self, input: String) -> (r: Result<SocketAddress, ParseError>) {
        match parse_socket_addr(input.as_str()) {
            Some(address) => Ok(address),
            None => Err(ParseError),
        }
    }
}

} // verus!
