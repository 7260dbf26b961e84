//! A small load-balancing reverse proxy core: a strategy-driven endpoint
//! selector, endpoint parsers for the transport and application engines,
//! and the request-rewriting logic of the application proxy.
use vstd::prelude::*;

pub mod addr;
pub mod endpoint;
pub mod protocol;
pub mod text;
pub mod uri;

verus! {

/// The listen port used by the cleartext application engine when the
/// configuration leaves it unspecified.
pub fn default_port() -> (p: u16)
    ensures
        p == 80,
{
    80
}

/// The validated configuration the proxy runs on, immutable for the
/// process lifetime: where to listen, the raw endpoint strings, the
/// selection strategy, the protocol engine, and the optional TLS settings
/// of the encrypted listener.
pub struct AstreaConfig {
    pub host: String,
    pub port: u16,
    pub endpoints: Vec<String>,
    pub endpoint_selector: crate::endpoint::Strategy,
    pub protocol: crate::protocol::Protocol,
    pub https_config: Option<crate::protocol::http::HttpsConfig>,
}

} // verus!
