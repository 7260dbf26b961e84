//! The two protocol engines' verified cores: the transport engine's
//! endpoint parser, and the application engine's endpoint parser together
//! with its per-request rewrite logic.
use vstd::prelude::*;

pub mod http;
pub mod tcp;

verus! {

/// The closed set of protocol engines a configuration can select.
#[derive(Clone, Copy, Debug, PartialEq, Eq, Structural)]
pub enum Protocol {
    HTTP,
    TCP,
}

} // verus!
