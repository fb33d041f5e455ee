//! The arguments of a leaf, the program next to a deck that connects to the
//! gateway.

use vstd::prelude::*;

verus! {

/// The arguments of the leaf program.
#[derive(Debug, Clone)]
pub struct Cli {
    /// Host of the gateway.
    pub gateway_host: String,
    /// Port of the gateway.
    pub gateway_port: u16,
}

} // verus!
