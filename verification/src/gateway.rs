//! The arguments of the gateway, which relays between decks on the network
//! and the controller.

use vstd::prelude::*;

verus! {

/// The arguments of the gateway program.
#[derive(Debug, Clone)]
pub struct Cli {
    /// Host of the controller.
    pub companion_host: String,
    /// Port of the controller.
    pub companion_port: u16,
    /// Port on which the gateway listens for decks.
    pub listen_port: u16,
    /// Address on which the gateway listens for decks.
    pub listen_address: String,
}

impl Cli {
    /// The arguments with the address that the gateway listens on where none
    /// is given: every address of the host.
    pub fn new(companion_host: String, companion_port: u16, listen_port: u16) -> (r: Self)
        ensures
            r.companion_host == companion_host,
            r.companion_port == companion_port,
            r.listen_port == listen_port,
            r.listen_address@ == "0.0.0.0"@,
    {
        Cli {
            companion_host,
            companion_port,
            listen_port,
            listen_address: "0.0.0.0".to_owned(),
        }
    }
}

} // verus!
