//! The configuration of a node.

use vstd::prelude::*;

verus! {

/// What a node is in the network.
#[derive(Clone, Copy, Debug, PartialEq, Eq, Structural)]
pub enum Mode {
    Server,
    Client,
}

/// The configuration of a node.
#[derive(Clone, Debug)]
pub struct Config {
    pub mode: Mode,
    /// Where the server listens, or where a client finds it.
    pub server_addr: String,
    /// The secret that clients show to the server.
    pub token: String,
    pub tun_name: Option<String>,
    /// The virtual network; a server needs one.
    pub cidr: Option<String>,
    /// Whether a client shows a control panel.
    pub webui: bool,
}

/// Whether a client shows a control panel if its configuration does not say: on Linux,
/// where clients often run without a screen, it does not.
pub fn default_webui(on_linux: bool) -> (webui: bool)
    ensures
        webui == !on_linux,
{
    !on_linux
}

} // verus!
