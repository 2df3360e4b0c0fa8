//! Networks and protocol versions.

use vstd::prelude::*;

verus! {

/// A protocol version of the network, by its number.
#[derive(Clone, Copy, Debug, PartialEq, Eq, Structural)]
pub struct NetworkVersion(pub u32);

/// The number of the version that brought the contract machine to the network.
pub const V18: u32 = 18;

/// The number of the version whose upgrade is shown with a picture of its own.
pub const V23: u32 = 23;

/// The chain a node follows.
#[derive(Clone, Debug)]
pub enum NetworkChain {
    Mainnet,
    Calibnet,
    Butterflynet,
    Devnet(String),
}

} // verus!
