use vstd::prelude::*;

use crate::ids::PeerId;
use crate::network::{DeviceDescriptor, PeerNetworkDescriptor};

verus! {

/// The devices of a peer.
#[derive(Clone, Debug, PartialEq, Eq)]
pub struct Topology {
    pub devices: Vec<DeviceDescriptor>,
}

/// A peer as far as clusters are concerned: its id, its network interfaces and
/// its devices.
#[derive(Clone, Debug, PartialEq, Eq)]
pub struct PeerDescriptor {
    pub id: PeerId,
    pub network: PeerNetworkDescriptor,
    pub topology: Topology,
}

} // verus!
