use vstd::prelude::*;

use crate::ids::{ClusterId, ClusterName, DeviceId, PeerId, Port};
use crate::network::{IpAddress, NetworkInterfaceDescriptor};

verus! {

/// What a cluster is made of: its leader and the devices whose peers take part.
/// `devices` is a set: an id that occurs again counts once.
#[derive(Debug, PartialEq, Eq)]
pub struct ClusterConfiguration {
    pub id: ClusterId,
    pub name: ClusterName,
    pub leader: PeerId,
    pub devices: Vec<DeviceId>,
}

/// The record that a cluster is to be deployed.
#[derive(Clone, Copy, Debug, PartialEq, Eq, Structural)]
pub struct ClusterDeployment {
    pub id: ClusterId,
}

/// What one member of a deployed cluster is given: its VPN address, the port of
/// its CAN server and its network interfaces in the cluster.
#[derive(Debug, PartialEq, Eq)]
pub struct PeerClusterAssignment {
    pub peer_id: PeerId,
    pub vpn_address: IpAddress,
    pub can_server_port: Port,
    pub device_interfaces: Vec<NetworkInterfaceDescriptor>,
}

/// The value of a `PeerClusterAssignment`.
pub struct PeerClusterAssignmentView {
    pub peer_id: PeerId,
    pub vpn_address: IpAddress,
    pub can_server_port: Port,
    pub device_interfaces: Seq<NetworkInterfaceDescriptor>,
}

impl View for PeerClusterAssignment {
    type V = PeerClusterAssignmentView;

    open spec fn view(&self) -> PeerClusterAssignmentView {
        PeerClusterAssignmentView {
            peer_id: self.peer_id,
            vpn_address: self.vpn_address,
            can_server_port: self.can_server_port,
            device_interfaces: self.device_interfaces@,
        }
    }
}

impl Clone for PeerClusterAssignment {
    fn clone(&self) -> (assignment: Self)
        ensures
            assignment@ == self@,
    {
        let device_interfaces = self.device_interfaces.clone();
        assert(device_interfaces@ =~= self.device_interfaces@);
        PeerClusterAssignment {
            peer_id: self.peer_id,
            vpn_address: self.vpn_address,
            can_server_port: self.can_server_port,
            device_interfaces,
        }
    }
}

/// What every member of a deployed cluster is told: the cluster, its leader and
/// the assignments of all members.
#[derive(Debug, PartialEq, Eq)]
pub struct ClusterAssignment {
    pub id: ClusterId,
    pub leader: PeerId,
    pub assignments: Vec<PeerClusterAssignment>,
}

/// The value of a `ClusterAssignment`.
pub struct ClusterAssignmentView {
    pub id: ClusterId,
    pub leader: PeerId,
    pub assignments: Seq<PeerClusterAssignmentView>,
}

impl View for ClusterAssignment {
    type V = ClusterAssignmentView;

    open spec fn view(&self) -> ClusterAssignmentView {
        ClusterAssignmentView {
            id: self.id,
            leader: self.leader,
            assignments: self.assignments@.map_values(|a: PeerClusterAssignment| a@),
        }
    }
}

impl Clone for ClusterAssignment {
    fn clone(&self) -> (assignment: Self)
        ensures
            assignment@ == self@,
    {
        let assignments = self.assignments.clone();
        assert(assignments@.map_values(|a: PeerClusterAssignment| a@) =~= self.assignments@.map_values(
            |a: PeerClusterAssignment| a@,
        ));
        ClusterAssignment { id: self.id, leader: self.leader, assignments }
    }
}

} // verus!
