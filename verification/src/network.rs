use vstd::prelude::*;

use crate::ids::{DeviceId, NetworkInterfaceId, NetworkInterfaceName};

verus! {

/// An IP address; `V4` holds the four octets in order, `V6` the address as one
/// big-endian 128-bit number.
#[derive(Clone, Copy, Debug, PartialEq, Eq, Structural, Hash)]
pub enum IpAddress {
    V4(u8, u8, u8, u8),
    V6(u128),
}

/// How a network interface is configured. CAN sample points are given in
/// thousandths.
#[derive(Clone, Copy, Debug, PartialEq, Eq, Structural)]
pub enum NetworkInterfaceConfiguration {
    Ethernet,
    Can { bitrate: u32, sample_point: u32, fd: bool, data_bitrate: u32, data_sample_point: u32 },
}

/// A network interface of a peer.
#[derive(Debug, PartialEq, Eq)]
pub struct NetworkInterfaceDescriptor {
    pub id: NetworkInterfaceId,
    pub name: NetworkInterfaceName,
    pub configuration: NetworkInterfaceConfiguration,
}

impl Clone for NetworkInterfaceDescriptor {
    fn clone(&self) -> (descriptor: Self)
        ensures
            descriptor == *self,
    {
        NetworkInterfaceDescriptor {
            id: self.id,
            name: self.name.clone(),
            configuration: self.configuration,
        }
    }
}

/// A device of a peer's topology, attached to one of the peer's network interfaces.
#[derive(Clone, Copy, Debug, PartialEq, Eq, Structural)]
pub struct DeviceDescriptor {
    pub id: DeviceId,
    pub interface: NetworkInterfaceId,
}

/// The network interfaces of a peer.
#[derive(Clone, Debug, PartialEq, Eq)]
pub struct PeerNetworkDescriptor {
    pub interfaces: Vec<NetworkInterfaceDescriptor>,
}

/// The first of `interfaces` whose id is `id`, if there is one.
pub open spec fn interface_with_id(
    interfaces: Seq<NetworkInterfaceDescriptor>,
    id: NetworkInterfaceId,
) -> Option<NetworkInterfaceDescriptor> {
    if exists|i: int| 0 <= i < interfaces.len() && interfaces[i].id == id {
        let i = choose|i: int|
            0 <= i < interfaces.len() && interfaces[i].id == id && forall|j: int|
                0 <= j < i ==> interfaces[j].id != id;
        Some(interfaces[i])
    } else {
        None
    }
}

/// Each device that is attached to one of `interfaces`, paired with the first
/// interface that carries the device's interface id, in the order of `devices`;
/// a device whose interface is not among `interfaces` is left out.
pub open spec fn zip_interfaces_with_devices(
    interfaces: Seq<NetworkInterfaceDescriptor>,
    devices: Seq<DeviceDescriptor>,
) -> Seq<(NetworkInterfaceDescriptor, DeviceDescriptor)>
    decreases devices.len(),
{
    if devices.len() == 0 {
        Seq::empty()
    } else {
        let rest = zip_interfaces_with_devices(interfaces, devices.drop_last());
        match interface_with_id(interfaces, devices.last().interface) {
            Some(interface) => rest.push((interface, devices.last())),
            None => rest,
        }
    }
}

proof fn lemma_first_interface_exists(interfaces: Seq<NetworkInterfaceDescriptor>, id: NetworkInterfaceId, k: int)
    requires
        0 <= k < interfaces.len(),
        interfaces[k].id == id,
        forall|j: int| 0 <= j < k ==> interfaces[j].id != id,
    ensures
        interface_with_id(interfaces, id) == Some(interfaces[k]),
{
    let i = choose|i: int|
        0 <= i < interfaces.len() && interfaces[i].id == id && forall|j: int|
            0 <= j < i ==> interfaces[j].id != id;
    assert(i == k) by {
        if i < k {
            assert(interfaces[i].id != id);
        }
        if k < i {
            assert(interfaces[k].id != id);
        }
    }
}

impl PeerNetworkDescriptor {
    /// The first interface with the given id, if any.
    fn find_interface(&self, id: NetworkInterfaceId) -> (found: Option<NetworkInterfaceDescriptor>)
        ensures
            found == interface_with_id(self.interfaces@, id),
    {
        let mut i: usize = 0;
        while i < self.interfaces.len()
            invariant
                0 <= i <= self.interfaces.len(),
                forall|j: int| 0 <= j < i ==> self.interfaces@[j].id != id,
            decreases self.interfaces.len() - i,
        {
            if self.interfaces[i].id == id {
                proof {
                    lemma_first_interface_exists(self.interfaces@, id, i as int);
                }
                return Some(self.interfaces[i].clone());
            }
            i = i + 1;
        }
        None
    }

    /// Pairs each of the given devices with the interface it is attached to.
    pub fn interfaces_zipped_with_devices(&self, devices: &Vec<DeviceDescriptor>) -> (zipped: Vec<
        (NetworkInterfaceDescriptor, DeviceDescriptor),
    >)
        ensures
            zipped@ == zip_interfaces_with_devices(self.interfaces@, devices@),
    {
        let mut zipped: Vec<(NetworkInterfaceDescriptor, DeviceDescriptor)> = Vec::new();
        let mut k: usize = 0;
        while k < devices.len()
            invariant
                0 <= k <= devices.len(),
                zipped@ == zip_interfaces_with_devices(self.interfaces@, devices@.take(k as int)),
            decreases devices.len() - k,
        {
            let device = devices[k];
            let found = self.find_interface(device.interface);
            assert(devices@.take(k + 1).drop_last() =~= devices@.take(k as int));
            if let Some(interface) = found {
                zipped.push((interface, device));
            }
            k = k + 1;
        }
        assert(devices@.take(devices@.len() as int) =~= devices@);
        zipped
    }
}

} // verus!
