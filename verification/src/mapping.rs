use vstd::prelude::*;

use crate::ids::{DeviceId, PeerId};
use crate::network::{
    zip_interfaces_with_devices, DeviceDescriptor, NetworkInterfaceDescriptor,
};
use crate::peer::PeerDescriptor;

verus! {

/// Why no member interface mapping could be determined.
#[derive(Clone, Copy, Debug, PartialEq, Eq, Structural)]
pub enum DetermineMemberInterfaceMappingError {
    /// No peer has the device with this id.
    PeerForDeviceNotFound { device_id: DeviceId },
}

/// The interfaces of each cluster member: one entry per member, no member twice.
pub type MemberInterfaceMapping = Vec<(PeerId, Vec<NetworkInterfaceDescriptor>)>;

/// `peer` has a device with id `device_id`.
pub open spec fn peer_has_device(peer: PeerDescriptor, device_id: DeviceId) -> bool {
    exists|k: int|
        0 <= k < peer.topology.devices@.len() && #[trigger] peer.topology.devices@[k].id
            == device_id
}

/// Some peer of `peers` has a device with id `device_id`.
pub open spec fn device_has_holder(peers: Seq<PeerDescriptor>, device_id: DeviceId) -> bool {
    exists|i: int| 0 <= i < peers.len() && #[trigger] peer_has_device(peers[i], device_id)
}

/// `peers[i]` is the first of `peers` that has a device with id `device_id`.
pub open spec fn is_first_holder(peers: Seq<PeerDescriptor>, device_id: DeviceId, i: int) -> bool {
    &&& 0 <= i < peers.len()
    &&& peer_has_device(peers[i], device_id)
    &&& forall|j: int| 0 <= j < i ==> !#[trigger] peer_has_device(peers[j], device_id)
}

/// The index of the first of `peers` that has a device with id `device_id`.
pub open spec fn first_holder(peers: Seq<PeerDescriptor>, device_id: DeviceId) -> int {
    choose|i: int| is_first_holder(peers, device_id, i)
}

/// The id of the first of `peers` that has a device with id `device_id`.
pub open spec fn holder_id(peers: Seq<PeerDescriptor>, device_id: DeviceId) -> PeerId {
    peers[first_holder(peers, device_id)].id
}

/// The devices of `devices` whose id is `device_id`, in order.
pub open spec fn devices_with_id(devices: Seq<DeviceDescriptor>, device_id: DeviceId) -> Seq<
    DeviceDescriptor,
>
    decreases devices.len(),
{
    if devices.len() == 0 {
        Seq::empty()
    } else {
        let rest = devices_with_id(devices.drop_last(), device_id);
        if devices.last().id == device_id {
            rest.push(devices.last())
        } else {
            rest
        }
    }
}

/// The interfaces of `peer` to which its devices with id `device_id` are
/// attached, as the peer's network descriptor pairs them.
pub open spec fn device_interfaces(peer: PeerDescriptor, device_id: DeviceId) -> Seq<
    NetworkInterfaceDescriptor,
> {
    zip_interfaces_with_devices(
        peer.network.interfaces@,
        devices_with_id(peer.topology.devices@, device_id),
    ).map_values(|pair: (NetworkInterfaceDescriptor, DeviceDescriptor)| pair.0)
}

/// `devices[k]` does not occur earlier in `devices`: the devices form a set, and
/// only the first occurrence of an id counts.
pub open spec fn first_occurrence(devices: Seq<DeviceId>, k: int) -> bool {
    forall|j: int| 0 <= j < k ==> devices[j] != devices[k]
}

/// The interfaces that the cluster devices give to member `peer_id`: for each
/// device (once per id, in order) whose first holder has id `peer_id`, that
/// holder's interfaces for the device.
pub open spec fn member_interfaces(
    devices: Seq<DeviceId>,
    peers: Seq<PeerDescriptor>,
    peer_id: PeerId,
) -> Seq<NetworkInterfaceDescriptor>
    decreases devices.len(),
{
    if devices.len() == 0 {
        Seq::empty()
    } else {
        let k = devices.len() - 1;
        let device_id = devices[k];
        let rest = member_interfaces(devices.drop_last(), peers, peer_id);
        if first_occurrence(devices, k) && holder_id(peers, device_id) == peer_id {
            rest + device_interfaces(peers[first_holder(peers, device_id)], device_id)
        } else {
            rest
        }
    }
}

/// Every cluster device has a holder among `peers`.
pub open spec fn all_devices_held(devices: Seq<DeviceId>, peers: Seq<PeerDescriptor>) -> bool {
    forall|k: int| 0 <= k < devices.len() ==> device_has_holder(peers, #[trigger] devices[k])
}

/// `devices[k]` is the first cluster device without a holder among `peers`.
pub open spec fn is_first_unheld(devices: Seq<DeviceId>, peers: Seq<PeerDescriptor>, k: int) -> bool {
    &&& 0 <= k < devices.len()
    &&& !device_has_holder(peers, devices[k])
    &&& forall|j: int| 0 <= j < k ==> device_has_holder(peers, #[trigger] devices[j])
}

/// `peer_id` is a member of the cluster: the leader, or the first holder of a
/// cluster device.
pub open spec fn is_member(
    devices: Seq<DeviceId>,
    peers: Seq<PeerDescriptor>,
    leader: PeerId,
    peer_id: PeerId,
) -> bool {
    ||| peer_id == leader
    ||| exists|k: int| 0 <= k < devices.len() && #[trigger] holder_id(peers, devices[k]) == peer_id
}

/// `mapping` has one entry for each member and no other, each with the member's
/// interfaces; the order of the entries is left open.
pub open spec fn is_member_interface_mapping(
    devices: Seq<DeviceId>,
    peers: Seq<PeerDescriptor>,
    leader: PeerId,
    mapping: Seq<(PeerId, Vec<NetworkInterfaceDescriptor>)>,
) -> bool {
    &&& forall|i: int, j: int|
        0 <= i < j < mapping.len() ==> #[trigger] mapping[i].0 != #[trigger] mapping[j].0
    &&& forall|i: int|
        0 <= i < mapping.len() ==> is_member(devices, peers, leader, #[trigger] mapping[i].0)
    &&& exists|i: int| 0 <= i < mapping.len() && #[trigger] mapping[i].0 == leader
    &&& forall|k: int|
        0 <= k < devices.len() ==> exists|i: int|
            0 <= i < mapping.len() && #[trigger] mapping[i].0 == holder_id(
                peers,
                #[trigger] devices[k],
            )
    &&& forall|i: int|
        0 <= i < mapping.len() ==> (#[trigger] mapping[i]).1@ == member_interfaces(
            devices,
            peers,
            mapping[i].0,
        )
}

fn peer_has_device_exec(peer: &PeerDescriptor, device_id: DeviceId) -> (found: bool)
    ensures
        found == peer_has_device(*peer, device_id),
{
    let devices = &peer.topology.devices;
    let mut k: usize = 0;
    while k < devices.len()
        invariant
            0 <= k <= devices.len(),
            devices == &peer.topology.devices,
            forall|j: int| 0 <= j < k ==> devices@[j].id != device_id,
        decreases devices.len() - k,
    {
        if devices[k].id == device_id {
            return true;
        }
        k = k + 1;
    }
    false
}

fn find_first_holder(peers: &Vec<PeerDescriptor>, device_id: DeviceId) -> (found: Option<usize>)
    ensures
        match found {
            Some(i) => is_first_holder(peers@, device_id, i as int),
            None => !device_has_holder(peers@, device_id),
        },
{
    let mut i: usize = 0;
    while i < peers.len()
        invariant
            0 <= i <= peers.len(),
            forall|j: int| 0 <= j < i ==> !#[trigger] peer_has_device(peers@[j], device_id),
        decreases peers.len() - i,
    {
        if peer_has_device_exec(&peers[i], device_id) {
            return Some(i);
        }
        i = i + 1;
    }
    None
}

fn select_devices_with_id(devices: &Vec<DeviceDescriptor>, device_id: DeviceId) -> (selected: Vec<
    DeviceDescriptor,
>)
    ensures
        selected@ == devices_with_id(devices@, device_id),
{
    let mut selected: Vec<DeviceDescriptor> = Vec::new();
    let mut k: usize = 0;
    while k < devices.len()
        invariant
            0 <= k <= devices.len(),
            selected@ == devices_with_id(devices@.take(k as int), device_id),
        decreases devices.len() - k,
    {
        assert(devices@.take(k + 1).drop_last() =~= devices@.take(k as int));
        if devices[k].id == device_id {
            selected.push(devices[k]);
        }
        k = k + 1;
    }
    assert(devices@.take(devices@.len() as int) =~= devices@);
    selected
}

fn holder_interfaces(peer: &PeerDescriptor, device_id: DeviceId) -> (interfaces: Vec<
    NetworkInterfaceDescriptor,
>)
    ensures
        interfaces@ == device_interfaces(*peer, device_id),
{
    let devices = select_devices_with_id(&peer.topology.devices, device_id);
    let zipped = peer.network.interfaces_zipped_with_devices(&devices);
    let mut interfaces: Vec<NetworkInterfaceDescriptor> = Vec::new();
    let mut k: usize = 0;
    while k < zipped.len()
        invariant
            0 <= k <= zipped.len(),
            interfaces@ == zipped@.take(k as int).map_values(
                |pair: (NetworkInterfaceDescriptor, DeviceDescriptor)| pair.0,
            ),
        decreases zipped.len() - k,
    {
        interfaces.push(zipped[k].0.clone());
        assert(zipped@.take(k + 1).map_values(
            |pair: (NetworkInterfaceDescriptor, DeviceDescriptor)| pair.0,
        ) =~= zipped@.take(k as int).map_values(
            |pair: (NetworkInterfaceDescriptor, DeviceDescriptor)| pair.0,
        ).push(zipped@[k as int].0));
        k = k + 1;
    }
    assert(zipped@.take(zipped@.len() as int) =~= zipped@);
    interfaces
}

fn occurs_before(devices: &Vec<DeviceId>, k: usize) -> (occurs: bool)
    requires
        k < devices.len(),
    ensures
        occurs == !first_occurrence(devices@, k as int),
{
    let mut j: usize = 0;
    while j < k
        invariant
            0 <= j <= k < devices.len(),
            forall|i: int| 0 <= i < j ==> devices@[i] != devices@[k as int],
        decreases k - j,
    {
        if devices[j] == devices[k] {
            return true;
        }
        j = j + 1;
    }
    false
}


pub(crate) proof fn lemma_first_holder_unique(peers: Seq<PeerDescriptor>, device_id: DeviceId, i: int)
    requires
        is_first_holder(peers, device_id, i),
    ensures
        first_holder(peers, device_id) == i,
        holder_id(peers, device_id) == peers[i].id,
{
    let c = first_holder(peers, device_id);
    assert(is_first_holder(peers, device_id, c));
    if c < i {
        assert(!peer_has_device(peers[c], device_id));
    }
    if i < c {
        assert(!peer_has_device(peers[i], device_id));
    }
}

proof fn lemma_member_interfaces_step(
    devices: Seq<DeviceId>,
    peers: Seq<PeerDescriptor>,
    peer_id: PeerId,
    k: int,
)
    requires
        0 <= k < devices.len(),
    ensures
        member_interfaces(devices.take(k + 1), peers, peer_id) == if first_occurrence(devices, k)
            && holder_id(peers, devices[k]) == peer_id {
            member_interfaces(devices.take(k), peers, peer_id) + device_interfaces(
                peers[first_holder(peers, devices[k])],
                devices[k],
            )
        } else {
            member_interfaces(devices.take(k), peers, peer_id)
        },
{
    let prefix = devices.take(k + 1);
    assert(prefix.drop_last() =~= devices.take(k));
    assert forall|j: int| 0 <= j <= k implies #[trigger] prefix[j] == devices[j] by {}
    if first_occurrence(devices, k) {
        assert forall|j: int| 0 <= j < k implies prefix[j] != prefix[k] by {
            assert(prefix[j] == devices[j]);
        }
    }
    if first_occurrence(prefix, k) {
        assert forall|j: int| 0 <= j < k implies devices[j] != devices[k] by {
            assert(prefix[j] == devices[j]);
        }
    }
    assert(first_occurrence(prefix, k) == first_occurrence(devices, k));
}

proof fn lemma_member_interfaces_of_non_member(
    devices: Seq<DeviceId>,
    peers: Seq<PeerDescriptor>,
    peer_id: PeerId,
)
    requires
        forall|k: int| 0 <= k < devices.len() ==> #[trigger] holder_id(peers, devices[k]) != peer_id,
    ensures
        member_interfaces(devices, peers, peer_id) == Seq::<NetworkInterfaceDescriptor>::empty(),
    decreases devices.len(),
{
    if devices.len() > 0 {
        let rest = devices.drop_last();
        assert forall|k: int| 0 <= k < rest.len() implies #[trigger] holder_id(peers, rest[k]) != peer_id by {
            assert(rest[k] == devices[k]);
        }
        lemma_member_interfaces_of_non_member(rest, peers, peer_id);
        assert(holder_id(peers, devices[devices.len() - 1]) != peer_id);
    }
}

/// Determines, for a cluster with the given devices and leader, the network
/// interfaces of each member: the leader is always a member, with no interfaces
/// unless it holds cluster devices; each cluster device makes the first of
/// `all_peers` that has it a member and adds that peer's interfaces for the
/// device. Fails with the first cluster device that no peer has.
pub fn determine_member_interface_mapping(
    cluster_devices: &Vec<DeviceId>,
    all_peers: &Vec<PeerDescriptor>,
    leader: PeerId,
) -> (result: Result<MemberInterfaceMapping, DetermineMemberInterfaceMappingError>)
    ensures
        match result {
            Ok(mapping) => {
                &&& all_devices_held(cluster_devices@, all_peers@)
                &&& is_member_interface_mapping(cluster_devices@, all_peers@, leader, mapping@)
            },
            Err(DetermineMemberInterfaceMappingError::PeerForDeviceNotFound { device_id }) => {
                exists|k: int|
                    is_first_unheld(cluster_devices@, all_peers@, k) && cluster_devices@[k]
                        == device_id
            },
        },
        result is Ok <==> all_devices_held(cluster_devices@, all_peers@),
{
    let ghost devices = cluster_devices@;
    let ghost peers = all_peers@;
    let mut result: MemberInterfaceMapping = Vec::new();
    result.push((leader, Vec::new()));
    proof {
        let m = result@;
        assert(devices.take(0) =~= Seq::<DeviceId>::empty());
        assert(m[0].0 == leader);
        assert(m[0].1@ == member_interfaces(devices.take(0), peers, leader));
    }
    let mut k: usize = 0;
    while k < cluster_devices.len()
        invariant
            0 <= k <= cluster_devices.len(),
            devices == cluster_devices@,
            peers == all_peers@,
            all_devices_held(devices.take(k as int), peers),
            is_member_interface_mapping(devices.take(k as int), peers, leader, result@),
        decreases cluster_devices.len() - k,
    {
        let ghost prefix = devices.take(k as int);
        let ghost next = devices.take(k + 1);
        let ghost before = result@;
        let device_id = cluster_devices[k];
        assert(next[k as int] == device_id);
        assert forall|j: int| 0 <= j < k implies #[trigger] next[j] == prefix[j] by {}
        if occurs_before(cluster_devices, k) {
            let ghost j0 = choose|j: int| 0 <= j < k && devices[j] == device_id;
            proof {
                assert(prefix[j0] == device_id);
                assert(device_has_holder(peers, prefix[j0]));
                assert forall|p: PeerId| true implies member_interfaces(next, peers, p)
                    == member_interfaces(prefix, peers, p) by {
                    lemma_member_interfaces_step(devices, peers, p, k as int);
                }
                assert(is_member_interface_mapping(next, peers, leader, result@)) by {
                    assert forall|i: int| 0 <= i < result@.len() implies is_member(
                        next,
                        peers,
                        leader,
                        #[trigger] result@[i].0,
                    ) by {
                        if result@[i].0 != leader {
                            let w = choose|w: int|
                                0 <= w < prefix.len() && #[trigger] holder_id(peers, prefix[w])
                                    == result@[i].0;
                            assert(holder_id(peers, next[w]) == result@[i].0);
                        }
                    }
                    assert forall|w: int| 0 <= w < next.len() implies exists|i: int|
                        0 <= i < result@.len() && #[trigger] result@[i].0 == holder_id(
                            peers,
                            #[trigger] next[w],
                        ) by {
                        if w < k {
                            assert(holder_id(peers, prefix[w]) == holder_id(peers, next[w]));
                        } else {
                            assert(holder_id(peers, prefix[j0]) == holder_id(peers, next[w]));
                        }
                    }
                }
                assert forall|w: int| 0 <= w < next.len() implies device_has_holder(
                    peers,
                    #[trigger] next[w],
                ) by {
                    if w < k {
                        assert(device_has_holder(peers, prefix[w]));
                    }
                }
            }
            k = k + 1;
            continue;
        }
        match find_first_holder(all_peers, device_id) {
            None => {
                proof {
                    assert forall|j: int| 0 <= j < k implies device_has_holder(
                        peers,
                        #[trigger] devices[j],
                    ) by {
                        assert(devices[j] == prefix[j]);
                    }
                    assert(is_first_unheld(devices, peers, k as int));
                    assert(!all_devices_held(devices, peers));
                }
                return Err(
                    DetermineMemberInterfaceMappingError::PeerForDeviceNotFound { device_id },
                );
            },
            Some(i) => {
                proof {
                    lemma_first_holder_unique(peers, device_id, i as int);
                }
                let peer = &all_peers[i];
                let peer_id = peer.id;
                let mut interfaces = holder_interfaces(peer, device_id);
                let ghost added = interfaces@;
                let mut j: usize = 0;
                while j < result.len()
                    invariant
                        0 <= j <= result.len(),
                        result@ == before,
                        forall|l: int| 0 <= l < j ==> result@[l].0 != peer_id,
                    ensures
                        0 <= j <= result.len(),
                        result@ == before,
                        forall|l: int| 0 <= l < j ==> result@[l].0 != peer_id,
                        j < result.len() ==> result@[j as int].0 == peer_id,
                    decreases result.len() - j,
                {
                    if result[j].0 == peer_id {
                        break;
                    }
                    j = j + 1;
                }
                proof {
                    assert forall|p: PeerId| true implies #[trigger] member_interfaces(next, peers, p)
                        == if p == peer_id {
                        member_interfaces(prefix, peers, p) + added
                    } else {
                        member_interfaces(prefix, peers, p)
                    } by {
                        lemma_member_interfaces_step(devices, peers, p, k as int);
                    }
                }
                if j < result.len() {
                    result[j].1.append(&mut interfaces);
                    assert(result@[j as int].1@ == before[j as int].1@ + added);
                    assert(result@[j as int].0 == peer_id);
                    assert forall|l: int| 0 <= l < result@.len() && l != j implies result@[l] == before[l] by {}
                } else {
                    proof {
                        assert forall|w: int| 0 <= w < prefix.len() implies #[trigger] holder_id(
                            peers,
                            prefix[w],
                        ) != peer_id by {
                            if holder_id(peers, prefix[w]) == peer_id {
                                let l = choose|l: int|
                                    0 <= l < before.len() && #[trigger] before[l].0 == holder_id(
                                        peers,
                                        prefix[w],
                                    );
                                assert(before[l].0 == peer_id);
                            }
                        }
                        lemma_member_interfaces_of_non_member(prefix, peers, peer_id);
                        assert(added =~= Seq::<NetworkInterfaceDescriptor>::empty() + added);
                    }
                    result.push((peer_id, interfaces));
                }
                proof {
                    let after = result@;
                    assert(is_member(next, peers, leader, peer_id)) by {
                        assert(holder_id(peers, next[k as int]) == peer_id);
                    }
                    assert forall|l: int| 0 <= l < after.len() implies is_member(
                        next,
                        peers,
                        leader,
                        #[trigger] after[l].0,
                    ) by {
                        if after[l].0 != leader && after[l].0 != peer_id {
                            assert(after[l].0 == before[l].0);
                            let w = choose|w: int|
                                0 <= w < prefix.len() && #[trigger] holder_id(peers, prefix[w])
                                    == before[l].0;
                            assert(holder_id(peers, next[w]) == after[l].0);
                        }
                    }
                    assert forall|w: int| 0 <= w < next.len() implies exists|l: int|
                        0 <= l < after.len() && #[trigger] after[l].0 == holder_id(
                            peers,
                            #[trigger] next[w],
                        ) by {
                        if w < k {
                            assert(holder_id(peers, prefix[w]) == holder_id(peers, next[w]));
                            let l = choose|l: int|
                                0 <= l < before.len() && #[trigger] before[l].0 == holder_id(
                                    peers,
                                    prefix[w],
                                );
                            assert(after[l].0 == before[l].0);
                        } else {
                            assert(after[j as int].0 == peer_id);
                        }
                    }
                    let l0 = choose|l: int| 0 <= l < before.len() && #[trigger] before[l].0 == leader;
                    assert(after[l0].0 == leader);
                    assert forall|a: int, b: int| 0 <= a < b < after.len() implies #[trigger] after[a].0
                        != #[trigger] after[b].0 by {
                        if b < before.len() {
                            assert(after[a].0 == before[a].0 && after[b].0 == before[b].0);
                        }
                    }
                    assert forall|l: int| 0 <= l < after.len() implies (#[trigger] after[l]).1@
                        == member_interfaces(next, peers, after[l].0) by {
                        if l < before.len() {
                            assert(member_interfaces(next, peers, before[l].0) == if before[l].0
                                == peer_id {
                                member_interfaces(prefix, peers, before[l].0) + added
                            } else {
                                member_interfaces(prefix, peers, before[l].0)
                            });
                        } else {
                            assert(member_interfaces(next, peers, peer_id) == member_interfaces(
                                prefix,
                                peers,
                                peer_id,
                            ) + added);
                        }
                    }
                    assert forall|w: int| 0 <= w < next.len() implies device_has_holder(
                        peers,
                        #[trigger] next[w],
                    ) by {
                        if w < k {
                            assert(device_has_holder(peers, prefix[w]));
                        } else {
                            assert(peer_has_device(peers[i as int], device_id));
                        }
                    }
                }
                k = k + 1;
            },
        }
    }
    assert(devices.take(devices.len() as int) =~= devices);
    Ok(result)
}
} // verus!
