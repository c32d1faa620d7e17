use vstd::prelude::*;
use vstd::multiset::Multiset;

use crate::deletion::{cluster_member_ids, has_cluster_device};
use crate::deploy::{deploy_step, DeployAction, DeployEvent, DeployRun};
use crate::ids::{DeviceId, PeerId, Port};
use crate::manager::ClusterManager;
use crate::mapping::{
    all_devices_held, device_has_holder, device_interfaces, devices_with_id, first_holder,
    first_occurrence, holder_id, is_first_holder, is_member, is_member_interface_mapping,
    lemma_first_holder_unique, member_interfaces, peer_has_device,
};
use crate::network::{interface_with_id, zip_interfaces_with_devices, DeviceDescriptor, NetworkInterfaceDescriptor};
use crate::peer::PeerDescriptor;

verus! {

pub(crate) proof fn lemma_first_matching_interface_exists(
    interfaces: Seq<NetworkInterfaceDescriptor>,
    id: crate::ids::NetworkInterfaceId,
    i: int,
)
    requires
        0 <= i < interfaces.len(),
        interfaces[i].id == id,
    ensures
        exists|f: int|
            0 <= f < interfaces.len() && interfaces[f].id == id && forall|j: int|
                0 <= j < f ==> #[trigger] interfaces[j].id != id,
    decreases i,
{
    if exists|j: int| 0 <= j < i && #[trigger] interfaces[j].id == id {
        let j = choose|j: int| 0 <= j < i && #[trigger] interfaces[j].id == id;
        lemma_first_matching_interface_exists(interfaces, id, j);
    } else {
        assert(forall|j: int| 0 <= j < i ==> #[trigger] interfaces[j].id != id);
    }
}

proof fn lemma_found_interface_is_given(interfaces: Seq<NetworkInterfaceDescriptor>, id: crate::ids::NetworkInterfaceId)
    ensures
        interface_with_id(interfaces, id) matches Some(found) ==> interfaces.contains(found),
{
    if exists|i: int| 0 <= i < interfaces.len() && interfaces[i].id == id {
        let w = choose|i: int| 0 <= i < interfaces.len() && interfaces[i].id == id;
        lemma_first_matching_interface_exists(interfaces, id, w);
        let i = choose|i: int|
            0 <= i < interfaces.len() && interfaces[i].id == id && forall|j: int|
                0 <= j < i ==> interfaces[j].id != id;
        assert(0 <= i < interfaces.len());
        assert(interfaces[i] == interfaces[i]);
    }
}

proof fn lemma_zipped_interfaces_are_given(
    interfaces: Seq<NetworkInterfaceDescriptor>,
    devices: Seq<DeviceDescriptor>,
)
    ensures
        forall|j: int|
            0 <= j < zip_interfaces_with_devices(interfaces, devices).len() ==> interfaces.contains(
                #[trigger] zip_interfaces_with_devices(interfaces, devices)[j].0,
            ),
    decreases devices.len(),
{
    if devices.len() > 0 {
        let rest = zip_interfaces_with_devices(interfaces, devices.drop_last());
        let zipped = zip_interfaces_with_devices(interfaces, devices);
        lemma_zipped_interfaces_are_given(interfaces, devices.drop_last());
        lemma_found_interface_is_given(interfaces, devices.last().interface);
        assert forall|j: int| 0 <= j < zipped.len() implies interfaces.contains(#[trigger] zipped[j].0) by {
            if j < rest.len() {
                assert(zipped[j] == rest[j]);
            }
        }
    }
}

proof fn lemma_device_interfaces_are_peer_interfaces(peer: PeerDescriptor, device_id: DeviceId)
    ensures
        forall|j: int|
            0 <= j < device_interfaces(peer, device_id).len() ==> peer.network.interfaces@.contains(
                #[trigger] device_interfaces(peer, device_id)[j],
            ),
{
    let devices = devices_with_id(peer.topology.devices@, device_id);
    lemma_zipped_interfaces_are_given(peer.network.interfaces@, devices);
    let zipped = zip_interfaces_with_devices(peer.network.interfaces@, devices);
    assert forall|j: int| 0 <= j < device_interfaces(peer, device_id).len() implies peer.network.interfaces@.contains(
        #[trigger] device_interfaces(peer, device_id)[j],
    ) by {
        assert(device_interfaces(peer, device_id)[j] == zipped[j].0);
    }
}

proof fn lemma_first_holder_exists(peers: Seq<PeerDescriptor>, device_id: DeviceId, i: int)
    requires
        0 <= i < peers.len(),
        peer_has_device(peers[i], device_id),
    ensures
        is_first_holder(peers, device_id, first_holder(peers, device_id)),
    decreases i,
{
    if forall|j: int| 0 <= j < i ==> !#[trigger] peer_has_device(peers[j], device_id) {
        assert(is_first_holder(peers, device_id, i));
    } else {
        let j = choose|j: int| 0 <= j < i && #[trigger] peer_has_device(peers[j], device_id);
        lemma_first_holder_exists(peers, device_id, j);
    }
}

/// Every interface that a cluster member is given is one of the member's own
/// interfaces: a peer with the member's id has it among its network interfaces.
pub proof fn lemma_member_interfaces_are_own_interfaces(
    devices: Seq<DeviceId>,
    peers: Seq<PeerDescriptor>,
    peer_id: PeerId,
)
    requires
        all_devices_held(devices, peers),
    ensures
        forall|j: int|
            0 <= j < member_interfaces(devices, peers, peer_id).len() ==> exists|q: int|
                0 <= q < peers.len() && peers[q].id == peer_id
                    && peers[q].network.interfaces@.contains(
                    #[trigger] member_interfaces(devices, peers, peer_id)[j],
                ),
    decreases devices.len(),
{
    if devices.len() > 0 {
        let rest = devices.drop_last();
        assert forall|k: int| 0 <= k < rest.len() implies device_has_holder(peers, #[trigger] rest[k]) by {
            assert(rest[k] == devices[k]);
        }
        lemma_member_interfaces_are_own_interfaces(rest, peers, peer_id);
        let k = devices.len() - 1;
        let device_id = devices[k];
        let holder = first_holder(peers, device_id);
        let before = member_interfaces(rest, peers, peer_id);
        let all = member_interfaces(devices, peers, peer_id);
        assert(device_has_holder(peers, devices[k]));
        let w = choose|i: int| 0 <= i < peers.len() && #[trigger] peer_has_device(peers[i], device_id);
        lemma_first_holder_exists(peers, device_id, w);
        lemma_device_interfaces_are_peer_interfaces(peers[holder], device_id);
        assert forall|j: int| 0 <= j < all.len() implies exists|q: int|
            0 <= q < peers.len() && peers[q].id == peer_id && peers[q].network.interfaces@.contains(
                #[trigger] all[j],
            ) by {
            if j < before.len() {
                assert(all[j] == before[j]);
            } else {
                assert(holder_id(peers, device_id) == peer_id);
                assert(all[j] == device_interfaces(peers[holder], device_id)[j - before.len()]);
                assert(peers[holder].network.interfaces@.contains(all[j]));
            }
        }
    }
}

/// A leader that holds none of the cluster devices is given no interfaces.
pub proof fn lemma_leader_without_devices_has_no_interfaces(
    devices: Seq<DeviceId>,
    peers: Seq<PeerDescriptor>,
    leader: PeerId,
)
    requires
        forall|k: int| 0 <= k < devices.len() ==> #[trigger] holder_id(peers, devices[k]) != leader,
    ensures
        member_interfaces(devices, peers, leader) == Seq::<NetworkInterfaceDescriptor>::empty(),
    decreases devices.len(),
{
    if devices.len() > 0 {
        let rest = devices.drop_last();
        assert forall|k: int| 0 <= k < rest.len() implies #[trigger] holder_id(peers, rest[k]) != leader by {
            assert(rest[k] == devices[k]);
        }
        lemma_leader_without_devices_has_no_interfaces(rest, peers, leader);
        assert(holder_id(peers, devices[devices.len() - 1]) != leader);
    }
}

/// When a deployment step hands out CAN server ports, they start no lower than
/// the range start, and the manager's counter then points just past the last of
/// them, still below the end of the range.
pub proof fn lemma_counter_follows_handed_out_ports(
    before: ClusterManager,
    run: DeployRun,
    event: DeployEvent,
    after: ClusterManager,
    next: DeployRun,
    action: DeployAction,
)
    requires
        before.wf(),
        deploy_step(before, run, event, after, next, action),
        next.stage_spec() is AwaitingPeerStates,
    ensures
        ({
            let first_port = next.stage_spec()->first_port;
            let n = next.stage_spec()->AwaitingPeerStates_mapping@.len();
            &&& first_port == if before.counter_spec() + n >= before.options_spec().can_server_port_range_end {
                before.options_spec().can_server_port_range_start as int
            } else {
                before.counter_spec() as int
            }
            &&& after.options_spec() == before.options_spec()
            &&& after.options_spec().can_server_port_range_start <= first_port
            &&& after.counter_spec() == first_port + n
            &&& after.counter_spec() < after.options_spec().can_server_port_range_end
        }),
{
}

/// Over one deployment, the members' CAN server ports are consecutive: member
/// `i` of the mapping gets the port `p + i`, where `p` is the counter, or the
/// start of the range when the ports would reach its end; the ports lie in the
/// range, and the counter then stands at `p + n` for the next deployment.
pub proof fn lemma_deployment_ports_are_consecutive(
    before: ClusterManager,
    run: DeployRun,
    event: DeployEvent,
    middle: ClusterManager,
    waiting: DeployRun,
    action: DeployAction,
    states_event: DeployEvent,
    after: ClusterManager,
    assigning: DeployRun,
    assign_action: DeployAction,
)
    requires
        before.wf(),
        deploy_step(before, run, event, middle, waiting, action),
        waiting.stage_spec() is AwaitingPeerStates,
        deploy_step(middle, waiting, states_event, after, assigning, assign_action),
        assigning.stage_spec() is Assigning,
    ensures
        ({
            let mapping = waiting.stage_spec()->AwaitingPeerStates_mapping@;
            let n = mapping.len();
            let options = before.options_spec();
            let p = if before.counter_spec() + n >= options.can_server_port_range_end {
                options.can_server_port_range_start as int
            } else {
                before.counter_spec() as int
            };
            let assignments = assigning.stage_spec()->assignment@.assignments;
            &&& assignments.len() == n
            &&& forall|i: int|
                0 <= i < n ==> (#[trigger] assignments[i]).peer_id == mapping[i].0
                    && assignments[i].can_server_port == Port((p + i) as u16)
            &&& options.can_server_port_range_start <= p
            &&& p + n < options.can_server_port_range_end
            &&& after.counter_spec() == p + n
        }),
{
    lemma_counter_follows_handed_out_ports(before, run, event, middle, waiting, action);
}

/// Two deployments that follow each other, the second starting from the counter
/// the first left, get adjacent, disjoint port ranges as long as both fit
/// before the end of the range; a fresh manager starts at the range start.
pub proof fn lemma_consecutive_deployments_get_adjacent_ports(
    first_before: ClusterManager,
    first_run: DeployRun,
    first_event: DeployEvent,
    first_after: ClusterManager,
    first_waiting: DeployRun,
    first_action: DeployAction,
    second_before: ClusterManager,
    second_run: DeployRun,
    second_event: DeployEvent,
    second_after: ClusterManager,
    second_waiting: DeployRun,
    second_action: DeployAction,
)
    requires
        first_before.wf(),
        deploy_step(first_before, first_run, first_event, first_after, first_waiting, first_action),
        first_waiting.stage_spec() is AwaitingPeerStates,
        second_before.options_spec() == first_after.options_spec(),
        second_before.counter_spec() == first_after.counter_spec(),
        deploy_step(second_before, second_run, second_event, second_after, second_waiting, second_action),
        second_waiting.stage_spec() is AwaitingPeerStates,
    ensures
        ({
            let start = first_before.options_spec().can_server_port_range_start;
            let end = first_before.options_spec().can_server_port_range_end;
            let n1 = first_waiting.stage_spec()->AwaitingPeerStates_mapping@.len();
            let p1 = first_waiting.stage_spec()->first_port;
            let n2 = second_waiting.stage_spec()->AwaitingPeerStates_mapping@.len();
            let p2 = second_waiting.stage_spec()->first_port;
            &&& p1 + n1 + n2 < end ==> p2 == p1 + n1
            &&& first_before.counter_spec() == start && start + n1 + n2 < end ==> p1 == start && p2 == start + n1
        }),
{
    lemma_counter_follows_handed_out_ports(first_before, first_run, first_event, first_after, first_waiting, first_action);
    assert(second_before.wf());
    lemma_counter_follows_handed_out_ports(second_before, second_run, second_event, second_after, second_waiting, second_action);
}


proof fn lemma_peer_with_cluster_device_is_listed(devices: Seq<DeviceId>, peers: Seq<PeerDescriptor>, i: int)
    requires
        0 <= i < peers.len(),
        has_cluster_device(peers[i], devices),
    ensures
        cluster_member_ids(devices, peers).contains(peers[i].id),
    decreases peers.len(),
{
    let last = peers.len() - 1;
    if i == last {
        assert(cluster_member_ids(devices, peers).last() == peers[i].id);
    } else {
        let rest = peers.drop_last();
        assert(rest[i] == peers[i]);
        lemma_peer_with_cluster_device_is_listed(devices, rest, i);
        let before = cluster_member_ids(devices, rest);
        let w = choose|w: int| 0 <= w < before.len() && before[w] == peers[i].id;
        let all = cluster_member_ids(devices, peers);
        assert(all[w] == before[w]);
    }
}

/// Deleting a deployment unassigns every member that deploying the cluster made
/// a member, apart from a leader that holds no cluster device: given the same
/// devices and peers, each member of a member interface mapping other than the
/// leader has a cluster device.
pub proof fn lemma_deletion_unassigns_every_deployed_member(
    devices: Seq<DeviceId>,
    peers: Seq<PeerDescriptor>,
    leader: PeerId,
    mapping: Seq<(PeerId, Vec<NetworkInterfaceDescriptor>)>,
)
    requires
        all_devices_held(devices, peers),
        is_member_interface_mapping(devices, peers, leader, mapping),
    ensures
        forall|i: int|
            0 <= i < mapping.len() && (#[trigger] mapping[i]).0 != leader ==> cluster_member_ids(
                devices,
                peers,
            ).contains(mapping[i].0),
{
    assert forall|i: int| 0 <= i < mapping.len() && (#[trigger] mapping[i]).0 != leader implies cluster_member_ids(
        devices,
        peers,
    ).contains(mapping[i].0) by {
        let k = choose|k: int| 0 <= k < devices.len() && #[trigger] holder_id(peers, devices[k]) == mapping[i].0;
        let device_id = devices[k];
        assert(device_has_holder(peers, devices[k]));
        let w = choose|w: int| 0 <= w < peers.len() && #[trigger] peer_has_device(peers[w], device_id);
        lemma_first_holder_exists(peers, device_id, w);
        let holder = first_holder(peers, device_id);
        let d = choose|d: int|
            0 <= d < peers[holder].topology.devices@.len() && #[trigger] peers[holder].topology.devices@[d].id
                == device_id;
        assert(devices.contains(device_id));
        assert(has_cluster_device(peers[holder], devices));
        lemma_peer_with_cluster_device_is_listed(devices, peers, holder);
    }
}

proof fn lemma_first_holder_kept(peers: Seq<PeerDescriptor>, extra: PeerDescriptor, device_id: DeviceId)
    requires
        device_has_holder(peers, device_id),
    ensures
        device_has_holder(peers.push(extra), device_id),
        first_holder(peers.push(extra), device_id) == first_holder(peers, device_id),
        holder_id(peers.push(extra), device_id) == holder_id(peers, device_id),
        peers.push(extra)[first_holder(peers, device_id)] == peers[first_holder(peers, device_id)],
{
    let more = peers.push(extra);
    let w = choose|i: int| 0 <= i < peers.len() && #[trigger] peer_has_device(peers[i], device_id);
    lemma_first_holder_exists(peers, device_id, w);
    let holder = first_holder(peers, device_id);
    assert(more[w] == peers[w]);
    assert(is_first_holder(more, device_id, holder)) by {
        assert(more[holder] == peers[holder]);
        assert forall|j: int| 0 <= j < holder implies !#[trigger] peer_has_device(more[j], device_id) by {
            assert(more[j] == peers[j]);
        }
    }
    lemma_first_holder_unique(more, device_id, holder);
}

proof fn lemma_member_interfaces_with_appended_peer(
    devices: Seq<DeviceId>,
    peers: Seq<PeerDescriptor>,
    extra: PeerDescriptor,
    peer_id: PeerId,
)
    requires
        all_devices_held(devices, peers),
    ensures
        member_interfaces(devices, peers.push(extra), peer_id) == member_interfaces(devices, peers, peer_id),
    decreases devices.len(),
{
    if devices.len() > 0 {
        let rest = devices.drop_last();
        assert forall|k: int| 0 <= k < rest.len() implies device_has_holder(peers, #[trigger] rest[k]) by {
            assert(rest[k] == devices[k]);
        }
        lemma_member_interfaces_with_appended_peer(rest, peers, extra, peer_id);
        assert(device_has_holder(peers, devices[devices.len() - 1]));
        lemma_first_holder_kept(peers, extra, devices[devices.len() - 1]);
    }
}

/// A peer listed after all others changes nothing about the members: with every
/// cluster device held, a member interface mapping for the peers is one for the
/// peers with another appended, and the other way round.
pub proof fn lemma_appended_peer_changes_no_mapping(
    devices: Seq<DeviceId>,
    peers: Seq<PeerDescriptor>,
    leader: PeerId,
    extra: PeerDescriptor,
)
    requires
        all_devices_held(devices, peers),
    ensures
        all_devices_held(devices, peers.push(extra)),
        forall|mapping: Seq<(PeerId, Vec<NetworkInterfaceDescriptor>)>|
            is_member_interface_mapping(devices, peers, leader, mapping)
                <==> #[trigger] is_member_interface_mapping(devices, peers.push(extra), leader, mapping),
{
    let more = peers.push(extra);
    assert forall|k: int| 0 <= k < devices.len() implies device_has_holder(more, #[trigger] devices[k])
        && holder_id(more, devices[k]) == holder_id(peers, devices[k]) by {
        lemma_first_holder_kept(peers, extra, devices[k]);
    }
    assert forall|p: PeerId| #[trigger] member_interfaces(devices, more, p) == member_interfaces(devices, peers, p) by {
        lemma_member_interfaces_with_appended_peer(devices, peers, extra, p);
    }
    assert forall|p: PeerId| #[trigger] is_member(devices, more, leader, p) == is_member(devices, peers, leader, p) by {
        if is_member(devices, peers, leader, p) && p != leader {
            let k = choose|k: int| 0 <= k < devices.len() && #[trigger] holder_id(peers, devices[k]) == p;
            assert(holder_id(more, devices[k]) == p);
        }
        if is_member(devices, more, leader, p) && p != leader {
            let k = choose|k: int| 0 <= k < devices.len() && #[trigger] holder_id(more, devices[k]) == p;
            assert(holder_id(peers, devices[k]) == p);
        }
    }
}

/// What the cluster device `device_id` gives to member `peer_id`.
pub open spec fn contribution(peers: Seq<PeerDescriptor>, peer_id: PeerId, device_id: DeviceId) -> Seq<
    NetworkInterfaceDescriptor,
> {
    if holder_id(peers, device_id) == peer_id {
        device_interfaces(peers[first_holder(peers, device_id)], device_id)
    } else {
        Seq::empty()
    }
}

/// `devices` with every occurrence of `device_id` left out.
pub open spec fn without_device(devices: Seq<DeviceId>, device_id: DeviceId) -> Seq<DeviceId>
    decreases devices.len(),
{
    if devices.len() == 0 {
        devices
    } else {
        let rest = without_device(devices.drop_last(), device_id);
        if devices.last() == device_id {
            rest
        } else {
            rest.push(devices.last())
        }
    }
}

proof fn lemma_without_device(devices: Seq<DeviceId>, device_id: DeviceId)
    ensures
        forall|other: DeviceId| #[trigger] without_device(devices, device_id).contains(other)
            <==> (devices.contains(other) && other != device_id),
        without_device(devices, device_id).len() <= devices.len(),
        devices.contains(device_id) ==> without_device(devices, device_id).len() < devices.len(),
    decreases devices.len(),
{
    if devices.len() > 0 {
        let rest = devices.drop_last();
        lemma_without_device(rest, device_id);
        let shorter = without_device(rest, device_id);
        let result = without_device(devices, device_id);
        assert forall|other: DeviceId| #[trigger] result.contains(other)
            <==> (devices.contains(other) && other != device_id) by {
            if result.contains(other) {
                let i = choose|i: int| 0 <= i < result.len() && result[i] == other;
                if i < shorter.len() {
                    assert(shorter[i] == other);
                    assert(shorter.contains(other));
                    let j = choose|j: int| 0 <= j < rest.len() && rest[j] == other;
                    assert(devices[j] == other);
                } else {
                    assert(devices[devices.len() - 1] == other);
                }
            }
            if devices.contains(other) && other != device_id {
                let j = choose|j: int| 0 <= j < devices.len() && devices[j] == other;
                if j < rest.len() {
                    assert(rest[j] == other);
                    assert(shorter.contains(other));
                    let i = choose|i: int| 0 <= i < shorter.len() && shorter[i] == other;
                    assert(result[i] == other);
                } else {
                    assert(result[result.len() - 1] == other);
                }
            }
        }
        if devices.contains(device_id) && !rest.contains(device_id) {
            let j = choose|j: int| 0 <= j < devices.len() && devices[j] == device_id;
            if j < rest.len() {
                assert(rest[j] == device_id);
            }
        }
    }
}

proof fn lemma_member_interfaces_unfold(devices: Seq<DeviceId>, peers: Seq<PeerDescriptor>, peer_id: PeerId)
    requires
        devices.len() > 0,
    ensures
        member_interfaces(devices, peers, peer_id) == member_interfaces(devices.drop_last(), peers, peer_id)
            + if devices.drop_last().contains(devices.last()) {
            Seq::<NetworkInterfaceDescriptor>::empty()
        } else {
            contribution(peers, peer_id, devices.last())
        },
{
    let k = devices.len() - 1;
    let rest = devices.drop_last();
    if rest.contains(devices.last()) {
        let j = choose|j: int| 0 <= j < rest.len() && rest[j] == devices.last();
        assert(devices[j] == devices[k]);
        assert(!first_occurrence(devices, k));
        assert(member_interfaces(rest, peers, peer_id) + Seq::<NetworkInterfaceDescriptor>::empty()
            =~= member_interfaces(rest, peers, peer_id));
    } else {
        assert forall|j: int| 0 <= j < k implies devices[j] != devices[k] by {
            assert(rest[j] == devices[j]);
        }
        if holder_id(peers, devices.last()) != peer_id {
            assert(member_interfaces(rest, peers, peer_id) + Seq::<NetworkInterfaceDescriptor>::empty()
                =~= member_interfaces(rest, peers, peer_id));
        }
    }
}

proof fn lemma_member_interfaces_without(
    devices: Seq<DeviceId>,
    peers: Seq<PeerDescriptor>,
    peer_id: PeerId,
    device_id: DeviceId,
)
    ensures
        member_interfaces(devices, peers, peer_id).to_multiset() == member_interfaces(
            without_device(devices, device_id),
            peers,
            peer_id,
        ).to_multiset().add(
            if devices.contains(device_id) {
                contribution(peers, peer_id, device_id).to_multiset()
            } else {
                Multiset::empty()
            },
        ),
    decreases devices.len(),
{
    broadcast use vstd::multiset::group_multiset_axioms;
    if devices.len() == 0 {
        assert(member_interfaces(devices, peers, peer_id) =~= Seq::<NetworkInterfaceDescriptor>::empty());
        assert(Seq::<NetworkInterfaceDescriptor>::empty().to_multiset() =~= Multiset::empty()) by {
            broadcast use vstd::seq_lib::group_to_multiset_ensures;
        }
        assert(!devices.contains(device_id));
        assert(Multiset::<NetworkInterfaceDescriptor>::empty().add(Multiset::empty()) =~= Multiset::empty());
    } else {
        let rest = devices.drop_last();
        let last = devices.last();
        lemma_member_interfaces_without(rest, peers, peer_id, device_id);
        lemma_member_interfaces_unfold(devices, peers, peer_id);
        lemma_without_device(rest, device_id);
        let empty = Seq::<NetworkInterfaceDescriptor>::empty();
        assert(empty.to_multiset() =~= Multiset::empty()) by {
            broadcast use vstd::seq_lib::group_to_multiset_ensures;
        }
        let added = if rest.contains(last) { empty } else { contribution(peers, peer_id, last) };
        vstd::seq_lib::lemma_multiset_commutative(member_interfaces(rest, peers, peer_id), added);
        assert(devices.contains(device_id) == (rest.contains(device_id) || last == device_id)) by {
            if devices.contains(device_id) && last != device_id {
                let j = choose|j: int| 0 <= j < devices.len() && devices[j] == device_id;
                assert(j < rest.len());
                assert(rest[j] == device_id);
            }
            if rest.contains(device_id) {
                let j = choose|j: int| 0 <= j < rest.len() && rest[j] == device_id;
                assert(devices[j] == device_id);
            }
        }
        if last == device_id {
            assert(without_device(devices, device_id) == without_device(rest, device_id));
            assert(member_interfaces(devices, peers, peer_id).to_multiset() =~= member_interfaces(
                without_device(devices, device_id),
                peers,
                peer_id,
            ).to_multiset().add(contribution(peers, peer_id, device_id).to_multiset()));
        } else {
            let shorter = without_device(rest, device_id);
            let longer = without_device(devices, device_id);
            assert(longer == shorter.push(last));
            assert(longer.drop_last() =~= shorter);
            lemma_member_interfaces_unfold(longer, peers, peer_id);
            assert(shorter.contains(last) == rest.contains(last));
            vstd::seq_lib::lemma_multiset_commutative(member_interfaces(shorter, peers, peer_id), added);
            let removed = if devices.contains(device_id) {
                contribution(peers, peer_id, device_id).to_multiset()
            } else {
                Multiset::empty()
            };
            let removed_before = if rest.contains(device_id) {
                contribution(peers, peer_id, device_id).to_multiset()
            } else {
                Multiset::empty()
            };
            assert(removed == removed_before);
            assert(member_interfaces(devices, peers, peer_id).to_multiset() =~= member_interfaces(
                longer,
                peers,
                peer_id,
            ).to_multiset().add(removed));
        }
    }
}

proof fn lemma_member_interfaces_ignore_order(
    first: Seq<DeviceId>,
    second: Seq<DeviceId>,
    peers: Seq<PeerDescriptor>,
    peer_id: PeerId,
)
    requires
        forall|device_id: DeviceId| first.contains(device_id) <==> second.contains(device_id),
    ensures
        member_interfaces(first, peers, peer_id).to_multiset() == member_interfaces(second, peers, peer_id).to_multiset(),
    decreases first.len() + second.len(),
{
    if first.len() == 0 {
        if second.len() > 0 {
            assert(second.contains(second[0]));
        }
        assert(first =~= second);
    } else {
        let x = first.last();
        assert(first.contains(x)) by {
            assert(first[first.len() - 1] == x);
        }
        lemma_without_device(first, x);
        lemma_without_device(second, x);
        lemma_member_interfaces_without(first, peers, peer_id, x);
        lemma_member_interfaces_without(second, peers, peer_id, x);
        lemma_member_interfaces_ignore_order(without_device(first, x), without_device(second, x), peers, peer_id);
    }
}

/// The member interface mapping does not depend on the order in which the
/// cluster devices are listed: for two device lists that hold the same devices,
/// either every device has a peer in both or in neither; the members are the
/// same; and each member's interfaces are the same up to order.
pub proof fn lemma_mapping_ignores_device_order(
    first: Seq<DeviceId>,
    second: Seq<DeviceId>,
    peers: Seq<PeerDescriptor>,
    leader: PeerId,
    first_mapping: Seq<(PeerId, Vec<NetworkInterfaceDescriptor>)>,
    second_mapping: Seq<(PeerId, Vec<NetworkInterfaceDescriptor>)>,
)
    requires
        first.to_set() == second.to_set(),
        is_member_interface_mapping(first, peers, leader, first_mapping),
        is_member_interface_mapping(second, peers, leader, second_mapping),
    ensures
        all_devices_held(first, peers) <==> all_devices_held(second, peers),
        forall|i: int|
            0 <= i < first_mapping.len() ==> exists|j: int|
                0 <= j < second_mapping.len() && #[trigger] second_mapping[j].0 == (#[trigger] first_mapping[i]).0,
        forall|j: int|
            0 <= j < second_mapping.len() ==> exists|i: int|
                0 <= i < first_mapping.len() && #[trigger] first_mapping[i].0 == (#[trigger] second_mapping[j]).0,
        forall|i: int, j: int|
            0 <= i < first_mapping.len() && 0 <= j < second_mapping.len() && (#[trigger] first_mapping[i]).0
                == (#[trigger] second_mapping[j]).0 ==> first_mapping[i].1@.to_multiset()
                == second_mapping[j].1@.to_multiset(),
{
    assert forall|device_id: DeviceId| first.contains(device_id) <==> second.contains(device_id) by {
        assert(first.to_set().contains(device_id) == first.contains(device_id));
        assert(second.to_set().contains(device_id) == second.contains(device_id));
    }
    assert(all_devices_held(first, peers) ==> all_devices_held(second, peers)) by {
        if all_devices_held(first, peers) {
            assert forall|k: int| 0 <= k < second.len() implies device_has_holder(peers, #[trigger] second[k]) by {
                assert(second.contains(second[k]));
                let j = choose|j: int| 0 <= j < first.len() && first[j] == second[k];
                assert(device_has_holder(peers, first[j]));
            }
        }
    }
    assert(all_devices_held(second, peers) ==> all_devices_held(first, peers)) by {
        if all_devices_held(second, peers) {
            assert forall|k: int| 0 <= k < first.len() implies device_has_holder(peers, #[trigger] first[k]) by {
                assert(first.contains(first[k]));
                let j = choose|j: int| 0 <= j < second.len() && second[j] == first[k];
                assert(device_has_holder(peers, second[j]));
            }
        }
    }
    assert forall|i: int| 0 <= i < first_mapping.len() implies exists|j: int|
        0 <= j < second_mapping.len() && #[trigger] second_mapping[j].0 == (#[trigger] first_mapping[i]).0 by {
        let p = first_mapping[i].0;
        assert(is_member(first, peers, leader, p));
        if p == leader {
            let j = choose|j: int| 0 <= j < second_mapping.len() && #[trigger] second_mapping[j].0 == leader;
        } else {
            let k = choose|k: int| 0 <= k < first.len() && #[trigger] holder_id(peers, first[k]) == p;
            assert(first.contains(first[k]));
            let m = choose|m: int| 0 <= m < second.len() && second[m] == first[k];
            assert(holder_id(peers, second[m]) == p);
            let j = choose|j: int| 0 <= j < second_mapping.len() && #[trigger] second_mapping[j].0 == holder_id(peers, second[m]);
        }
    }
    assert forall|j: int| 0 <= j < second_mapping.len() implies exists|i: int|
        0 <= i < first_mapping.len() && #[trigger] first_mapping[i].0 == (#[trigger] second_mapping[j]).0 by {
        let p = second_mapping[j].0;
        assert(is_member(second, peers, leader, p));
        if p == leader {
            let i = choose|i: int| 0 <= i < first_mapping.len() && #[trigger] first_mapping[i].0 == leader;
        } else {
            let k = choose|k: int| 0 <= k < second.len() && #[trigger] holder_id(peers, second[k]) == p;
            assert(second.contains(second[k]));
            let m = choose|m: int| 0 <= m < first.len() && first[m] == second[k];
            assert(holder_id(peers, first[m]) == p);
            let i = choose|i: int| 0 <= i < first_mapping.len() && #[trigger] first_mapping[i].0 == holder_id(peers, first[m]);
        }
    }
    assert forall|i: int, j: int|
        0 <= i < first_mapping.len() && 0 <= j < second_mapping.len() && (#[trigger] first_mapping[i]).0
            == (#[trigger] second_mapping[j]).0 implies first_mapping[i].1@.to_multiset()
            == second_mapping[j].1@.to_multiset() by {
        lemma_member_interfaces_ignore_order(first, second, peers, first_mapping[i].0);
    }
}

/// A cluster device makes the first listed peer that has it a member: that peer
/// has the device, and no peer listed before it does.
pub proof fn lemma_device_goes_to_first_listed_peer(peers: Seq<PeerDescriptor>, device_id: DeviceId)
    requires
        device_has_holder(peers, device_id),
    ensures
        0 <= first_holder(peers, device_id) < peers.len(),
        peer_has_device(peers[first_holder(peers, device_id)], device_id),
        holder_id(peers, device_id) == peers[first_holder(peers, device_id)].id,
        forall|j: int| 0 <= j < first_holder(peers, device_id) ==> !#[trigger] peer_has_device(peers[j], device_id),
{
    let w = choose|i: int| 0 <= i < peers.len() && #[trigger] peer_has_device(peers[i], device_id);
    lemma_first_holder_exists(peers, device_id, w);
}
} // verus!
