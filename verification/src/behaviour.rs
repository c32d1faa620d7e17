use vstd::prelude::*;

use crate::cli::{execute_step, has_deployment_of_other_cluster, DeleteClusterConfigurationCli, DeleteConfigurationAction, DeleteConfigurationEvent, DeleteConfigurationRun};
use crate::cluster::ClusterDeployment;
use crate::deletion::{cluster_member_ids, has_cluster_device};
use crate::deploy::{
    deploy_step, mapping_peer_ids, vpn_address_of, DeployAction, DeployEvent, DeployRun, DeployStage,
};
use crate::ids::{ClusterId, DeviceId, NetworkInterfaceId, PeerId, Port};
use crate::manager::{port_range_too_narrow_for, ClusterManager, ClusterManagerOptions};
use crate::mapping::{device_interfaces, devices_with_id};
use crate::network::{interface_with_id, zip_interfaces_with_devices, DeviceDescriptor, IpAddress, NetworkInterfaceDescriptor};
use crate::peer::PeerDescriptor;
use crate::peer_state::{PeerState, PeerUpState};

verus! {

/// The devices selected for an id are exactly the devices with that id, in
/// their order: the subsequence of `devices` that `filter` keeps.
pub proof fn lemma_devices_with_id_are_those_with_the_id(devices: Seq<DeviceDescriptor>, device_id: DeviceId)
    ensures
        devices_with_id(devices, device_id) == devices.filter(|device: DeviceDescriptor| device.id == device_id),
        forall|j: int|
            0 <= j < devices_with_id(devices, device_id).len() ==> (#[trigger] devices_with_id(devices, device_id)[j]).id
                == device_id,
        forall|k: int|
            0 <= k < devices.len() && (#[trigger] devices[k]).id == device_id ==> devices_with_id(devices, device_id).contains(
                devices[k],
            ),
    decreases devices.len(),
{
    let keep = |device: DeviceDescriptor| device.id == device_id;
    if devices.len() > 0 {
        let rest = devices.drop_last();
        lemma_devices_with_id_are_those_with_the_id(rest, device_id);
        assert(devices =~= rest.push(devices.last()));
        rest.lemma_filter_push(devices.last(), keep);
        let selected = devices_with_id(devices, device_id);
        let before = devices_with_id(rest, device_id);
        assert forall|k: int| 0 <= k < devices.len() && (#[trigger] devices[k]).id == device_id implies selected.contains(
            devices[k],
        ) by {
            if k < rest.len() {
                assert(rest[k] == devices[k]);
                assert(before.contains(devices[k]));
                let w = choose|w: int| 0 <= w < before.len() && before[w] == devices[k];
                assert(selected[w] == devices[k]);
            } else {
                assert(selected[selected.len() - 1] == devices[k]);
            }
        }
        assert forall|j: int| 0 <= j < selected.len() implies (#[trigger] selected[j]).id == device_id by {
            if j < before.len() {
                assert(selected[j] == before[j]);
            }
        }
    } else {
        assert(devices.filter(keep) =~= devices) by {
            reveal(Seq::filter);
        }
    }
}

/// Each device paired with an interface is one of the given devices, attached to
/// that interface.
pub proof fn lemma_zipped_pairs_match(interfaces: Seq<NetworkInterfaceDescriptor>, devices: Seq<DeviceDescriptor>)
    ensures
        forall|j: int|
            0 <= j < zip_interfaces_with_devices(interfaces, devices).len() ==> {
                let pair = #[trigger] zip_interfaces_with_devices(interfaces, devices)[j];
                &&& pair.0.id == pair.1.interface
                &&& devices.contains(pair.1)
            },
    decreases devices.len(),
{
    if devices.len() > 0 {
        let rest = devices.drop_last();
        lemma_zipped_pairs_match(interfaces, rest);
        let before = zip_interfaces_with_devices(interfaces, rest);
        let zipped = zip_interfaces_with_devices(interfaces, devices);
        let id = devices.last().interface;
        if exists|i: int| 0 <= i < interfaces.len() && interfaces[i].id == id {
            let w = choose|i: int| 0 <= i < interfaces.len() && interfaces[i].id == id;
            lemma_first_matching_interface(interfaces, id, w);
        }
        assert forall|j: int| 0 <= j < zipped.len() implies {
            let pair = #[trigger] zipped[j];
            &&& pair.0.id == pair.1.interface
            &&& devices.contains(pair.1)
        } by {
            if j < before.len() {
                assert(zipped[j] == before[j]);
                let pair = before[j];
                let w = choose|w: int| 0 <= w < rest.len() && rest[w] == pair.1;
                assert(devices[w] == pair.1);
            } else {
                assert(devices[devices.len() - 1] == devices.last());
            }
        }
    }
}

proof fn lemma_first_matching_interface(interfaces: Seq<NetworkInterfaceDescriptor>, id: NetworkInterfaceId, i: int)
    requires
        0 <= i < interfaces.len(),
        interfaces[i].id == id,
    ensures
        interface_with_id(interfaces, id) matches Some(found) && found.id == id,
    decreases i,
{
    if exists|j: int| 0 <= j < i && #[trigger] interfaces[j].id == id {
        let j = choose|j: int| 0 <= j < i && #[trigger] interfaces[j].id == id;
        lemma_first_matching_interface(interfaces, id, j);
    } else {
        assert(forall|j: int| 0 <= j < i ==> #[trigger] interfaces[j].id != id);
        assert(0 <= i < interfaces.len() && interfaces[i].id == id && forall|j: int| 0 <= j < i ==> interfaces[j].id != id);
    }
}

/// Each interface that a peer brings for a device is the interface to which one
/// of the peer's own devices with that id is attached.
pub proof fn lemma_device_interfaces_belong_to_devices_with_the_id(peer: PeerDescriptor, device_id: DeviceId)
    ensures
        forall|j: int|
            0 <= j < device_interfaces(peer, device_id).len() ==> exists|k: int|
                0 <= k < peer.topology.devices@.len() && peer.topology.devices@[k].id == device_id
                    && peer.topology.devices@[k].interface == (#[trigger] device_interfaces(peer, device_id)[j]).id,
{
    let selected = devices_with_id(peer.topology.devices@, device_id);
    lemma_devices_with_id_are_those_with_the_id(peer.topology.devices@, device_id);
    lemma_zipped_pairs_match(peer.network.interfaces@, selected);
    let zipped = zip_interfaces_with_devices(peer.network.interfaces@, selected);
    assert forall|j: int| 0 <= j < device_interfaces(peer, device_id).len() implies exists|k: int|
        0 <= k < peer.topology.devices@.len() && peer.topology.devices@[k].id == device_id
            && peer.topology.devices@[k].interface == (#[trigger] device_interfaces(peer, device_id)[j]).id by {
        let pair = zipped[j];
        assert(device_interfaces(peer, device_id)[j] == pair.0);
        let w = choose|w: int| 0 <= w < selected.len() && selected[w] == pair.1;
        assert(selected[w].id == device_id);
        let filtered = peer.topology.devices@.filter(|device: DeviceDescriptor| device.id == device_id);
        assert(filtered.contains(pair.1));
        peer.topology.devices@.lemma_filter_contains_rev(|device: DeviceDescriptor| device.id == device_id, pair.1);
        let k = choose|k: int| 0 <= k < peer.topology.devices@.len() && peer.topology.devices@[k] == pair.1;
    }
}

/// A peer that is up gives its remote host as VPN address, whatever it is doing;
/// a peer that is down, has no state, or whose state could not be read gives none.
pub proof fn lemma_up_peers_give_their_remote_host(inner: PeerUpState, remote_host: IpAddress, cause: String)
    ensures
        vpn_address_of(Ok(Some(PeerState::Up { inner, remote_host }))) == Some(remote_host),
        vpn_address_of(Ok(Some(PeerState::Down))) is None,
        vpn_address_of(Ok(None)) is None,
        vpn_address_of(Err(cause)) is None,
{
}

/// When every member's state was read as up, the deployment goes on to assign
/// the cluster, and each member's VPN address is the remote host read for it.
pub proof fn lemma_members_that_are_up_are_assigned(
    before: ClusterManager,
    run: DeployRun,
    states: Seq<Result<Option<PeerState>, String>>,
    event: DeployEvent,
    after: ClusterManager,
    next: DeployRun,
    action: DeployAction,
)
    requires
        run.stage_spec() is AwaitingPeerStates,
        event == DeployEvent::PeerStatesRead(event->PeerStatesRead_0),
        states == event->PeerStatesRead_0@,
        forall|i: int| 0 <= i < states.len() ==> (#[trigger] states[i]) matches Ok(Some(PeerState::Up { .. })),
        deploy_step(before, run, event, after, next, action),
    ensures
        next.stage_spec() is Assigning,
        forall|i: int|
            0 <= i < states.len() && i < next.stage_spec()->assignment@.assignments.len() ==> (#[trigger] next.stage_spec()->assignment@.assignments[i]).vpn_address
                == states[i]->Ok_0->Some_0->remote_host,
{
    assert forall|i: int| !crate::deploy::is_first_without_address(states, i) by {
        if 0 <= i < states.len() {
            assert(states[i] matches Ok(Some(PeerState::Up { .. })));
        }
    }
}

/// The peer ids of a member interface mapping are the ids of all its entries, in
/// order, one per entry, whatever interfaces an entry holds.
pub proof fn lemma_mapping_peer_ids_are_all_entries(mapping: Seq<(PeerId, Vec<NetworkInterfaceDescriptor>)>)
    ensures
        mapping_peer_ids(mapping).len() == mapping.len(),
        forall|i: int| 0 <= i < mapping.len() ==> #[trigger] mapping_peer_ids(mapping)[i] == mapping[i].0,
{
}

/// The members given to the VPN service are all entries of the member interface
/// mapping, the leader's included.
pub proof fn lemma_vpn_group_holds_every_member(
    before: ClusterManager,
    run: DeployRun,
    event: DeployEvent,
    after: ClusterManager,
    next: DeployRun,
    action: DeployAction,
)
    requires
        deploy_step(before, run, event, after, next, action),
        action is CreateVpnCluster,
    ensures
        next.stage_spec() is AwaitingVpn,
        action->member_ids@.len() == next.stage_spec()->AwaitingVpn_mapping@.len(),
        forall|i: int|
            0 <= i < action->member_ids@.len() ==> #[trigger] action->member_ids@[i]
                == next.stage_spec()->AwaitingVpn_mapping@[i].0,
{
    lemma_mapping_peer_ids_are_all_entries(next.stage_spec()->AwaitingVpn_mapping@);
}

/// A deployment of `n` members is refused for its port range exactly when the
/// range does not hold more than `n` ports.
pub proof fn lemma_port_range_refused_exactly_when_too_narrow(options: ClusterManagerOptions, n: int)
    ensures
        port_range_too_narrow_for(options, n) <==> options.can_server_port_range_end
            <= options.can_server_port_range_start + n,
{
}

/// Once the VPN group exists, a deployment whose members fit into the port range
/// is not refused: it hands out their ports and goes on to read their states.
pub proof fn lemma_fitting_deployment_gets_its_ports(
    before: ClusterManager,
    run: DeployRun,
    event: DeployEvent,
    after: ClusterManager,
    next: DeployRun,
    action: DeployAction,
)
    requires
        run.stage_spec() is AwaitingVpn,
        event == DeployEvent::VpnClusterCreated(Ok(())),
        run.stage_spec()->AwaitingVpn_mapping@.len() <= u16::MAX,
        before.options_spec().can_server_port_range_start + run.stage_spec()->AwaitingVpn_mapping@.len()
            < before.options_spec().can_server_port_range_end,
        deploy_step(before, run, event, after, next, action),
    ensures
        next.stage_spec() is AwaitingPeerStates,
        action is ReadPeerStates,
        after.counter_spec() == (if before.counter_spec() + run.stage_spec()->AwaitingVpn_mapping@.len()
            >= before.options_spec().can_server_port_range_end {
            before.options_spec().can_server_port_range_start as int
        } else {
            before.counter_spec() as int
        }) + run.stage_spec()->AwaitingVpn_mapping@.len(),
{
}

/// Whether a deployment of another cluster is listed does not depend on where
/// in the list it stands: any deployment of another cluster, at any position,
/// counts, and reordering the list changes nothing.
pub proof fn lemma_other_cluster_found_anywhere(
    deployments: Seq<ClusterDeployment>,
    reordered: Seq<ClusterDeployment>,
    cluster_id: ClusterId,
    k: int,
)
    requires
        deployments.to_multiset() == reordered.to_multiset(),
    ensures
        0 <= k < deployments.len() && deployments[k].id != cluster_id ==> has_deployment_of_other_cluster(
            deployments,
            cluster_id,
        ),
        has_deployment_of_other_cluster(deployments, cluster_id) ==> exists|i: int|
            0 <= i < deployments.len() && #[trigger] deployments[i].id != cluster_id,
        has_deployment_of_other_cluster(deployments, cluster_id) == has_deployment_of_other_cluster(
            reordered,
            cluster_id,
        ),
{
    broadcast use vstd::seq_lib::group_to_multiset_ensures;
    if has_deployment_of_other_cluster(deployments, cluster_id) {
        let i = choose|i: int| 0 <= i < deployments.len() && #[trigger] deployments[i].id != cluster_id;
        assert(deployments.contains(deployments[i]));
        assert(reordered.to_multiset().count(deployments[i]) > 0);
        assert(reordered.contains(deployments[i]));
        let j = choose|j: int| 0 <= j < reordered.len() && reordered[j] == deployments[i];
        assert(reordered[j].id != cluster_id);
    }
    if has_deployment_of_other_cluster(reordered, cluster_id) {
        let i = choose|i: int| 0 <= i < reordered.len() && #[trigger] reordered[i].id != cluster_id;
        assert(reordered.contains(reordered[i]));
        assert(deployments.to_multiset().count(reordered[i]) > 0);
        assert(deployments.contains(reordered[i]));
        let j = choose|j: int| 0 <= j < deployments.len() && deployments[j] == reordered[i];
        assert(deployments[j].id != cluster_id);
    }
}

/// The command goes on to delete the configuration whenever a listed deployment,
/// at any position, belongs to another cluster, and refuses otherwise.
pub proof fn lemma_command_deletes_when_another_cluster_is_listed(
    command: DeleteClusterConfigurationCli,
    run: DeleteConfigurationRun,
    deployments: Vec<ClusterDeployment>,
    next: DeleteConfigurationRun,
    action: DeleteConfigurationAction,
)
    requires
        run.stage_spec() is AwaitingDeployments,
        execute_step(command, run, DeleteConfigurationEvent::DeploymentsListed(Ok(deployments)), next, action),
    ensures
        (exists|k: int| 0 <= k < deployments@.len() && #[trigger] deployments@[k].id != ClusterId(command.id))
            <==> action == (DeleteConfigurationAction::DeleteClusterConfiguration { cluster_id: ClusterId(command.id) }),
{
}


/// The interface found for an id carries that id and is the first that does;
/// none is found exactly when no interface carries it.
pub proof fn lemma_interface_with_id_is_first_match(interfaces: Seq<NetworkInterfaceDescriptor>, id: NetworkInterfaceId)
    ensures
        interface_with_id(interfaces, id) is None <==> forall|i: int| 0 <= i < interfaces.len() ==> #[trigger] interfaces[i].id != id,
        interface_with_id(interfaces, id) matches Some(found) ==> exists|i: int|
            0 <= i < interfaces.len() && interfaces[i] == found && found.id == id && forall|j: int|
                0 <= j < i ==> #[trigger] interfaces[j].id != id,
{
    if exists|i: int| 0 <= i < interfaces.len() && interfaces[i].id == id {
        let w = choose|i: int| 0 <= i < interfaces.len() && interfaces[i].id == id;
        crate::laws::lemma_first_matching_interface_exists(interfaces, id, w);
        let c = choose|i: int|
            0 <= i < interfaces.len() && interfaces[i].id == id && forall|j: int|
                0 <= j < i ==> interfaces[j].id != id;
        assert(interface_with_id(interfaces, id) == Some(interfaces[c]));
        assert(interfaces[w].id == id);
    } else {
        assert(interface_with_id(interfaces, id) is None);
    }
}

/// A peer is unassigned when a deployment is deleted exactly when it has at
/// least one of the cluster's devices.
pub proof fn lemma_unassigned_peers_are_those_with_cluster_devices(devices: Seq<DeviceId>, peers: Seq<PeerDescriptor>)
    ensures
        forall|peer_id: PeerId| #[trigger] cluster_member_ids(devices, peers).contains(peer_id) <==> exists|i: int|
            0 <= i < peers.len() && peers[i].id == peer_id && has_cluster_device(peers[i], devices),
    decreases peers.len(),
{
    if peers.len() > 0 {
        let rest = peers.drop_last();
        lemma_unassigned_peers_are_those_with_cluster_devices(devices, rest);
        let before = cluster_member_ids(devices, rest);
        let all = cluster_member_ids(devices, peers);
        assert forall|peer_id: PeerId| #[trigger] all.contains(peer_id) <==> exists|i: int|
            0 <= i < peers.len() && peers[i].id == peer_id && has_cluster_device(peers[i], devices) by {
            if all.contains(peer_id) {
                let w = choose|w: int| 0 <= w < all.len() && all[w] == peer_id;
                if w < before.len() {
                    assert(before[w] == peer_id);
                    assert(before.contains(peer_id));
                    let i = choose|i: int| 0 <= i < rest.len() && rest[i].id == peer_id && has_cluster_device(rest[i], devices);
                    assert(peers[i] == rest[i]);
                } else {
                    assert(peers[peers.len() - 1].id == peer_id);
                }
            }
            if exists|i: int| 0 <= i < peers.len() && peers[i].id == peer_id && has_cluster_device(peers[i], devices) {
                let i = choose|i: int| 0 <= i < peers.len() && peers[i].id == peer_id && has_cluster_device(peers[i], devices);
                if i < rest.len() {
                    assert(rest[i] == peers[i]);
                    assert(before.contains(peer_id));
                    let w = choose|w: int| 0 <= w < before.len() && before[w] == peer_id;
                    assert(all[w] == peer_id);
                } else {
                    assert(all[all.len() - 1] == peer_id);
                }
            }
        }
    }
}
} // verus!
