use opendut_cluster::cluster::{ClusterConfiguration, ClusterDeployment};
use opendut_cluster::deletion::{members_with_devices, DeleteAction, DeleteEvent, DeleteRun};
use opendut_cluster::ids::{ClusterId, ClusterName, DeviceId, NetworkInterfaceId, PeerId};
use opendut_cluster::mapping::determine_member_interface_mapping;
use opendut_cluster::manager::{ClusterManager, ClusterManagerOptions, DeleteClusterDeploymentError, Vpn};
use opendut_cluster::network::{DeviceDescriptor, PeerNetworkDescriptor};
use opendut_cluster::peer::{PeerDescriptor, Topology};

const CLUSTER: u128 = 0x67e5504410b1426f9247bb680e5fe0c8;

fn manager(vpn: Vpn) -> ClusterManager {
    ClusterManager::new(vpn, ClusterManagerOptions { can_server_port_range_start: 1000, can_server_port_range_end: 2000 })
}

fn peer(id: u128, devices: &[u128]) -> PeerDescriptor {
    PeerDescriptor {
        id: PeerId(id),
        network: PeerNetworkDescriptor { interfaces: vec![] },
        topology: Topology {
            devices: devices.iter().map(|d| DeviceDescriptor { id: DeviceId(*d), interface: NetworkInterfaceId(0) }).collect(),
        },
    }
}

fn configuration() -> ClusterConfiguration {
    ClusterConfiguration {
        id: ClusterId(CLUSTER),
        name: ClusterName("Doomed".to_string()),
        leader: PeerId(1),
        devices: vec![DeviceId(10), DeviceId(20)],
    }
}

fn step(manager: &ClusterManager, run: &mut DeleteRun, event: DeleteEvent) -> DeleteAction {
    assert!(run.accepts(&event));
    manager.delete_cluster_deployment(run, event)
}

#[test]
fn deleting_unassigns_every_peer_with_a_cluster_device() {
    let manager = manager(Vpn::Enabled);
    let deployment = ClusterDeployment { id: ClusterId(CLUSTER) };
    let mut run = DeleteRun::new(ClusterId(CLUSTER));
    assert_eq!(step(&manager, &mut run, DeleteEvent::Start), DeleteAction::RemoveDeployment { cluster_id: ClusterId(CLUSTER) });
    assert_eq!(
        step(&manager, &mut run, DeleteEvent::DeploymentRemoved(Ok(Some(deployment)))),
        DeleteAction::ReadClusterConfiguration { cluster_id: ClusterId(CLUSTER) }
    );
    assert_eq!(
        step(&manager, &mut run, DeleteEvent::ClusterConfigurationRead(Ok(Some(configuration())))),
        DeleteAction::DeleteVpnCluster { cluster_id: ClusterId(CLUSTER) }
    );
    assert_eq!(step(&manager, &mut run, DeleteEvent::VpnClusterDeleted(Ok(()))), DeleteAction::ListPeerDescriptors);
    let peers = vec![peer(1, &[10]), peer(2, &[30]), peer(3, &[31, 20])];
    assert_eq!(
        step(&manager, &mut run, DeleteEvent::PeerDescriptorsListed(Ok(peers))),
        DeleteAction::UnassignCluster { peer_id: PeerId(1) }
    );
    assert_eq!(
        step(&manager, &mut run, DeleteEvent::ClusterUnassigned(Ok(()))),
        DeleteAction::UnassignCluster { peer_id: PeerId(3) }
    );
    assert_eq!(step(&manager, &mut run, DeleteEvent::ClusterUnassigned(Ok(()))), DeleteAction::Finish(Ok(deployment)));
    assert!(run.is_finished());
}

#[test]
fn deleting_a_missing_deployment_fails() {
    let manager = manager(Vpn::Disabled);
    let mut run = DeleteRun::new(ClusterId(CLUSTER));
    step(&manager, &mut run, DeleteEvent::Start);
    assert_eq!(
        step(&manager, &mut run, DeleteEvent::DeploymentRemoved(Ok(None))),
        DeleteAction::Finish(Err(DeleteClusterDeploymentError::ClusterDeploymentNotFound { cluster_id: ClusterId(CLUSTER) }))
    );
}

#[test]
fn deleting_fails_when_removal_fails() {
    let manager = manager(Vpn::Disabled);
    let mut run = DeleteRun::new(ClusterId(CLUSTER));
    step(&manager, &mut run, DeleteEvent::Start);
    assert_eq!(
        step(&manager, &mut run, DeleteEvent::DeploymentRemoved(Err("locked".to_string()))),
        DeleteAction::Finish(Err(DeleteClusterDeploymentError::Internal {
            cluster_id: ClusterId(CLUSTER),
            cluster_name: None,
            cause: "locked".to_string(),
        }))
    );
}

#[test]
fn deleting_a_deployment_without_configuration_returns_it() {
    let manager = manager(Vpn::Enabled);
    let deployment = ClusterDeployment { id: ClusterId(CLUSTER) };
    let mut run = DeleteRun::new(ClusterId(CLUSTER));
    step(&manager, &mut run, DeleteEvent::Start);
    step(&manager, &mut run, DeleteEvent::DeploymentRemoved(Ok(Some(deployment))));
    assert_eq!(
        step(&manager, &mut run, DeleteEvent::ClusterConfigurationRead(Ok(None))),
        DeleteAction::Finish(Ok(deployment))
    );
}

#[test]
fn deleting_without_vpn_lists_peers_right_away() {
    let manager = manager(Vpn::Disabled);
    let deployment = ClusterDeployment { id: ClusterId(CLUSTER) };
    let mut run = DeleteRun::new(ClusterId(CLUSTER));
    step(&manager, &mut run, DeleteEvent::Start);
    step(&manager, &mut run, DeleteEvent::DeploymentRemoved(Ok(Some(deployment))));
    assert_eq!(
        step(&manager, &mut run, DeleteEvent::ClusterConfigurationRead(Ok(Some(configuration())))),
        DeleteAction::ListPeerDescriptors
    );
    assert_eq!(
        step(&manager, &mut run, DeleteEvent::PeerDescriptorsListed(Ok(vec![peer(7, &[99])]))),
        DeleteAction::Finish(Ok(deployment))
    );
}

#[test]
fn deleting_reports_a_failed_vpn_deletion_with_the_cluster_name() {
    let manager = manager(Vpn::Enabled);
    let mut run = DeleteRun::new(ClusterId(CLUSTER));
    step(&manager, &mut run, DeleteEvent::Start);
    step(&manager, &mut run, DeleteEvent::DeploymentRemoved(Ok(Some(ClusterDeployment { id: ClusterId(CLUSTER) }))));
    step(&manager, &mut run, DeleteEvent::ClusterConfigurationRead(Ok(Some(configuration()))));
    assert_eq!(
        step(&manager, &mut run, DeleteEvent::VpnClusterDeleted(Err("vpn gone".to_string()))),
        DeleteAction::Finish(Err(DeleteClusterDeploymentError::Internal {
            cluster_id: ClusterId(CLUSTER),
            cluster_name: Some(ClusterName("Doomed".to_string())),
            cause: "vpn gone".to_string(),
        }))
    );
}

#[test]
fn deleting_reports_a_failed_unassignment() {
    let manager = manager(Vpn::Disabled);
    let mut run = DeleteRun::new(ClusterId(CLUSTER));
    step(&manager, &mut run, DeleteEvent::Start);
    step(&manager, &mut run, DeleteEvent::DeploymentRemoved(Ok(Some(ClusterDeployment { id: ClusterId(CLUSTER) }))));
    step(&manager, &mut run, DeleteEvent::ClusterConfigurationRead(Ok(Some(configuration()))));
    step(&manager, &mut run, DeleteEvent::PeerDescriptorsListed(Ok(vec![peer(2, &[20])])));
    assert_eq!(
        step(&manager, &mut run, DeleteEvent::ClusterUnassigned(Err("nope".to_string()))),
        DeleteAction::Finish(Err(DeleteClusterDeploymentError::Internal {
            cluster_id: ClusterId(CLUSTER),
            cluster_name: Some(ClusterName("Doomed".to_string())),
            cause: "Failure while assigning cluster <67e55044-10b1-426f-9247-bb680e5fe0c8> to peer <00000000-0000-0000-0000-000000000002>.".to_string(),
        }))
    );
}

#[test]
fn members_are_the_peers_with_cluster_devices_in_order() {
    let peers = vec![peer(3, &[1]), peer(1, &[5, 6]), peer(2, &[]), peer(4, &[6])];
    assert_eq!(members_with_devices(&vec![DeviceId(6), DeviceId(1)], &peers), vec![PeerId(3), PeerId(1), PeerId(4)]);
}

#[test]
fn deletion_reaches_every_member_that_deploying_made() {
    let peers = vec![peer(1, &[10]), peer(2, &[20, 21]), peer(3, &[20]), peer(4, &[])];
    let devices = vec![DeviceId(10), DeviceId(20)];
    let leader = PeerId(4);
    let mapping = determine_member_interface_mapping(&devices, &peers, leader).unwrap();
    let unassigned = members_with_devices(&devices, &peers);
    for (member, _) in &mapping {
        if *member != leader {
            assert!(unassigned.contains(member), "{member:?} would stay assigned");
        }
    }
    assert_eq!(unassigned, vec![PeerId(1), PeerId(2), PeerId(3)]);
}
