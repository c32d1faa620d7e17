use opendut_cluster::cluster::{ClusterConfiguration, ClusterDeployment};
use opendut_cluster::deploy::{DeployAction, DeployEvent};
use opendut_cluster::ids::{ClusterId, ClusterName, PeerId};
use opendut_cluster::manager::{
    ClusterManager, ClusterManagerOptions, DeployClusterError, StoreClusterDeploymentError, Vpn,
};
use opendut_cluster::store::{StoreAction, StoreEvent, StoreRun};

const CLUSTER: u128 = 0x5;

fn manager() -> ClusterManager {
    ClusterManager::new(
        Vpn::Disabled,
        ClusterManagerOptions { can_server_port_range_start: 1000, can_server_port_range_end: 2000 },
    )
}

fn configuration() -> ClusterConfiguration {
    ClusterConfiguration {
        id: ClusterId(CLUSTER),
        name: ClusterName("StoredCluster".to_string()),
        leader: PeerId(1),
        devices: vec![],
    }
}

fn step(manager: &mut ClusterManager, run: &mut StoreRun, event: StoreEvent) -> StoreAction {
    assert!(run.accepts(&event));
    manager.store_cluster_deployment(run, event)
}

#[test]
fn storing_inserts_the_deployment_and_then_deploys() {
    let deployment = ClusterDeployment { id: ClusterId(CLUSTER) };
    let mut manager = manager();
    let mut run = StoreRun::new(deployment);
    assert_eq!(
        step(&mut manager, &mut run, StoreEvent::Start),
        StoreAction::ReadClusterConfiguration { cluster_id: ClusterId(CLUSTER) }
    );
    assert_eq!(
        step(&mut manager, &mut run, StoreEvent::ClusterConfigurationRead(Ok(Some(configuration())))),
        StoreAction::InsertDeployment { deployment }
    );
    assert_eq!(
        step(&mut manager, &mut run, StoreEvent::DeploymentInserted(Ok(()))),
        StoreAction::Deploy(DeployAction::ReadClusterConfiguration { cluster_id: ClusterId(CLUSTER) })
    );
    assert_eq!(
        step(&mut manager, &mut run, StoreEvent::Deploy(DeployEvent::ClusterConfigurationRead(Ok(None)))),
        StoreAction::Finish {
            result: Ok(ClusterId(CLUSTER)),
            deploy_error: Some(DeployClusterError::ClusterConfigurationNotFound(ClusterId(CLUSTER))),
        }
    );
    assert!(run.is_finished());
}

#[test]
fn storing_succeeds_when_the_deployment_that_follows_succeeds() {
    let deployment = ClusterDeployment { id: ClusterId(CLUSTER) };
    let mut manager = manager();
    let mut run = StoreRun::new(deployment);
    step(&mut manager, &mut run, StoreEvent::Start);
    step(&mut manager, &mut run, StoreEvent::ClusterConfigurationRead(Ok(Some(configuration()))));
    step(&mut manager, &mut run, StoreEvent::DeploymentInserted(Ok(())));
    assert_eq!(
        step(&mut manager, &mut run, StoreEvent::Deploy(DeployEvent::ClusterConfigurationRead(Ok(Some(configuration()))))),
        StoreAction::Deploy(DeployAction::ListPeerDescriptors)
    );
    let action = step(&mut manager, &mut run, StoreEvent::Deploy(DeployEvent::PeerDescriptorsListed(Ok(vec![]))));
    assert!(matches!(action, StoreAction::Deploy(DeployAction::ReadPeerStates { .. })));
}

#[test]
fn storing_fails_when_the_configuration_cannot_be_read() {
    let mut manager = manager();
    let mut run = StoreRun::new(ClusterDeployment { id: ClusterId(CLUSTER) });
    step(&mut manager, &mut run, StoreEvent::Start);
    assert_eq!(
        step(&mut manager, &mut run, StoreEvent::ClusterConfigurationRead(Err("unreadable".to_string()))),
        StoreAction::Finish {
            result: Err(StoreClusterDeploymentError::Internal {
                cluster_id: ClusterId(CLUSTER),
                cluster_name: None,
                cause: "unreadable".to_string(),
            }),
            deploy_error: None,
        }
    );
}

#[test]
fn storing_a_deployment_of_an_unknown_cluster_reports_unknown_cluster_name() {
    let mut manager = manager();
    let mut run = StoreRun::new(ClusterDeployment { id: ClusterId(CLUSTER) });
    step(&mut manager, &mut run, StoreEvent::Start);
    step(&mut manager, &mut run, StoreEvent::ClusterConfigurationRead(Ok(None)));
    assert_eq!(
        step(&mut manager, &mut run, StoreEvent::DeploymentInserted(Err("full".to_string()))),
        StoreAction::Finish {
            result: Err(StoreClusterDeploymentError::Internal {
                cluster_id: ClusterId(CLUSTER),
                cluster_name: Some(ClusterName("unknown_cluster".to_string())),
                cause: "full".to_string(),
            }),
            deploy_error: None,
        }
    );
}

#[test]
fn storing_reports_the_cluster_name_when_insertion_fails() {
    let mut manager = manager();
    let mut run = StoreRun::new(ClusterDeployment { id: ClusterId(CLUSTER) });
    step(&mut manager, &mut run, StoreEvent::Start);
    step(&mut manager, &mut run, StoreEvent::ClusterConfigurationRead(Ok(Some(configuration()))));
    assert_eq!(
        step(&mut manager, &mut run, StoreEvent::DeploymentInserted(Err("full".to_string()))),
        StoreAction::Finish {
            result: Err(StoreClusterDeploymentError::Internal {
                cluster_id: ClusterId(CLUSTER),
                cluster_name: Some(ClusterName("StoredCluster".to_string())),
                cause: "full".to_string(),
            }),
            deploy_error: None,
        }
    );
}
