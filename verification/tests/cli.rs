use opendut_cluster::cli::{DeleteClusterConfigurationCli, DeleteConfigurationAction, DeleteConfigurationEvent, DeleteConfigurationRun};
use opendut_cluster::cluster::{ClusterConfiguration, ClusterDeployment};
use opendut_cluster::ids::{ClusterId, ClusterName, PeerId};

const CLUSTER: u128 = 0x67e5504410b1426f9247bb680e5fe0c8;

fn step(command: &DeleteClusterConfigurationCli, run: &mut DeleteConfigurationRun, event: DeleteConfigurationEvent) -> DeleteConfigurationAction {
    assert!(run.accepts(&event));
    command.execute(run, event)
}

fn listed(command: &DeleteClusterConfigurationCli, deployments: Vec<ClusterDeployment>) -> (DeleteConfigurationRun, DeleteConfigurationAction) {
    let mut run = DeleteConfigurationRun::new();
    assert_eq!(step(command, &mut run, DeleteConfigurationEvent::Start), DeleteConfigurationAction::ListClusterDeployments);
    let action = step(command, &mut run, DeleteConfigurationEvent::DeploymentsListed(Ok(deployments)));
    (run, action)
}

#[test]
fn deleting_a_configuration_reports_it() {
    let command = DeleteClusterConfigurationCli { id: CLUSTER };
    let (mut run, action) = listed(&command, vec![ClusterDeployment { id: ClusterId(1) }]);
    assert_eq!(action, DeleteConfigurationAction::DeleteClusterConfiguration { cluster_id: ClusterId(CLUSTER) });
    let configuration = ClusterConfiguration {
        id: ClusterId(CLUSTER),
        name: ClusterName("Gone".to_string()),
        leader: PeerId(1),
        devices: vec![],
    };
    assert_eq!(
        step(&command, &mut run, DeleteConfigurationEvent::ConfigurationDeleted(Ok(configuration))),
        DeleteConfigurationAction::Finish(Ok(
            "Deleted ClusterConfiguration Gone <67e55044-10b1-426f-9247-bb680e5fe0c8> successfully.".to_string()
        ))
    );
    assert!(run.is_finished());
}

#[test]
fn deleting_is_refused_when_no_other_cluster_is_deployed() {
    let command = DeleteClusterConfigurationCli { id: CLUSTER };
    let (_, action) = listed(&command, vec![ClusterDeployment { id: ClusterId(CLUSTER) }]);
    assert_eq!(
        action,
        DeleteConfigurationAction::Finish(Err(
            "Cluster <67e55044-10b1-426f-9247-bb680e5fe0c8> can not be deleted while being deployed.".to_string()
        ))
    );
    let (_, action) = listed(&command, vec![]);
    assert!(matches!(action, DeleteConfigurationAction::Finish(Err(_))));
}

#[test]
fn deleting_fails_when_deployments_cannot_be_listed() {
    let command = DeleteClusterConfigurationCli { id: CLUSTER };
    let mut run = DeleteConfigurationRun::new();
    step(&command, &mut run, DeleteConfigurationEvent::Start);
    assert_eq!(
        step(&command, &mut run, DeleteConfigurationEvent::DeploymentsListed(Err("offline".to_string()))),
        DeleteConfigurationAction::Finish(Err("Failed to get list of cluster deployments!".to_string()))
    );
}

#[test]
fn deleting_reports_why_the_configuration_was_not_deleted() {
    let command = DeleteClusterConfigurationCli { id: CLUSTER };
    let (mut run, _) = listed(&command, vec![ClusterDeployment { id: ClusterId(2) }]);
    assert_eq!(
        step(&command, &mut run, DeleteConfigurationEvent::ConfigurationDeleted(Err("not found".to_string()))),
        DeleteConfigurationAction::Finish(Err(
            "Failed to delete ClusterConfiguration with id <67e55044-10b1-426f-9247-bb680e5fe0c8>.\n  not found".to_string()
        ))
    );
}
