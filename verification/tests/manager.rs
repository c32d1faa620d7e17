use opendut_cluster::cluster::{ClusterConfiguration, ClusterDeployment};
use opendut_cluster::ids::{ClusterId, ClusterName, PeerId};
use opendut_cluster::manager::{
    ClusterManager, ClusterManagerOptions, GetClusterConfigurationError, GetClusterDeploymentError,
    ListClusterConfigurationsError, ListClusterDeploymentsError, Vpn,
};
use opendut_cluster::options::LoadError;

fn manager() -> ClusterManager {
    ClusterManager::new(Vpn::Disabled, ClusterManagerOptions { can_server_port_range_start: 7, can_server_port_range_end: 70 })
}

fn configuration() -> ClusterConfiguration {
    ClusterConfiguration { id: ClusterId(3), name: ClusterName("c".to_string()), leader: PeerId(1), devices: vec![] }
}

#[test]
fn a_new_manager_counts_ports_from_the_range_start() {
    let manager = manager();
    assert_eq!(manager.can_server_port_counter(), 7);
    assert_eq!(manager.vpn(), Vpn::Disabled);
    assert_eq!(manager.options().can_server_port_range_end, 70);
}

#[test]
fn configuration_reads_pass_through_or_become_errors() {
    let manager = manager();
    assert_eq!(manager.get_configuration(ClusterId(3), Ok(Some(configuration()))), Ok(Some(configuration())));
    assert_eq!(manager.get_configuration(ClusterId(3), Ok(None)), Ok(None));
    assert_eq!(
        manager.get_configuration(ClusterId(3), Err("gone".to_string())),
        Err(GetClusterConfigurationError { cluster_id: ClusterId(3), message: "gone".to_string() })
    );
    assert_eq!(manager.list_configuration(Ok(vec![configuration()])), Ok(vec![configuration()]));
    assert_eq!(
        manager.list_configuration(Err("gone".to_string())),
        Err(ListClusterConfigurationsError { message: "gone".to_string() })
    );
}

#[test]
fn deployment_reads_pass_through_or_become_errors() {
    let manager = manager();
    let deployment = ClusterDeployment { id: ClusterId(3) };
    assert_eq!(manager.get_deployment(ClusterId(3), Ok(Some(deployment))), Ok(Some(deployment)));
    assert_eq!(
        manager.get_deployment(ClusterId(3), Err("gone".to_string())),
        Err(GetClusterDeploymentError::Internal { cluster_id: ClusterId(3), cause: "gone".to_string() })
    );
    assert_eq!(manager.list_deployment(Ok(vec![deployment])), Ok(vec![deployment]));
    assert_eq!(
        manager.list_deployment(Err("gone".to_string())),
        Err(ListClusterDeploymentsError { message: "gone".to_string() })
    );
}

#[test]
fn options_are_loaded_from_the_settings() {
    let config = config::Config::builder()
        .set_override("peer.can.server_port_range_start", 10000)
        .unwrap()
        .set_override("peer.can.server_port_range_end", 20000)
        .unwrap()
        .build()
        .unwrap();
    let options = ClusterManagerOptions::load(&config).unwrap();
    assert_eq!(options, ClusterManagerOptions { can_server_port_range_start: 10000, can_server_port_range_end: 20000 });
}

#[test]
fn loading_options_fails_without_the_settings() {
    let config = config::Config::builder()
        .set_override("peer.can.server_port_range_start", 10000)
        .unwrap()
        .build()
        .unwrap();
    assert!(matches!(ClusterManagerOptions::load(&config), Err(LoadError::ReadConfig { .. })));
}

#[test]
fn options_take_both_settings_or_the_first_error() {
    assert_eq!(
        ClusterManagerOptions::from_settings(Ok(1), Ok(2)).unwrap(),
        ClusterManagerOptions { can_server_port_range_start: 1, can_server_port_range_end: 2 }
    );
    let first = ClusterManagerOptions::from_settings(
        Err(config::ConfigError::NotFound("start".to_string())),
        Err(config::ConfigError::NotFound("end".to_string())),
    );
    match first {
        Err(LoadError::ReadConfig { source: config::ConfigError::NotFound(key) }) => assert_eq!(key, "start"),
        other => panic!("unexpected {other:?}"),
    }
}

#[test]
fn loading_options_reports_the_start_setting_first() {
    let config = config::Config::builder().build().unwrap();
    match ClusterManagerOptions::load(&config) {
        Err(LoadError::ReadConfig { source: config::ConfigError::NotFound(key) }) => {
            assert_eq!(key, "peer.can.server_port_range_start")
        }
        other => panic!("unexpected {other:?}"),
    }
}
