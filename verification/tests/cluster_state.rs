#![allow(non_snake_case)]

use opendut_cluster::cluster_state::{ClusterState, DeployedClusterState};
use opendut_cluster::short_name::ShortName;

#[test]
fn A_ClusterState_should_have_short_name_Healthy() {
    assert_eq!(ClusterState::Deployed(DeployedClusterState::Healthy).short_name(), "Healthy");
}

#[test]
fn A_ClusterState_should_have_short_name_Unhealthy() {
    assert_eq!(ClusterState::Deployed(DeployedClusterState::Unhealthy).short_name(), "Unhealthy");
}

#[test]
fn A_ClusterState_should_have_short_name_Deploying() {
    assert_eq!(ClusterState::Deploying.short_name(), "Deploying");
}

#[test]
fn A_ClusterState_should_have_short_name_Undeployed() {
    assert_eq!(ClusterState::Undeployed.short_name(), "Undeployed");
}

#[test]
fn cluster_state_defaults_to_undeployed() {
    assert_eq!(ClusterState::default(), ClusterState::Undeployed);
}

#[test]
fn deployed_cluster_state_defaults_to_unhealthy() {
    assert_eq!(DeployedClusterState::default(), DeployedClusterState::Unhealthy);
}
