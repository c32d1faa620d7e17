use vstd::prelude::*;

use crate::short_name::ShortName;

verus! {

/// The lifecycle state of a cluster.
#[derive(Clone, Copy, Debug, PartialEq, Eq, Structural)]
pub enum ClusterState {
    Undeployed,
    Deploying,
    Deployed(DeployedClusterState),
}

/// The health of a deployed cluster.
#[derive(Clone, Copy, Debug, PartialEq, Eq, Structural)]
pub enum DeployedClusterState {
    Unhealthy,
    Healthy,
}

impl Default for ClusterState {
    fn default() -> (state: Self)
        ensures
            state == ClusterState::Undeployed,
    {
        ClusterState::Undeployed
    }
}

impl Default for DeployedClusterState {
    fn default() -> (state: Self)
        ensures
            state == DeployedClusterState::Unhealthy,
    {
        DeployedClusterState::Unhealthy
    }
}

impl ShortName for ClusterState {
    open spec fn short_name_spec(&self) -> Seq<char> {
        match self {
            ClusterState::Undeployed => "Undeployed"@,
            ClusterState::Deploying => "Deploying"@,
            ClusterState::Deployed(DeployedClusterState::Unhealthy) => "Unhealthy"@,
            ClusterState::Deployed(DeployedClusterState::Healthy) => "Healthy"@,
        }
    }

    fn short_name(&self) -> (name: &'static str) {
        match self {
            ClusterState::Undeployed => "Undeployed",
            ClusterState::Deploying => "Deploying",
            ClusterState::Deployed(inner) => match inner {
                DeployedClusterState::Unhealthy => "Unhealthy",
                DeployedClusterState::Healthy => "Healthy",
            },
        }
    }
}

} // verus!
