use vstd::prelude::*;

use crate::cluster::{ClusterConfiguration, ClusterDeployment};
use crate::ids::{ClusterId, ClusterName, DeviceId, PeerId};
use crate::messages::{
    port_range_too_narrow, port_range_too_narrow_text, try_from_int_error_text,
};

verus! {

/// Why a cluster could not be deployed.
#[derive(Debug, PartialEq, Eq)]
pub enum DeployClusterError {
    /// There is no configuration for the cluster.
    ClusterConfigurationNotFound(ClusterId),
    /// No peer has this device of the cluster.
    PeerForDeviceNotFound { device_id: DeviceId, cluster_id: ClusterId, cluster_name: ClusterName },
    /// The peer designated as leader was not found.
    LeaderNotFound { leader_id: PeerId, cluster_id: ClusterId, cluster_name: ClusterName },
    /// Anything else that went wrong, described by `cause`.
    Internal { cluster_id: ClusterId, cause: String },
}

/// Reading a cluster configuration failed.
#[derive(Debug, PartialEq, Eq)]
pub struct GetClusterConfigurationError {
    pub cluster_id: ClusterId,
    pub message: String,
}

/// Listing the cluster configurations failed.
#[derive(Debug, PartialEq, Eq)]
pub struct ListClusterConfigurationsError {
    pub message: String,
}

/// Storing a cluster deployment failed.
#[derive(Debug, PartialEq, Eq)]
pub enum StoreClusterDeploymentError {
    Internal { cluster_id: ClusterId, cluster_name: Option<ClusterName>, cause: String },
}

/// Deleting a cluster deployment failed.
#[derive(Debug, PartialEq, Eq)]
pub enum DeleteClusterDeploymentError {
    /// There is no deployment of the cluster.
    ClusterDeploymentNotFound { cluster_id: ClusterId },
    Internal { cluster_id: ClusterId, cluster_name: Option<ClusterName>, cause: String },
}

/// Reading a cluster deployment failed.
#[derive(Debug, PartialEq, Eq)]
pub enum GetClusterDeploymentError {
    Internal { cluster_id: ClusterId, cause: String },
}

/// Listing the cluster deployments failed.
#[derive(Debug, PartialEq, Eq)]
pub struct ListClusterDeploymentsError {
    pub message: String,
}

/// The range of ports from which the CAN servers of cluster members are given
/// ports: from `can_server_port_range_start` up to, not including,
/// `can_server_port_range_end`.
#[derive(Clone, Copy, Debug, PartialEq, Eq, Structural)]
pub struct ClusterManagerOptions {
    pub can_server_port_range_start: u16,
    pub can_server_port_range_end: u16,
}

/// Whether clusters are also set up in a VPN service.
#[derive(Clone, Copy, Debug, PartialEq, Eq, Structural)]
pub enum Vpn {
    Enabled,
    Disabled,
}

/// Deploys clusters: decides who the members are, hands out CAN server ports
/// from the configured range, and what each member is told.
#[derive(Debug)]
pub struct ClusterManager {
    vpn: Vpn,
    options: ClusterManagerOptions,
    can_server_port_counter: u16,
}

/// A deployment of `n_peers` members does not fit into the port range: the range
/// must hold more than `n_peers` ports.
pub open spec fn port_range_too_narrow_for(options: ClusterManagerOptions, n_peers: int) -> bool {
    options.can_server_port_range_start + n_peers >= options.can_server_port_range_end
}

/// The first of the consecutive ports that `n_peers` members are given when the
/// counter stands at `counter`: the counter itself, or the start of the range
/// when the ports would reach the end of the range.
pub open spec fn first_can_server_port(options: ClusterManagerOptions, counter: u16, n_peers: int) -> int {
    if counter + n_peers >= options.can_server_port_range_end {
        options.can_server_port_range_start as int
    } else {
        counter as int
    }
}

impl ClusterManager {
    /// Whether clusters are set up in the VPN service.
    pub closed spec fn vpn_spec(&self) -> Vpn {
        self.vpn
    }

    /// The configured port range.
    pub closed spec fn options_spec(&self) -> ClusterManagerOptions {
        self.options
    }

    /// The port that the next deployment starts from, unless it wraps around.
    pub closed spec fn counter_spec(&self) -> u16 {
        self.can_server_port_counter
    }

    /// Two managers that agree in VPN use, options and counter are the same.
    pub proof fn lemma_same_manager(a: ClusterManager, b: ClusterManager)
        requires
            a.vpn_spec() == b.vpn_spec(),
            a.options_spec() == b.options_spec(),
            a.counter_spec() == b.counter_spec(),
        ensures
            a == b,
    {
    }

    /// The counter never lies below the start of the port range.
    pub open spec fn wf(&self) -> bool {
        self.options_spec().can_server_port_range_start <= self.counter_spec()
    }

    /// A manager whose port counter stands at the start of the range.
    pub fn new(vpn: Vpn, options: ClusterManagerOptions) -> (manager: Self)
        ensures
            manager.vpn_spec() == vpn,
            manager.options_spec() == options,
            manager.counter_spec() == options.can_server_port_range_start,
            manager.wf(),
    {
        let can_server_port_counter = options.can_server_port_range_start;
        ClusterManager { vpn, options, can_server_port_counter }
    }

    pub fn vpn(&self) -> (vpn: Vpn)
        ensures
            vpn == self.vpn_spec(),
    {
        self.vpn
    }

    pub fn options(&self) -> (options: ClusterManagerOptions)
        ensures
            options == self.options_spec(),
    {
        self.options
    }

    pub fn can_server_port_counter(&self) -> (counter: u16)
        ensures
            counter == self.counter_spec(),
    {
        self.can_server_port_counter
    }

    /// Hands out consecutive CAN server ports to `n_peers` members and returns the
    /// first. Fails, leaving the counter as it is, when `n_peers` does not fit
    /// into a `u16` or the range is too narrow for it.
    pub(crate) fn allocate_can_server_ports(&mut self, cluster_id: ClusterId, n_peers: usize) -> (result: Result<u16, DeployClusterError>)
        ensures
            final(self).vpn_spec() == old(self).vpn_spec(),
            final(self).options_spec() == old(self).options_spec(),
            match result {
                Ok(first) => {
                    &&& n_peers <= u16::MAX
                    &&& !port_range_too_narrow_for(old(self).options_spec(), n_peers as int)
                    &&& first == first_can_server_port(old(self).options_spec(), old(self).counter_spec(), n_peers as int)
                    &&& final(self).counter_spec() == first + n_peers
                },
                Err(DeployClusterError::Internal { cluster_id: id, cause }) => {
                    &&& id == cluster_id
                    &&& final(self).counter_spec() == old(self).counter_spec()
                    &&& (n_peers > u16::MAX || port_range_too_narrow_for(old(self).options_spec(), n_peers as int))
                    &&& n_peers <= u16::MAX ==> cause@ == port_range_too_narrow_text(
                        cluster_id,
                        old(self).options_spec().can_server_port_range_start,
                        old(self).options_spec().can_server_port_range_end,
                        n_peers as u16,
                    )
                },
                Err(_) => false,
            },
    {
        let n_peers = match u16::try_from(n_peers) {
            Ok(n) => n,
            Err(error) => {
                return Err(DeployClusterError::Internal { cluster_id, cause: try_from_int_error_text(&error) });
            },
        };
        let start = self.options.can_server_port_range_start;
        let end = self.options.can_server_port_range_end;
        if start as u32 + n_peers as u32 >= end as u32 {
            return Err(DeployClusterError::Internal {
                cluster_id,
                cause: port_range_too_narrow(cluster_id, start, end, n_peers),
            });
        }
        if self.can_server_port_counter as u32 + n_peers as u32 >= end as u32 {
            self.can_server_port_counter = start;
        }
        let first = self.can_server_port_counter;
        self.can_server_port_counter = first + n_peers;
        Ok(first)
    }

    /// The answer to a request for a cluster configuration, given what was read.
    pub fn get_configuration(&self, cluster_id: ClusterId, read: Result<Option<ClusterConfiguration>, String>) -> (result: Result<Option<ClusterConfiguration>, GetClusterConfigurationError>)
        ensures
            match read {
                Ok(configuration) => result == Ok::<Option<ClusterConfiguration>, GetClusterConfigurationError>(configuration),
                Err(cause) => result == Err::<Option<ClusterConfiguration>, GetClusterConfigurationError>(GetClusterConfigurationError { cluster_id, message: cause }),
            },
    {
        match read {
            Ok(configuration) => Ok(configuration),
            Err(cause) => Err(GetClusterConfigurationError { cluster_id, message: cause }),
        }
    }

    /// The answer to a request for all cluster configurations, given what was read.
    pub fn list_configuration(&self, read: Result<Vec<ClusterConfiguration>, String>) -> (result: Result<Vec<ClusterConfiguration>, ListClusterConfigurationsError>)
        ensures
            match read {
                Ok(configurations) => result == Ok::<Vec<ClusterConfiguration>, ListClusterConfigurationsError>(configurations),
                Err(cause) => result == Err::<Vec<ClusterConfiguration>, ListClusterConfigurationsError>(ListClusterConfigurationsError { message: cause }),
            },
    {
        match read {
            Ok(configurations) => Ok(configurations),
            Err(cause) => Err(ListClusterConfigurationsError { message: cause }),
        }
    }

    /// The answer to a request for a cluster deployment, given what was read.
    pub fn get_deployment(&self, cluster_id: ClusterId, read: Result<Option<ClusterDeployment>, String>) -> (result: Result<Option<ClusterDeployment>, GetClusterDeploymentError>)
        ensures
            match read {
                Ok(deployment) => result == Ok::<Option<ClusterDeployment>, GetClusterDeploymentError>(deployment),
                Err(cause) => result == Err::<Option<ClusterDeployment>, GetClusterDeploymentError>(GetClusterDeploymentError::Internal { cluster_id, cause }),
            },
    {
        match read {
            Ok(deployment) => Ok(deployment),
            Err(cause) => Err(GetClusterDeploymentError::Internal { cluster_id, cause }),
        }
    }

    /// The answer to a request for all cluster deployments, given what was read.
    pub fn list_deployment(&self, read: Result<Vec<ClusterDeployment>, String>) -> (result: Result<Vec<ClusterDeployment>, ListClusterDeploymentsError>)
        ensures
            match read {
                Ok(deployments) => result == Ok::<Vec<ClusterDeployment>, ListClusterDeploymentsError>(deployments),
                Err(cause) => result == Err::<Vec<ClusterDeployment>, ListClusterDeploymentsError>(ListClusterDeploymentsError { message: cause }),
            },
    {
        match read {
            Ok(deployments) => Ok(deployments),
            Err(cause) => Err(ListClusterDeploymentsError { message: cause }),
        }
    }
}

} // verus!
