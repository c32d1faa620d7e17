use vstd::prelude::*;

use crate::cluster::{ClusterConfiguration, ClusterDeployment};
use crate::ids::{ClusterId, ClusterName, DeviceId, PeerId};
use crate::manager::{ClusterManager, DeleteClusterDeploymentError, Vpn};
use crate::messages::{cluster_assignment_failure, cluster_assignment_failure_text};
use crate::peer::PeerDescriptor;

verus! {

/// What the outside world reports back while a cluster deployment is deleted.
#[derive(Debug, PartialEq, Eq)]
pub enum DeleteEvent {
    /// Deleting is to begin.
    Start,
    /// The deployment was removed: it was there, it was not, or the error's text.
    DeploymentRemoved(Result<Option<ClusterDeployment>, String>),
    /// The cluster's configuration was read: absent, or the error's text.
    ClusterConfigurationRead(Result<Option<ClusterConfiguration>, String>),
    /// The cluster was deleted in the VPN service, or the error's text.
    VpnClusterDeleted(Result<(), String>),
    /// All peer descriptors were listed, or the error's text.
    PeerDescriptorsListed(Result<Vec<PeerDescriptor>, String>),
    /// The cluster was unassigned from the last peer asked for, or the error's text.
    ClusterUnassigned(Result<(), String>),
}

/// What deleting a cluster deployment asks the outside world to do next.
#[derive(Debug, PartialEq, Eq)]
pub enum DeleteAction {
    RemoveDeployment { cluster_id: ClusterId },
    ReadClusterConfiguration { cluster_id: ClusterId },
    DeleteVpnCluster { cluster_id: ClusterId },
    ListPeerDescriptors,
    UnassignCluster { peer_id: PeerId },
    /// Deleting is over, with this outcome.
    Finish(Result<ClusterDeployment, DeleteClusterDeploymentError>),
}

/// Where deleting a cluster deployment stands.
#[derive(Debug, PartialEq, Eq)]
pub enum DeleteStage {
    NotStarted,
    AwaitingRemoval,
    AwaitingConfiguration { deployment: ClusterDeployment },
    AwaitingVpn { deployment: ClusterDeployment, configuration: ClusterConfiguration },
    AwaitingPeers { deployment: ClusterDeployment, configuration: ClusterConfiguration },
    Unassigning {
        deployment: ClusterDeployment,
        cluster_name: ClusterName,
        member_ids: Vec<PeerId>,
        next: usize,
    },
    Finished,
}

/// Deleting the deployment of one cluster, step by step.
#[derive(Debug, PartialEq, Eq)]
pub struct DeleteRun {
    cluster_id: ClusterId,
    stage: DeleteStage,
}

/// `peer` has at least one of the cluster's devices.
pub open spec fn has_cluster_device(peer: PeerDescriptor, devices: Seq<DeviceId>) -> bool {
    exists|k: int|
        0 <= k < peer.topology.devices@.len() && devices.contains(
            #[trigger] peer.topology.devices@[k].id,
        )
}

/// The ids of the peers that have at least one of the cluster's devices, in the
/// order of `peers`.
pub open spec fn cluster_member_ids(devices: Seq<DeviceId>, peers: Seq<PeerDescriptor>) -> Seq<PeerId>
    decreases peers.len(),
{
    if peers.len() == 0 {
        Seq::empty()
    } else {
        let rest = cluster_member_ids(devices, peers.drop_last());
        if has_cluster_device(peers.last(), devices) {
            rest.push(peers.last().id)
        } else {
            rest
        }
    }
}

/// An internal error of the cluster with the given name and a cause of the given text.
pub open spec fn fails_internally(
    action: DeleteAction,
    cluster_id: ClusterId,
    cluster_name: Option<ClusterName>,
    cause_text: Seq<char>,
) -> bool {
    action matches DeleteAction::Finish(
        Err(DeleteClusterDeploymentError::Internal { cluster_id: id, cluster_name: name, cause }),
    ) && id == cluster_id && name == cluster_name && cause@ == cause_text
}

/// The unassignment of `member_ids[next]` and what follows, or the end.
pub open spec fn unassigns_next(
    deployment: ClusterDeployment,
    cluster_name: ClusterName,
    member_ids: Seq<PeerId>,
    next: int,
    stage: DeleteStage,
    action: DeleteAction,
) -> bool {
    if next < member_ids.len() {
        &&& stage matches DeleteStage::Unassigning { deployment: d, cluster_name: n, member_ids: m, next: k }
            && d == deployment && n == cluster_name && m@ == member_ids && k == next + 1
        &&& action == DeleteAction::UnassignCluster { peer_id: member_ids[next] }
    } else {
        &&& stage is Finished
        &&& action == DeleteAction::Finish(Ok(deployment))
    }
}

/// One step of deleting a cluster deployment: from `run`, on `event`, to `next`,
/// asking for `action`.
pub open spec fn delete_step(
    manager: ClusterManager,
    run: DeleteRun,
    event: DeleteEvent,
    next: DeleteRun,
    action: DeleteAction,
) -> bool {
    let id = run.cluster_id_spec();
    &&& next.cluster_id_spec() == id
    &&& match run.stage_spec() {
        DeleteStage::NotStarted => {
            &&& next.stage_spec() is AwaitingRemoval
            &&& action == DeleteAction::RemoveDeployment { cluster_id: id }
        },
        DeleteStage::AwaitingRemoval => match event {
            DeleteEvent::DeploymentRemoved(removed) => match removed {
                Err(cause) => next.stage_spec() is Finished && action == DeleteAction::Finish(
                    Err(DeleteClusterDeploymentError::Internal { cluster_id: id, cluster_name: None, cause }),
                ),
                Ok(None) => next.stage_spec() is Finished && action == DeleteAction::Finish(
                    Err(DeleteClusterDeploymentError::ClusterDeploymentNotFound { cluster_id: id }),
                ),
                Ok(Some(deployment)) => next.stage_spec() == (DeleteStage::AwaitingConfiguration { deployment })
                    && action == DeleteAction::ReadClusterConfiguration { cluster_id: id },
            },
            _ => false,
        },
        DeleteStage::AwaitingConfiguration { deployment } => match event {
            DeleteEvent::ClusterConfigurationRead(read) => match read {
                Err(cause) => next.stage_spec() is Finished && action == DeleteAction::Finish(
                    Err(DeleteClusterDeploymentError::Internal { cluster_id: id, cluster_name: None, cause }),
                ),
                Ok(None) => next.stage_spec() is Finished && action == DeleteAction::Finish(Ok(deployment)),
                Ok(Some(configuration)) => if manager.vpn_spec() is Enabled {
                    next.stage_spec() == (DeleteStage::AwaitingVpn { deployment, configuration })
                        && action == DeleteAction::DeleteVpnCluster { cluster_id: id }
                } else {
                    next.stage_spec() == (DeleteStage::AwaitingPeers { deployment, configuration })
                        && action == DeleteAction::ListPeerDescriptors
                },
            },
            _ => false,
        },
        DeleteStage::AwaitingVpn { deployment, configuration } => match event {
            DeleteEvent::VpnClusterDeleted(deleted) => match deleted {
                Err(cause) => next.stage_spec() is Finished && action == DeleteAction::Finish(
                    Err(DeleteClusterDeploymentError::Internal {
                        cluster_id: id,
                        cluster_name: Some(configuration.name),
                        cause,
                    }),
                ),
                Ok(()) => next.stage_spec() == (DeleteStage::AwaitingPeers { deployment, configuration })
                    && action == DeleteAction::ListPeerDescriptors,
            },
            _ => false,
        },
        DeleteStage::AwaitingPeers { deployment, configuration } => match event {
            DeleteEvent::PeerDescriptorsListed(listed) => match listed {
                Err(cause) => next.stage_spec() is Finished && action == DeleteAction::Finish(
                    Err(DeleteClusterDeploymentError::Internal {
                        cluster_id: id,
                        cluster_name: Some(configuration.name),
                        cause,
                    }),
                ),
                Ok(peers) => unassigns_next(
                    deployment,
                    configuration.name,
                    cluster_member_ids(configuration.devices@, peers@),
                    0,
                    next.stage_spec(),
                    action,
                ),
            },
            _ => false,
        },
        DeleteStage::Unassigning { deployment, cluster_name, member_ids, next: k } => match event {
            DeleteEvent::ClusterUnassigned(unassigned) => match unassigned {
                Err(_) => next.stage_spec() is Finished && fails_internally(
                    action,
                    id,
                    Some(cluster_name),
                    cluster_assignment_failure_text(id, member_ids@[k - 1]),
                ),
                Ok(()) => unassigns_next(deployment, cluster_name, member_ids@, k as int, next.stage_spec(), action),
            },
            _ => false,
        },
        DeleteStage::Finished => false,
    }
}

impl DeleteRun {
    /// The cluster whose deployment is deleted.
    pub closed spec fn cluster_id_spec(&self) -> ClusterId {
        self.cluster_id
    }

    /// Where deleting stands.
    pub closed spec fn stage_spec(&self) -> DeleteStage {
        self.stage
    }

    /// The last member asked to be unassigned exists.
    pub open spec fn wf(&self) -> bool {
        match self.stage_spec() {
            DeleteStage::Unassigning { member_ids, next, .. } => 1 <= next <= member_ids@.len(),
            _ => true,
        }
    }

    /// The event answers what was asked for last.
    pub open spec fn accepts_spec(&self, event: &DeleteEvent) -> bool {
        match (self.stage_spec(), event) {
            (DeleteStage::NotStarted, DeleteEvent::Start) => true,
            (DeleteStage::AwaitingRemoval, DeleteEvent::DeploymentRemoved(_)) => true,
            (DeleteStage::AwaitingConfiguration { .. }, DeleteEvent::ClusterConfigurationRead(_)) => true,
            (DeleteStage::AwaitingVpn { .. }, DeleteEvent::VpnClusterDeleted(_)) => true,
            (DeleteStage::AwaitingPeers { .. }, DeleteEvent::PeerDescriptorsListed(_)) => true,
            (DeleteStage::Unassigning { .. }, DeleteEvent::ClusterUnassigned(_)) => true,
            _ => false,
        }
    }

    /// Deleting the deployment of the given cluster, not started.
    pub fn new(cluster_id: ClusterId) -> (run: Self)
        ensures
            run.cluster_id_spec() == cluster_id,
            run.stage_spec() is NotStarted,
            run.wf(),
    {
        DeleteRun { cluster_id, stage: DeleteStage::NotStarted }
    }

    /// Whether deleting is over.
    pub fn is_finished(&self) -> (finished: bool)
        ensures
            finished == self.stage_spec() is Finished,
    {
        match self.stage {
            DeleteStage::Finished => true,
            _ => false,
        }
    }

    /// Whether `event` answers what was asked for last.
    pub fn accepts(&self, event: &DeleteEvent) -> (accepted: bool)
        ensures
            accepted == self.accepts_spec(event),
    {
        match (&self.stage, event) {
            (DeleteStage::NotStarted, DeleteEvent::Start) => true,
            (DeleteStage::AwaitingRemoval, DeleteEvent::DeploymentRemoved(_)) => true,
            (DeleteStage::AwaitingConfiguration { .. }, DeleteEvent::ClusterConfigurationRead(_)) => true,
            (DeleteStage::AwaitingVpn { .. }, DeleteEvent::VpnClusterDeleted(_)) => true,
            (DeleteStage::AwaitingPeers { .. }, DeleteEvent::PeerDescriptorsListed(_)) => true,
            (DeleteStage::Unassigning { .. }, DeleteEvent::ClusterUnassigned(_)) => true,
            _ => false,
        }
    }
}

fn contains_device(devices: &Vec<DeviceId>, device_id: DeviceId) -> (found: bool)
    ensures
        found == devices@.contains(device_id),
{
    let mut k: usize = 0;
    while k < devices.len()
        invariant
            0 <= k <= devices.len(),
            forall|j: int| 0 <= j < k ==> devices@[j] != device_id,
        decreases devices.len() - k,
    {
        if devices[k] == device_id {
            assert(devices@[k as int] == device_id);
            return true;
        }
        k = k + 1;
    }
    false
}

fn peer_has_cluster_device(peer: &PeerDescriptor, devices: &Vec<DeviceId>) -> (found: bool)
    ensures
        found == has_cluster_device(*peer, devices@),
{
    let peer_devices = &peer.topology.devices;
    let mut k: usize = 0;
    while k < peer_devices.len()
        invariant
            0 <= k <= peer_devices.len(),
            peer_devices == &peer.topology.devices,
            forall|j: int| 0 <= j < k ==> !devices@.contains(#[trigger] peer_devices@[j].id),
        decreases peer_devices.len() - k,
    {
        if contains_device(devices, peer_devices[k].id) {
            return true;
        }
        k = k + 1;
    }
    false
}

/// The ids of the peers that have at least one of the given devices, in order.
pub fn members_with_devices(devices: &Vec<DeviceId>, peers: &Vec<PeerDescriptor>) -> (member_ids: Vec<PeerId>)
    ensures
        member_ids@ == cluster_member_ids(devices@, peers@),
{
    let mut member_ids: Vec<PeerId> = Vec::new();
    let mut i: usize = 0;
    while i < peers.len()
        invariant
            0 <= i <= peers.len(),
            member_ids@ == cluster_member_ids(devices@, peers@.take(i as int)),
        decreases peers.len() - i,
    {
        assert(peers@.take(i + 1).drop_last() =~= peers@.take(i as int));
        if peer_has_cluster_device(&peers[i], devices) {
            member_ids.push(peers[i].id);
        }
        i = i + 1;
    }
    assert(peers@.take(peers@.len() as int) =~= peers@);
    member_ids
}

fn unassign_next(deployment: ClusterDeployment, cluster_name: ClusterName, member_ids: Vec<PeerId>, next: usize) -> (outcome: (DeleteStage, DeleteAction))
    requires
        next <= member_ids@.len(),
    ensures
        unassigns_next(deployment, cluster_name, member_ids@, next as int, outcome.0, outcome.1),
        outcome.0 matches DeleteStage::Unassigning { member_ids: m, next: k, .. } ==> 1 <= k <= m@.len(),
{
    if next < member_ids.len() {
        let peer_id = member_ids[next];
        (
            DeleteStage::Unassigning { deployment, cluster_name, member_ids, next: next + 1 },
            DeleteAction::UnassignCluster { peer_id },
        )
    } else {
        (DeleteStage::Finished, DeleteAction::Finish(Ok(deployment)))
    }
}

impl ClusterManager {
    /// One step of deleting a cluster deployment: the deployment is removed and
    /// the cluster's configuration read; if there is one, the cluster is deleted
    /// in the VPN service (when that is enabled) and unassigned from every peer
    /// that has one of its devices. Ends with the removed deployment, or at the
    /// first failure.
    pub fn delete_cluster_deployment(&self, run: &mut DeleteRun, event: DeleteEvent) -> (action: DeleteAction)
        requires
            old(run).wf(),
            old(run).accepts_spec(&event),
        ensures
            final(run).wf(),
            delete_step(*self, *old(run), event, *final(run), action),
    {
        let mut stage = DeleteStage::Finished;
        core::mem::swap(&mut stage, &mut run.stage);
        let cluster_id = run.cluster_id;
        let (next_stage, action) = match stage {
            DeleteStage::NotStarted => (DeleteStage::AwaitingRemoval, DeleteAction::RemoveDeployment { cluster_id }),
            DeleteStage::AwaitingRemoval => match event {
                DeleteEvent::DeploymentRemoved(removed) => match removed {
                    Err(cause) => (
                        DeleteStage::Finished,
                        DeleteAction::Finish(Err(DeleteClusterDeploymentError::Internal { cluster_id, cluster_name: None, cause })),
                    ),
                    Ok(None) => (
                        DeleteStage::Finished,
                        DeleteAction::Finish(Err(DeleteClusterDeploymentError::ClusterDeploymentNotFound { cluster_id })),
                    ),
                    Ok(Some(deployment)) => (
                        DeleteStage::AwaitingConfiguration { deployment },
                        DeleteAction::ReadClusterConfiguration { cluster_id },
                    ),
                },
                // An event that does not answer the stage is excluded by `accepts_spec`.
                _ => (DeleteStage::Finished, DeleteAction::ListPeerDescriptors),
            },
            DeleteStage::AwaitingConfiguration { deployment } => match event {
                DeleteEvent::ClusterConfigurationRead(read) => match read {
                    Err(cause) => (
                        DeleteStage::Finished,
                        DeleteAction::Finish(Err(DeleteClusterDeploymentError::Internal { cluster_id, cluster_name: None, cause })),
                    ),
                    Ok(None) => (DeleteStage::Finished, DeleteAction::Finish(Ok(deployment))),
                    Ok(Some(configuration)) => match self.vpn() {
                        Vpn::Enabled => (
                            DeleteStage::AwaitingVpn { deployment, configuration },
                            DeleteAction::DeleteVpnCluster { cluster_id },
                        ),
                        Vpn::Disabled => (
                            DeleteStage::AwaitingPeers { deployment, configuration },
                            DeleteAction::ListPeerDescriptors,
                        ),
                    },
                },
                // An event that does not answer the stage is excluded by `accepts_spec`.
                _ => (DeleteStage::Finished, DeleteAction::ListPeerDescriptors),
            },
            DeleteStage::AwaitingVpn { deployment, configuration } => match event {
                DeleteEvent::VpnClusterDeleted(deleted) => match deleted {
                    Err(cause) => (
                        DeleteStage::Finished,
                        DeleteAction::Finish(Err(DeleteClusterDeploymentError::Internal {
                            cluster_id,
                            cluster_name: Some(configuration.name),
                            cause,
                        })),
                    ),
                    Ok(()) => (
                        DeleteStage::AwaitingPeers { deployment, configuration },
                        DeleteAction::ListPeerDescriptors,
                    ),
                },
                // An event that does not answer the stage is excluded by `accepts_spec`.
                _ => (DeleteStage::Finished, DeleteAction::ListPeerDescriptors),
            },
            DeleteStage::AwaitingPeers { deployment, configuration } => match event {
                DeleteEvent::PeerDescriptorsListed(listed) => match listed {
                    Err(cause) => (
                        DeleteStage::Finished,
                        DeleteAction::Finish(Err(DeleteClusterDeploymentError::Internal {
                            cluster_id,
                            cluster_name: Some(configuration.name),
                            cause,
                        })),
                    ),
                    Ok(peers) => {
                        let member_ids = members_with_devices(&configuration.devices, &peers);
                        unassign_next(deployment, configuration.name, member_ids, 0)
                    },
                },
                // An event that does not answer the stage is excluded by `accepts_spec`.
                _ => (DeleteStage::Finished, DeleteAction::ListPeerDescriptors),
            },
            DeleteStage::Unassigning { deployment, cluster_name, member_ids, next } => match event {
                DeleteEvent::ClusterUnassigned(unassigned) => match unassigned {
                    Err(_) => {
                        let cause = cluster_assignment_failure(cluster_id, member_ids[next - 1]);
                        (
                            DeleteStage::Finished,
                            DeleteAction::Finish(Err(DeleteClusterDeploymentError::Internal {
                                cluster_id,
                                cluster_name: Some(cluster_name),
                                cause,
                            })),
                        )
                    },
                    Ok(()) => unassign_next(deployment, cluster_name, member_ids, next),
                },
                // An event that does not answer the stage is excluded by `accepts_spec`.
                _ => (DeleteStage::Finished, DeleteAction::ListPeerDescriptors),
            },
            DeleteStage::Finished => (DeleteStage::Finished, DeleteAction::ListPeerDescriptors),
        };
        run.stage = next_stage;
        action
    }
}

} // verus!
