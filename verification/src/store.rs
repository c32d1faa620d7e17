use vstd::prelude::*;

use crate::cluster::{ClusterConfiguration, ClusterDeployment};
use crate::deploy::{deploy_step, DeployAction, DeployEvent, DeployRun};
use crate::ids::{ClusterId, ClusterName};
use crate::manager::{
    ClusterManager, ClusterManagerOptions, DeployClusterError, StoreClusterDeploymentError,
};

verus! {

/// What the outside world reports back while a deployment is stored.
#[derive(Debug, PartialEq, Eq)]
pub enum StoreEvent {
    /// Storing is to begin.
    Start,
    /// The cluster's configuration was read: absent, or the error's text.
    ClusterConfigurationRead(Result<Option<ClusterConfiguration>, String>),
    /// The deployment was inserted, or the error's text.
    DeploymentInserted(Result<(), String>),
    /// What the deployment of the cluster was told.
    Deploy(DeployEvent),
}

/// What storing a deployment asks the outside world to do next.
#[derive(Debug, PartialEq, Eq)]
pub enum StoreAction {
    ReadClusterConfiguration { cluster_id: ClusterId },
    InsertDeployment { deployment: ClusterDeployment },
    /// What the deployment of the cluster asks for.
    Deploy(DeployAction),
    /// Storing is over with `result`; `deploy_error` tells why the deployment
    /// that followed failed, which does not fail storing.
    Finish {
        result: Result<ClusterId, StoreClusterDeploymentError>,
        deploy_error: Option<DeployClusterError>,
    },
}

/// Where storing a deployment stands.
#[derive(Debug, PartialEq, Eq)]
pub enum StoreStage {
    NotStarted,
    AwaitingConfiguration,
    AwaitingInsertion { cluster_name: ClusterName },
    Deploying { run: DeployRun },
    Finished,
}

/// Storing one cluster deployment and then deploying the cluster, step by step.
#[derive(Debug, PartialEq, Eq)]
pub struct StoreRun {
    deployment: ClusterDeployment,
    stage: StoreStage,
}

/// The name under which a cluster without configuration is reported.
pub open spec fn unknown_cluster_name() -> Seq<char> {
    "unknown_cluster"@
}

/// One step of storing a deployment: from `before` and `run`, on `event`, to
/// `after` and `next`, asking for `action`.
pub open spec fn store_step(
    before: ClusterManager,
    run: StoreRun,
    event: StoreEvent,
    after: ClusterManager,
    next: StoreRun,
    action: StoreAction,
) -> bool {
    let deployment = run.deployment_spec();
    let id = deployment.id;
    &&& next.deployment_spec() == deployment
    &&& match run.stage_spec() {
        StoreStage::NotStarted => {
            &&& after == before
            &&& next.stage_spec() is AwaitingConfiguration
            &&& action == StoreAction::ReadClusterConfiguration { cluster_id: id }
        },
        StoreStage::AwaitingConfiguration => match event {
            StoreEvent::ClusterConfigurationRead(read) => {
                &&& after == before
                &&& match read {
                    Err(cause) => next.stage_spec() is Finished && action == StoreAction::Finish {
                        result: Err(StoreClusterDeploymentError::Internal { cluster_id: id, cluster_name: None, cause }),
                        deploy_error: None,
                    },
                    Ok(configuration) => {
                        &&& next.stage_spec() is AwaitingInsertion
                        &&& match configuration {
                            Some(configuration) => next.stage_spec()->cluster_name == configuration.name,
                            None => next.stage_spec()->cluster_name.text() == unknown_cluster_name(),
                        }
                        &&& action == StoreAction::InsertDeployment { deployment }
                    },
                }
            },
            _ => false,
        },
        StoreStage::AwaitingInsertion { cluster_name } => match event {
            StoreEvent::DeploymentInserted(inserted) => match inserted {
                Err(cause) => {
                    &&& after == before
                    &&& next.stage_spec() is Finished
                    &&& action == StoreAction::Finish {
                        result: Err(StoreClusterDeploymentError::Internal { cluster_id: id, cluster_name: Some(cluster_name), cause }),
                        deploy_error: None,
                    }
                },
                Ok(()) => {
                    &&& after == before
                    &&& next.stage_spec() is Deploying
                    &&& next.stage_spec()->run.cluster_id_spec() == id
                    &&& next.stage_spec()->run.stage_spec() is AwaitingConfiguration
                    &&& action == StoreAction::Deploy(DeployAction::ReadClusterConfiguration { cluster_id: id })
                },
            },
            _ => false,
        },
        StoreStage::Deploying { run: deploy_run } => match event {
            StoreEvent::Deploy(deploy_event) => exists|deploy_next: DeployRun, deploy_action: DeployAction|
                #[trigger] deploy_step(before, deploy_run, deploy_event, after, deploy_next, deploy_action)
                && match deploy_action {
                    DeployAction::Finish(outcome) => {
                        &&& next.stage_spec() is Finished
                        &&& action == StoreAction::Finish {
                            result: Ok(id),
                            deploy_error: match outcome {
                                Ok(()) => None,
                                Err(error) => Some(error),
                            },
                        }
                    },
                    _ => {
                        &&& next.stage_spec() == StoreStage::Deploying { run: deploy_next }
                        &&& action == StoreAction::Deploy(deploy_action)
                    },
                },
            _ => false,
        },
        StoreStage::Finished => false,
    }
}

impl StoreRun {
    /// The deployment that is stored.
    pub closed spec fn deployment_spec(&self) -> ClusterDeployment {
        self.deployment
    }

    /// Where storing stands.
    pub closed spec fn stage_spec(&self) -> StoreStage {
        self.stage
    }

    /// A deployment that is under way belongs to the stored cluster and holds
    /// together.
    pub open spec fn wf(&self) -> bool {
        match self.stage_spec() {
            StoreStage::Deploying { run } => run.wf() && run.cluster_id_spec() == self.deployment_spec().id,
            _ => true,
        }
    }

    /// A deployment under way agrees with the manager's port range.
    pub open spec fn fits(&self, options: ClusterManagerOptions) -> bool {
        match self.stage_spec() {
            StoreStage::Deploying { run } => run.fits(options),
            _ => true,
        }
    }

    /// The event answers what was asked for last.
    pub open spec fn accepts_spec(&self, event: &StoreEvent) -> bool {
        match (self.stage_spec(), event) {
            (StoreStage::NotStarted, StoreEvent::Start) => true,
            (StoreStage::AwaitingConfiguration, StoreEvent::ClusterConfigurationRead(_)) => true,
            (StoreStage::AwaitingInsertion { .. }, StoreEvent::DeploymentInserted(_)) => true,
            (StoreStage::Deploying { run }, StoreEvent::Deploy(deploy_event)) => run.accepts_spec(deploy_event),
            _ => false,
        }
    }

    /// Storing of the given deployment, not started.
    pub fn new(deployment: ClusterDeployment) -> (run: Self)
        ensures
            run.deployment_spec() == deployment,
            run.stage_spec() is NotStarted,
            run.wf(),
    {
        StoreRun { deployment, stage: StoreStage::NotStarted }
    }

    /// Whether storing is over.
    pub fn is_finished(&self) -> (finished: bool)
        ensures
            finished == self.stage_spec() is Finished,
    {
        match self.stage {
            StoreStage::Finished => true,
            _ => false,
        }
    }

    /// Whether `event` answers what was asked for last.
    pub fn accepts(&self, event: &StoreEvent) -> (accepted: bool)
        ensures
            accepted == self.accepts_spec(event),
    {
        match (&self.stage, event) {
            (StoreStage::NotStarted, StoreEvent::Start) => true,
            (StoreStage::AwaitingConfiguration, StoreEvent::ClusterConfigurationRead(_)) => true,
            (StoreStage::AwaitingInsertion { .. }, StoreEvent::DeploymentInserted(_)) => true,
            (StoreStage::Deploying { run }, StoreEvent::Deploy(deploy_event)) => run.accepts(deploy_event),
            _ => false,
        }
    }
}

impl ClusterManager {
    /// One step of storing a cluster deployment: the cluster's configuration is
    /// read for its name, the deployment is inserted, and then the cluster is
    /// deployed. Storing succeeds with the cluster's id once the deployment was
    /// inserted, whether or not deploying the cluster then succeeds.
    pub fn store_cluster_deployment(&mut self, run: &mut StoreRun, event: StoreEvent) -> (action: StoreAction)
        requires
            old(self).wf(),
            old(run).wf(),
            old(run).fits(old(self).options_spec()),
            old(run).accepts_spec(&event),
        ensures
            final(self).wf(),
            final(run).wf(),
            final(run).fits(final(self).options_spec()),
            store_step(*old(self), *old(run), event, *final(self), *final(run), action),
    {
        let mut stage = StoreStage::Finished;
        core::mem::swap(&mut stage, &mut run.stage);
        let deployment = run.deployment;
        let cluster_id = deployment.id;
        let (next_stage, action) = match stage {
            StoreStage::NotStarted => (
                StoreStage::AwaitingConfiguration,
                StoreAction::ReadClusterConfiguration { cluster_id },
            ),
            StoreStage::AwaitingConfiguration => match event {
                StoreEvent::ClusterConfigurationRead(read) => match read {
                    Err(cause) => (
                        StoreStage::Finished,
                        StoreAction::Finish {
                            result: Err(StoreClusterDeploymentError::Internal { cluster_id, cluster_name: None, cause }),
                            deploy_error: None,
                        },
                    ),
                    Ok(configuration) => {
                        let cluster_name = match configuration {
                            Some(configuration) => configuration.name,
                            None => ClusterName::from_text("unknown_cluster"),
                        };
                        (StoreStage::AwaitingInsertion { cluster_name }, StoreAction::InsertDeployment { deployment })
                    },
                },
                // An event that does not answer the stage is excluded by `accepts_spec`.
                _ => (StoreStage::Finished, StoreAction::ReadClusterConfiguration { cluster_id }),
            },
            StoreStage::AwaitingInsertion { cluster_name } => match event {
                StoreEvent::DeploymentInserted(inserted) => match inserted {
                    Err(cause) => (
                        StoreStage::Finished,
                        StoreAction::Finish {
                            result: Err(StoreClusterDeploymentError::Internal {
                                cluster_id,
                                cluster_name: Some(cluster_name),
                                cause,
                            }),
                            deploy_error: None,
                        },
                    ),
                    Ok(()) => {
                        let mut deploy_run = DeployRun::new(cluster_id);
                        let ghost before = *self;
                        let deploy_action = self.deploy(&mut deploy_run, DeployEvent::Start);
                        proof {
                            ClusterManager::lemma_same_manager(before, *self);
                        }
                        (StoreStage::Deploying { run: deploy_run }, StoreAction::Deploy(deploy_action))
                    },
                },
                // An event that does not answer the stage is excluded by `accepts_spec`.
                _ => (StoreStage::Finished, StoreAction::ReadClusterConfiguration { cluster_id }),
            },
            StoreStage::Deploying { run: mut deploy_run } => match event {
                StoreEvent::Deploy(deploy_event) => {
                    let ghost before = *self;
                    let ghost deploy_before = deploy_run;
                    let ghost event_value = deploy_event;
                    let deploy_action = self.deploy(&mut deploy_run, deploy_event);
                    assert(deploy_step(before, deploy_before, event_value, *self, deploy_run, deploy_action));
                    match deploy_action {
                        DeployAction::Finish(outcome) => {
                            let deploy_error = match outcome {
                                Ok(()) => None,
                                Err(error) => Some(error),
                            };
                            (StoreStage::Finished, StoreAction::Finish { result: Ok(cluster_id), deploy_error })
                        },
                        deploy_action => (StoreStage::Deploying { run: deploy_run }, StoreAction::Deploy(deploy_action)),
                    }
                },
                // An event that does not answer the stage is excluded by `accepts_spec`.
                _ => (StoreStage::Finished, StoreAction::ReadClusterConfiguration { cluster_id }),
            },
            StoreStage::Finished => (StoreStage::Finished, StoreAction::ReadClusterConfiguration { cluster_id }),
        };
        run.stage = next_stage;
        action
    }
}

} // verus!
