use vstd::prelude::*;

use crate::cluster::{ClusterConfiguration, ClusterDeployment};
use crate::ids::ClusterId;
use crate::messages::{
    cluster_still_deployed, cluster_still_deployed_text, configuration_deleted,
    configuration_deleted_text, configuration_not_deleted, configuration_not_deleted_text,
    deployments_unlisted, deployments_unlisted_text,
};

verus! {

/// Delete a cluster configuration: the command and the UUID of the cluster, as
/// its 128 bits.
#[derive(Clone, Copy, Debug, PartialEq, Eq, Structural)]
pub struct DeleteClusterConfigurationCli {
    pub id: u128,
}

/// What the server answered the command.
#[derive(Debug, PartialEq, Eq)]
pub enum DeleteConfigurationEvent {
    /// The command is to begin.
    Start,
    /// The cluster deployments were listed, or the error's text.
    DeploymentsListed(Result<Vec<ClusterDeployment>, String>),
    /// The configuration was deleted and is returned, or the error's text.
    ConfigurationDeleted(Result<ClusterConfiguration, String>),
}

/// What the command asks for next.
#[derive(Debug, PartialEq, Eq)]
pub enum DeleteConfigurationAction {
    ListClusterDeployments,
    DeleteClusterConfiguration { cluster_id: ClusterId },
    /// The command is over: the line to print, or the error message.
    Finish(Result<String, String>),
}

/// Where the command stands.
#[derive(Debug, PartialEq, Eq)]
pub enum DeleteConfigurationStage {
    NotStarted,
    AwaitingDeployments,
    AwaitingDeletion,
    Finished,
}

/// One run of the command, step by step.
#[derive(Debug, PartialEq, Eq)]
pub struct DeleteConfigurationRun {
    stage: DeleteConfigurationStage,
}

/// Some listed deployment is of another cluster than `cluster_id`; this is what
/// the command asks before it deletes.
pub open spec fn has_deployment_of_other_cluster(deployments: Seq<ClusterDeployment>, cluster_id: ClusterId) -> bool {
    exists|i: int| 0 <= i < deployments.len() && #[trigger] deployments[i].id != cluster_id
}

/// The action ends the command with an error of the given text.
pub open spec fn fails_with(action: DeleteConfigurationAction, text: Seq<char>) -> bool {
    action matches DeleteConfigurationAction::Finish(Err(message)) && message@ == text
}

/// One step of the command: from `run`, on `event`, to `next`, asking for `action`.
pub open spec fn execute_step(
    command: DeleteClusterConfigurationCli,
    run: DeleteConfigurationRun,
    event: DeleteConfigurationEvent,
    next: DeleteConfigurationRun,
    action: DeleteConfigurationAction,
) -> bool {
    let id = ClusterId(command.id);
    match run.stage_spec() {
        DeleteConfigurationStage::NotStarted => next.stage_spec() is AwaitingDeployments
            && action == DeleteConfigurationAction::ListClusterDeployments,
        DeleteConfigurationStage::AwaitingDeployments => match event {
            DeleteConfigurationEvent::DeploymentsListed(listed) => match listed {
                Err(_) => next.stage_spec() is Finished && fails_with(action, deployments_unlisted_text()),
                Ok(deployments) => if has_deployment_of_other_cluster(deployments@, id) {
                    next.stage_spec() is AwaitingDeletion
                        && action == DeleteConfigurationAction::DeleteClusterConfiguration { cluster_id: id }
                } else {
                    next.stage_spec() is Finished && fails_with(action, cluster_still_deployed_text(id))
                },
            },
            _ => false,
        },
        DeleteConfigurationStage::AwaitingDeletion => match event {
            DeleteConfigurationEvent::ConfigurationDeleted(deleted) => next.stage_spec() is Finished
                && match deleted {
                    Err(error) => fails_with(action, configuration_not_deleted_text(id, error@)),
                    Ok(configuration) => action matches DeleteConfigurationAction::Finish(Ok(line))
                        && line@ == configuration_deleted_text(configuration.name, configuration.id),
                },
            _ => false,
        },
        DeleteConfigurationStage::Finished => false,
    }
}

impl DeleteConfigurationRun {
    /// Where the command stands.
    pub closed spec fn stage_spec(&self) -> DeleteConfigurationStage {
        self.stage
    }

    /// The event answers what was asked for last.
    pub open spec fn accepts_spec(&self, event: &DeleteConfigurationEvent) -> bool {
        match (self.stage_spec(), event) {
            (DeleteConfigurationStage::NotStarted, DeleteConfigurationEvent::Start) => true,
            (DeleteConfigurationStage::AwaitingDeployments, DeleteConfigurationEvent::DeploymentsListed(_)) => true,
            (DeleteConfigurationStage::AwaitingDeletion, DeleteConfigurationEvent::ConfigurationDeleted(_)) => true,
            _ => false,
        }
    }

    /// A run that has not started.
    pub fn new() -> (run: Self)
        ensures
            run.stage_spec() is NotStarted,
    {
        DeleteConfigurationRun { stage: DeleteConfigurationStage::NotStarted }
    }

    /// Whether the command is over.
    pub fn is_finished(&self) -> (finished: bool)
        ensures
            finished == self.stage_spec() is Finished,
    {
        match self.stage {
            DeleteConfigurationStage::Finished => true,
            _ => false,
        }
    }

    /// Whether `event` answers what was asked for last.
    pub fn accepts(&self, event: &DeleteConfigurationEvent) -> (accepted: bool)
        ensures
            accepted == self.accepts_spec(event),
    {
        match (&self.stage, event) {
            (DeleteConfigurationStage::NotStarted, DeleteConfigurationEvent::Start) => true,
            (DeleteConfigurationStage::AwaitingDeployments, DeleteConfigurationEvent::DeploymentsListed(_)) => true,
            (DeleteConfigurationStage::AwaitingDeletion, DeleteConfigurationEvent::ConfigurationDeleted(_)) => true,
            _ => false,
        }
    }
}

fn find_deployment_of_other_cluster(deployments: &Vec<ClusterDeployment>, cluster_id: ClusterId) -> (found: bool)
    ensures
        found == has_deployment_of_other_cluster(deployments@, cluster_id),
{
    let mut i: usize = 0;
    while i < deployments.len()
        invariant
            0 <= i <= deployments.len(),
            forall|j: int| 0 <= j < i ==> deployments@[j].id == cluster_id,
        decreases deployments.len() - i,
    {
        if deployments[i].id != cluster_id {
            assert(deployments@[i as int].id != cluster_id);
            return true;
        }
        i = i + 1;
    }
    false
}

impl DeleteClusterConfigurationCli {
    /// One step of the command: lists the cluster deployments, and proceeds only
    /// if one of them belongs to another cluster; then deletes the configuration
    /// and reports it.
    pub fn execute(&self, run: &mut DeleteConfigurationRun, event: DeleteConfigurationEvent) -> (action: DeleteConfigurationAction)
        requires
            old(run).accepts_spec(&event),
        ensures
            execute_step(*self, *old(run), event, *final(run), action),
    {
        let id = ClusterId(self.id);
        let (next_stage, action) = match run.stage {
            DeleteConfigurationStage::NotStarted => (
                DeleteConfigurationStage::AwaitingDeployments,
                DeleteConfigurationAction::ListClusterDeployments,
            ),
            DeleteConfigurationStage::AwaitingDeployments => match event {
                DeleteConfigurationEvent::DeploymentsListed(listed) => match listed {
                    Err(_) => (
                        DeleteConfigurationStage::Finished,
                        DeleteConfigurationAction::Finish(Err(deployments_unlisted())),
                    ),
                    Ok(deployments) => if find_deployment_of_other_cluster(&deployments, id) {
                        (
                            DeleteConfigurationStage::AwaitingDeletion,
                            DeleteConfigurationAction::DeleteClusterConfiguration { cluster_id: id },
                        )
                    } else {
                        (
                            DeleteConfigurationStage::Finished,
                            DeleteConfigurationAction::Finish(Err(cluster_still_deployed(id))),
                        )
                    },
                },
                // An event that does not answer the stage is excluded by `accepts_spec`.
                _ => (DeleteConfigurationStage::Finished, DeleteConfigurationAction::ListClusterDeployments),
            },
            DeleteConfigurationStage::AwaitingDeletion => match event {
                DeleteConfigurationEvent::ConfigurationDeleted(deleted) => match deleted {
                    Err(error) => (
                        DeleteConfigurationStage::Finished,
                        DeleteConfigurationAction::Finish(Err(configuration_not_deleted(id, &error))),
                    ),
                    Ok(configuration) => (
                        DeleteConfigurationStage::Finished,
                        DeleteConfigurationAction::Finish(Ok(configuration_deleted(&configuration.name, configuration.id))),
                    ),
                },
                // An event that does not answer the stage is excluded by `accepts_spec`.
                _ => (DeleteConfigurationStage::Finished, DeleteConfigurationAction::ListClusterDeployments),
            },
            DeleteConfigurationStage::Finished => (DeleteConfigurationStage::Finished, DeleteConfigurationAction::ListClusterDeployments),
        };
        run.stage = next_stage;
        action
    }
}

} // verus!
