use vstd::prelude::*;

use crate::cluster::{
    ClusterAssignment, ClusterAssignmentView, ClusterConfiguration, PeerClusterAssignment,
    PeerClusterAssignmentView,
};
use crate::ids::{ClusterId, PeerId, Port};
use crate::manager::{
    first_can_server_port, port_range_too_narrow_for, ClusterManager, ClusterManagerOptions,
    DeployClusterError, Vpn,
};
use crate::mapping::{
    all_devices_held, determine_member_interface_mapping, is_first_unheld,
    is_member_interface_mapping, DetermineMemberInterfaceMappingError, MemberInterfaceMapping,
};
use crate::messages::{
    cluster_assignment_failure, cluster_assignment_failure_text, peer_not_up, peer_not_up_text,
    peer_state_missing, peer_state_missing_text, peer_state_unreadable, peer_state_unreadable_text,
    port_range_too_narrow_text, vpn_cluster_creation_failure, vpn_cluster_creation_failure_text,
};
use crate::network::{IpAddress, NetworkInterfaceDescriptor};
use crate::peer::PeerDescriptor;
use crate::peer_state::PeerState;

verus! {

/// What the outside world reports back to a deployment.
#[derive(Debug, PartialEq, Eq)]
pub enum DeployEvent {
    /// The deployment is to begin.
    Start,
    /// The cluster configuration was read: absent, or the error's text.
    ClusterConfigurationRead(Result<Option<ClusterConfiguration>, String>),
    /// All peer descriptors were listed, or the error's text.
    PeerDescriptorsListed(Result<Vec<PeerDescriptor>, String>),
    /// The cluster was created in the VPN service, or the error's text.
    VpnClusterCreated(Result<(), String>),
    /// The states of the requested peers, in the order requested.
    PeerStatesRead(Vec<Result<Option<PeerState>, String>>),
    /// The cluster was assigned to the last peer asked for, or the error's text.
    ClusterAssigned(Result<(), String>),
}

/// What a deployment asks the outside world to do next.
#[derive(Debug, PartialEq, Eq)]
pub enum DeployAction {
    ReadClusterConfiguration { cluster_id: ClusterId },
    ListPeerDescriptors,
    CreateVpnCluster { cluster_id: ClusterId, member_ids: Vec<PeerId> },
    ReadPeerStates { peer_ids: Vec<PeerId> },
    AssignCluster { peer_id: PeerId, cluster_assignment: ClusterAssignment },
    /// The deployment is over, with this outcome.
    Finish(Result<(), DeployClusterError>),
}

/// Where a deployment stands.
#[derive(Debug, PartialEq, Eq)]
pub enum DeployStage {
    NotStarted,
    AwaitingConfiguration,
    AwaitingPeers { configuration: ClusterConfiguration },
    AwaitingVpn { configuration: ClusterConfiguration, mapping: MemberInterfaceMapping },
    AwaitingPeerStates {
        configuration: ClusterConfiguration,
        mapping: MemberInterfaceMapping,
        first_port: u16,
    },
    Assigning { assignment: ClusterAssignment, next: usize },
    Finished,
}

/// One deployment of one cluster, step by step.
#[derive(Debug, PartialEq, Eq)]
pub struct DeployRun {
    cluster_id: ClusterId,
    stage: DeployStage,
}

/// The peer ids of a member interface mapping, in its order.
pub open spec fn mapping_peer_ids(mapping: Seq<(PeerId, Vec<NetworkInterfaceDescriptor>)>) -> Seq<PeerId> {
    mapping.map_values(|entry: (PeerId, Vec<NetworkInterfaceDescriptor>)| entry.0)
}

/// No peer occurs twice in the mapping.
pub open spec fn mapping_keys_distinct(mapping: Seq<(PeerId, Vec<NetworkInterfaceDescriptor>)>) -> bool {
    forall|i: int, j: int| 0 <= i < j < mapping.len() ==> #[trigger] mapping[i].0 != #[trigger] mapping[j].0
}

/// Every member's CAN server port lies in the configured range, and no two
/// members share a port or a peer id.
pub open spec fn ports_in_range_and_distinct(
    options: ClusterManagerOptions,
    assignments: Seq<PeerClusterAssignmentView>,
) -> bool {
    &&& forall|i: int|
        0 <= i < assignments.len() ==> options.can_server_port_range_start
            <= (#[trigger] assignments[i]).can_server_port.0 < options.can_server_port_range_end
    &&& forall|i: int, j: int|
        0 <= i < j < assignments.len() ==> (#[trigger] assignments[i]).can_server_port
            != (#[trigger] assignments[j]).can_server_port && assignments[i].peer_id
            != assignments[j].peer_id
}

/// The VPN address of a peer whose state was read: its remote host if it is up.
pub open spec fn vpn_address_of(state: Result<Option<PeerState>, String>) -> Option<IpAddress> {
    match state {
        Ok(Some(PeerState::Up { remote_host, .. })) => Some(remote_host),
        _ => None,
    }
}

/// Why a member without a VPN address cannot take part.
pub open spec fn peer_state_failure_text(peer_id: PeerId, state: Result<Option<PeerState>, String>) -> Seq<char> {
    match state {
        Ok(Some(_)) => peer_not_up_text(peer_id),
        Ok(None) => peer_state_missing_text(peer_id),
        Err(_) => peer_state_unreadable_text(peer_id),
    }
}

/// `states[i]` is the first state that gives no VPN address.
pub open spec fn is_first_without_address(states: Seq<Result<Option<PeerState>, String>>, i: int) -> bool {
    &&& 0 <= i < states.len()
    &&& vpn_address_of(states[i]) is None
    &&& forall|j: int| 0 <= j < i ==> #[trigger] vpn_address_of(states[j]) is Some
}

/// What member `i` of `mapping` is given, with the states read for the members
/// and the first of their consecutive CAN server ports.
pub open spec fn member_assignment(
    mapping: Seq<(PeerId, Vec<NetworkInterfaceDescriptor>)>,
    states: Seq<Result<Option<PeerState>, String>>,
    first_port: u16,
    i: int,
) -> PeerClusterAssignmentView {
    PeerClusterAssignmentView {
        peer_id: mapping[i].0,
        vpn_address: vpn_address_of(states[i])->0,
        can_server_port: Port((first_port + i) as u16),
        device_interfaces: mapping[i].1@,
    }
}

/// The cluster assignment that every member is told.
pub open spec fn cluster_assignment_for(
    cluster_id: ClusterId,
    leader: PeerId,
    mapping: Seq<(PeerId, Vec<NetworkInterfaceDescriptor>)>,
    states: Seq<Result<Option<PeerState>, String>>,
    first_port: u16,
) -> ClusterAssignmentView {
    ClusterAssignmentView {
        id: cluster_id,
        leader,
        assignments: Seq::new(mapping.len(), |i: int| member_assignment(mapping, states, first_port, i)),
    }
}

/// The action ends the deployment with an internal error of the cluster whose
/// cause has the given text.
pub open spec fn fails_internally(action: DeployAction, cluster_id: ClusterId, cause_text: Seq<char>) -> bool {
    action matches DeployAction::Finish(Err(DeployClusterError::Internal { cluster_id: id, cause }))
        && id == cluster_id && cause@ == cause_text
}

/// Handing out CAN server ports to the members of `mapping`, and what follows.
pub open spec fn allocation_step(
    before: ClusterManager,
    after: ClusterManager,
    cluster_id: ClusterId,
    configuration: ClusterConfiguration,
    mapping: MemberInterfaceMapping,
    stage: DeployStage,
    action: DeployAction,
) -> bool {
    let n = mapping.len() as int;
    let options = before.options_spec();
    if n > u16::MAX || port_range_too_narrow_for(options, n) {
        &&& after.counter_spec() == before.counter_spec()
        &&& stage is Finished
        &&& action matches DeployAction::Finish(Err(DeployClusterError::Internal { cluster_id: id, cause }))
            && id == cluster_id
            && (n <= u16::MAX ==> cause@ == port_range_too_narrow_text(
                cluster_id,
                options.can_server_port_range_start,
                options.can_server_port_range_end,
                n as u16,
            ))
    } else {
        let first = first_can_server_port(options, before.counter_spec(), n);
        &&& after.counter_spec() == first + n
        &&& stage == (DeployStage::AwaitingPeerStates { configuration, mapping, first_port: first as u16 })
        &&& action matches DeployAction::ReadPeerStates { peer_ids } && peer_ids@ == mapping_peer_ids(mapping@)
    }
}

/// One step of a deployment: from `before` and `run`, on `event`, to `after`
/// and `next`, asking for `action`.
pub open spec fn deploy_step(
    before: ClusterManager,
    run: DeployRun,
    event: DeployEvent,
    after: ClusterManager,
    next: DeployRun,
    action: DeployAction,
) -> bool {
    let id = run.cluster_id_spec();
    &&& next.cluster_id_spec() == id
    &&& after.vpn_spec() == before.vpn_spec()
    &&& after.options_spec() == before.options_spec()
    &&& match run.stage_spec() {
        DeployStage::NotStarted => {
            &&& after.counter_spec() == before.counter_spec()
            &&& next.stage_spec() is AwaitingConfiguration
            &&& action == DeployAction::ReadClusterConfiguration { cluster_id: id }
        },
        DeployStage::AwaitingConfiguration => match event {
            DeployEvent::ClusterConfigurationRead(read) => {
                &&& after.counter_spec() == before.counter_spec()
                &&& match read {
                    Err(cause) => next.stage_spec() is Finished && action == DeployAction::Finish(
                        Err(DeployClusterError::Internal { cluster_id: id, cause }),
                    ),
                    Ok(None) => next.stage_spec() is Finished && action == DeployAction::Finish(
                        Err(DeployClusterError::ClusterConfigurationNotFound(id)),
                    ),
                    Ok(Some(configuration)) => next.stage_spec() == (DeployStage::AwaitingPeers {
                        configuration,
                    }) && action == DeployAction::ListPeerDescriptors,
                }
            },
            _ => false,
        },
        DeployStage::AwaitingPeers { configuration } => match event {
            DeployEvent::PeerDescriptorsListed(listed) => match listed {
                Err(cause) => {
                    &&& after.counter_spec() == before.counter_spec()
                    &&& next.stage_spec() is Finished
                    &&& action == DeployAction::Finish(Err(DeployClusterError::Internal { cluster_id: id, cause }))
                },
                Ok(peers) => if !all_devices_held(configuration.devices@, peers@) {
                    &&& after.counter_spec() == before.counter_spec()
                    &&& next.stage_spec() is Finished
                    &&& exists|k: int| is_first_unheld(configuration.devices@, peers@, k)
                        && action == DeployAction::Finish(Err(DeployClusterError::PeerForDeviceNotFound {
                            device_id: configuration.devices@[k],
                            cluster_id: id,
                            cluster_name: configuration.name,
                        }))
                } else if before.vpn_spec() is Enabled {
                    &&& after.counter_spec() == before.counter_spec()
                    &&& next.stage_spec() is AwaitingVpn
                    &&& next.stage_spec()->AwaitingVpn_configuration == configuration
                    &&& is_member_interface_mapping(
                        configuration.devices@,
                        peers@,
                        configuration.leader,
                        next.stage_spec()->AwaitingVpn_mapping@,
                    )
                    &&& action is CreateVpnCluster
                    &&& action->CreateVpnCluster_cluster_id == id
                    &&& action->member_ids@ == mapping_peer_ids(next.stage_spec()->AwaitingVpn_mapping@)
                } else {
                    exists|mapping: MemberInterfaceMapping|
                        is_member_interface_mapping(configuration.devices@, peers@, configuration.leader, mapping@)
                        && allocation_step(before, after, id, configuration, mapping, next.stage_spec(), action)
                },
            },
            _ => false,
        },
        DeployStage::AwaitingVpn { configuration, mapping } => match event {
            DeployEvent::VpnClusterCreated(created) => match created {
                Err(_) => {
                    &&& after.counter_spec() == before.counter_spec()
                    &&& next.stage_spec() is Finished
                    &&& fails_internally(action, id, vpn_cluster_creation_failure_text(id))
                },
                Ok(()) => allocation_step(before, after, id, configuration, mapping, next.stage_spec(), action),
            },
            _ => false,
        },
        DeployStage::AwaitingPeerStates { configuration, mapping, first_port } => match event {
            DeployEvent::PeerStatesRead(states) => {
                &&& after.counter_spec() == before.counter_spec()
                &&& if exists|i: int| is_first_without_address(states@, i) {
                    let i = choose|i: int| is_first_without_address(states@, i);
                    &&& next.stage_spec() is Finished
                    &&& fails_internally(action, id, peer_state_failure_text(mapping@[i].0, states@[i]))
                } else {
                    let expected = cluster_assignment_for(id, configuration.leader, mapping@, states@, first_port);
                    &&& next.stage_spec() matches DeployStage::Assigning { assignment, next: k }
                        && assignment@ == expected && k == 1
                    &&& action matches DeployAction::AssignCluster { peer_id, cluster_assignment }
                        && peer_id == mapping@[0].0 && cluster_assignment@ == expected
                }
            },
            _ => false,
        },
        DeployStage::Assigning { assignment, next: k } => match event {
            DeployEvent::ClusterAssigned(assigned) => {
                &&& after.counter_spec() == before.counter_spec()
                &&& match assigned {
                    Err(_) => {
                        &&& next.stage_spec() is Finished
                        &&& fails_internally(
                            action,
                            id,
                            cluster_assignment_failure_text(id, assignment.assignments@[k - 1].peer_id),
                        )
                    },
                    Ok(()) => if k < assignment.assignments@.len() {
                        &&& next.stage_spec() == (DeployStage::Assigning { assignment, next: (k + 1) as usize })
                        &&& action matches DeployAction::AssignCluster { peer_id, cluster_assignment }
                            && peer_id == assignment.assignments@[k as int].peer_id
                            && cluster_assignment@ == assignment@
                    } else {
                        &&& next.stage_spec() is Finished
                        &&& action == DeployAction::Finish(Ok(()))
                    },
                }
            },
            _ => false,
        },
        DeployStage::Finished => false,
    }
}

impl DeployRun {
    /// The cluster that is deployed.
    pub closed spec fn cluster_id_spec(&self) -> ClusterId {
        self.cluster_id
    }

    /// Where the deployment stands.
    pub closed spec fn stage_spec(&self) -> DeployStage {
        self.stage
    }

    /// The stage holds together: mappings are not empty, ports fit, and the next
    /// member to be assigned exists.
    pub open spec fn wf(&self) -> bool {
        match self.stage_spec() {
            DeployStage::AwaitingVpn { mapping, .. } => mapping@.len() >= 1,
            DeployStage::AwaitingPeerStates { mapping, first_port, .. } => {
                &&& mapping@.len() >= 1
                &&& first_port + mapping@.len() <= u16::MAX
            },
            DeployStage::Assigning { assignment, next } => 1 <= next <= assignment.assignments@.len(),
            _ => true,
        }
    }

    /// What the deployment holds agrees with the port range of the manager that
    /// runs it: members are distinct, and the ports handed out lie in the range
    /// and are distinct.
    pub open spec fn fits(&self, options: ClusterManagerOptions) -> bool {
        match self.stage_spec() {
            DeployStage::AwaitingVpn { mapping, .. } => mapping_keys_distinct(mapping@),
            DeployStage::AwaitingPeerStates { mapping, first_port, .. } => {
                &&& mapping_keys_distinct(mapping@)
                &&& options.can_server_port_range_start <= first_port
                &&& first_port + mapping@.len() < options.can_server_port_range_end
            },
            DeployStage::Assigning { assignment, .. } => ports_in_range_and_distinct(
                options,
                assignment@.assignments,
            ),
            _ => true,
        }
    }

    /// The event answers what the deployment asked for last.
    pub open spec fn accepts_spec(&self, event: &DeployEvent) -> bool {
        match (self.stage_spec(), event) {
            (DeployStage::NotStarted, DeployEvent::Start) => true,
            (DeployStage::AwaitingConfiguration, DeployEvent::ClusterConfigurationRead(_)) => true,
            (DeployStage::AwaitingPeers { .. }, DeployEvent::PeerDescriptorsListed(_)) => true,
            (DeployStage::AwaitingVpn { .. }, DeployEvent::VpnClusterCreated(_)) => true,
            (DeployStage::AwaitingPeerStates { mapping, .. }, DeployEvent::PeerStatesRead(states)) => states@.len() == mapping@.len(),
            (DeployStage::Assigning { .. }, DeployEvent::ClusterAssigned(_)) => true,
            _ => false,
        }
    }

    /// A deployment of the given cluster that has not started.
    pub fn new(cluster_id: ClusterId) -> (run: Self)
        ensures
            run.cluster_id_spec() == cluster_id,
            run.stage_spec() is NotStarted,
            run.wf(),
    {
        DeployRun { cluster_id, stage: DeployStage::NotStarted }
    }

    pub fn cluster_id(&self) -> (cluster_id: ClusterId)
        ensures
            cluster_id == self.cluster_id_spec(),
    {
        self.cluster_id
    }

    /// Whether the deployment is over.
    pub fn is_finished(&self) -> (finished: bool)
        ensures
            finished == self.stage_spec() is Finished,
    {
        match self.stage {
            DeployStage::Finished => true,
            _ => false,
        }
    }

    /// Whether `event` answers what the deployment asked for last.
    pub fn accepts(&self, event: &DeployEvent) -> (accepted: bool)
        ensures
            accepted == self.accepts_spec(event),
    {
        match (&self.stage, event) {
            (DeployStage::NotStarted, DeployEvent::Start) => true,
            (DeployStage::AwaitingConfiguration, DeployEvent::ClusterConfigurationRead(_)) => true,
            (DeployStage::AwaitingPeers { .. }, DeployEvent::PeerDescriptorsListed(_)) => true,
            (DeployStage::AwaitingVpn { .. }, DeployEvent::VpnClusterCreated(_)) => true,
            (DeployStage::AwaitingPeerStates { mapping, .. }, DeployEvent::PeerStatesRead(states)) => states.len() == mapping.len(),
            (DeployStage::Assigning { .. }, DeployEvent::ClusterAssigned(_)) => true,
            _ => false,
        }
    }
}


fn member_vpn_address(cluster_id: ClusterId, peer_id: PeerId, state: &Result<Option<PeerState>, String>) -> (address: Result<IpAddress, DeployClusterError>)
    ensures
        match vpn_address_of(*state) {
            Some(remote_host) => address == Ok::<IpAddress, DeployClusterError>(remote_host),
            None => address matches Err(DeployClusterError::Internal { cluster_id: id, cause })
                && id == cluster_id && cause@ == peer_state_failure_text(peer_id, *state),
        },
{
    match state {
        Ok(Some(PeerState::Up { remote_host, .. })) => Ok(*remote_host),
        Ok(Some(_)) => Err(DeployClusterError::Internal { cluster_id, cause: peer_not_up(peer_id) }),
        Ok(None) => Err(DeployClusterError::Internal { cluster_id, cause: peer_state_missing(peer_id) }),
        Err(_) => Err(DeployClusterError::Internal { cluster_id, cause: peer_state_unreadable(peer_id) }),
    }
}

fn mapping_ids(mapping: &MemberInterfaceMapping) -> (ids: Vec<PeerId>)
    ensures
        ids@ == mapping_peer_ids(mapping@),
{
    let mut ids: Vec<PeerId> = Vec::new();
    let mut i: usize = 0;
    while i < mapping.len()
        invariant
            0 <= i <= mapping.len(),
            ids@ == mapping_peer_ids(mapping@.take(i as int)),
        decreases mapping.len() - i,
    {
        ids.push(mapping[i].0);
        assert(mapping_peer_ids(mapping@.take(i + 1)) =~= mapping_peer_ids(mapping@.take(i as int)).push(mapping@[i as int].0));
        i = i + 1;
    }
    assert(mapping@.take(mapping@.len() as int) =~= mapping@);
    ids
}

/// Builds what the members are told once their states were read, or fails with
/// the first member that has no VPN address.
fn assign_members(
    options: ClusterManagerOptions,
    cluster_id: ClusterId,
    configuration: ClusterConfiguration,
    mapping: MemberInterfaceMapping,
    first_port: u16,
    states: Vec<Result<Option<PeerState>, String>>,
) -> (outcome: (DeployStage, DeployAction))
    requires
        mapping@.len() >= 1,
        first_port + mapping@.len() <= u16::MAX,
        states@.len() == mapping@.len(),
        mapping_keys_distinct(mapping@),
        options.can_server_port_range_start <= first_port,
        first_port + mapping@.len() < options.can_server_port_range_end,
    ensures
        outcome.0 matches DeployStage::Assigning { assignment, .. } ==> ports_in_range_and_distinct(
            options,
            assignment@.assignments,
        ),
        if exists|i: int| is_first_without_address(states@, i) {
            let i = choose|i: int| is_first_without_address(states@, i);
            &&& outcome.0 is Finished
            &&& fails_internally(outcome.1, cluster_id, peer_state_failure_text(mapping@[i].0, states@[i]))
        } else {
            let expected = cluster_assignment_for(cluster_id, configuration.leader, mapping@, states@, first_port);
            &&& outcome.0 matches DeployStage::Assigning { assignment, next: k }
                && assignment@ == expected && k == 1 && 1 <= assignment.assignments@.len()
            &&& outcome.1 matches DeployAction::AssignCluster { peer_id, cluster_assignment }
                && peer_id == mapping@[0].0 && cluster_assignment@ == expected
        },
{
    let n = mapping.len();
    let mut assignments: Vec<PeerClusterAssignment> = Vec::new();
    let mut i: usize = 0;
    while i < n
        invariant
            0 <= i <= n,
            n == mapping@.len(),
            n == states@.len(),
            first_port + n <= u16::MAX,
            assignments@.len() == i,
            forall|j: int| 0 <= j < i ==> #[trigger] vpn_address_of(states@[j]) is Some,
            forall|j: int| 0 <= j < i ==> (#[trigger] assignments@[j])@ == member_assignment(mapping@, states@, first_port, j),
        decreases n - i,
    {
        let peer_id = mapping[i].0;
        match member_vpn_address(cluster_id, peer_id, &states[i]) {
            Err(error) => {
                proof {
                    assert(is_first_without_address(states@, i as int));
                    let c = choose|c: int| is_first_without_address(states@, c);
                    if c < i {
                        assert(vpn_address_of(states@[c]) is Some);
                    }
                    if i < c {
                        assert(vpn_address_of(states@[i as int]) is Some);
                    }
                }
                return (DeployStage::Finished, DeployAction::Finish(Err(error)));
            },
            Ok(vpn_address) => {
                let device_interfaces = mapping[i].1.clone();
                assert(device_interfaces@ =~= mapping@[i as int].1@);
                let port = first_port + i as u16;
                assignments.push(PeerClusterAssignment {
                    peer_id,
                    vpn_address,
                    can_server_port: Port(port),
                    device_interfaces,
                });
                assert(assignments@[i as int]@ == member_assignment(mapping@, states@, first_port, i as int));
            },
        }
        i = i + 1;
    }
    let ghost expected = cluster_assignment_for(cluster_id, configuration.leader, mapping@, states@, first_port);
    assert forall|c: int| !is_first_without_address(states@, c) by {
        if 0 <= c < n {
            assert(vpn_address_of(states@[c]) is Some);
        }
    }
    let assignment = ClusterAssignment { id: cluster_id, leader: configuration.leader, assignments };
    assert(assignment@.assignments =~= expected.assignments);
    assert(ports_in_range_and_distinct(options, assignment@.assignments)) by {
        let views = assignment@.assignments;
        assert forall|a: int, b: int| 0 <= a < b < views.len() implies (#[trigger] views[a]).can_server_port
            != (#[trigger] views[b]).can_server_port && views[a].peer_id != views[b].peer_id by {
            assert(views[a] == member_assignment(mapping@, states@, first_port, a));
            assert(views[b] == member_assignment(mapping@, states@, first_port, b));
            assert(mapping@[a].0 != mapping@[b].0);
        }
        assert forall|a: int| 0 <= a < views.len() implies options.can_server_port_range_start
            <= (#[trigger] views[a]).can_server_port.0 < options.can_server_port_range_end by {
            assert(views[a] == member_assignment(mapping@, states@, first_port, a));
        }
    }
    let peer_id = assignment.assignments[0].peer_id;
    let cluster_assignment = assignment.clone();
    (DeployStage::Assigning { assignment, next: 1 }, DeployAction::AssignCluster { peer_id, cluster_assignment })
}

impl ClusterManager {
    /// Hands out CAN server ports to the members and asks for their states.
    fn allocate_for_members(
        &mut self,
        cluster_id: ClusterId,
        configuration: ClusterConfiguration,
        mapping: MemberInterfaceMapping,
    ) -> (outcome: (DeployStage, DeployAction))
        requires
            old(self).wf(),
            mapping@.len() >= 1,
            mapping_keys_distinct(mapping@),
        ensures
            outcome.0 matches DeployStage::AwaitingPeerStates { mapping: m, first_port, .. } ==> {
                &&& mapping_keys_distinct(m@)
                &&& old(self).options_spec().can_server_port_range_start <= first_port
                &&& first_port + m@.len() < old(self).options_spec().can_server_port_range_end
            },
            final(self).wf(),
            final(self).vpn_spec() == old(self).vpn_spec(),
            final(self).options_spec() == old(self).options_spec(),
            allocation_step(*old(self), *final(self), cluster_id, configuration, mapping, outcome.0, outcome.1),
            outcome.0 matches DeployStage::AwaitingPeerStates { mapping: m, first_port, .. }
                ==> first_port + m@.len() <= u16::MAX && m@.len() >= 1,
    {
        match self.allocate_can_server_ports(cluster_id, mapping.len()) {
            Err(error) => (DeployStage::Finished, DeployAction::Finish(Err(error))),
            Ok(first_port) => {
                let peer_ids = mapping_ids(&mapping);
                (
                    DeployStage::AwaitingPeerStates { configuration, mapping, first_port },
                    DeployAction::ReadPeerStates { peer_ids },
                )
            },
        }
    }

    /// One step of deploying the cluster of `run`: takes what the outside world
    /// reported in `event`, decides, and says what to do next. A deployment reads
    /// the cluster configuration, lists the peers, determines the members and
    /// their interfaces, creates the cluster in the VPN service if that is
    /// enabled, hands out consecutive CAN server ports, reads the members' states
    /// for their VPN addresses and assigns the cluster to each member in turn; it
    /// ends at the first failure.
    pub fn deploy(&mut self, run: &mut DeployRun, event: DeployEvent) -> (action: DeployAction)
        requires
            old(self).wf(),
            old(run).wf(),
            old(run).fits(old(self).options_spec()),
            old(run).accepts_spec(&event),
        ensures
            final(self).wf(),
            final(run).wf(),
            final(run).fits(final(self).options_spec()),
            action matches DeployAction::AssignCluster { cluster_assignment, .. } ==> ports_in_range_and_distinct(
                final(self).options_spec(),
                cluster_assignment@.assignments,
            ),
            deploy_step(*old(self), *old(run), event, *final(self), *final(run), action),
    {
        let ghost event_value = event;
        let mut stage = DeployStage::Finished;
        core::mem::swap(&mut stage, &mut run.stage);
        let cluster_id = run.cluster_id;
        let (next_stage, action) = match stage {
            DeployStage::NotStarted => (
                DeployStage::AwaitingConfiguration,
                DeployAction::ReadClusterConfiguration { cluster_id },
            ),
            DeployStage::AwaitingConfiguration => match event {
                DeployEvent::ClusterConfigurationRead(read) => match read {
                    Err(cause) => (
                        DeployStage::Finished,
                        DeployAction::Finish(Err(DeployClusterError::Internal { cluster_id, cause })),
                    ),
                    Ok(None) => (
                        DeployStage::Finished,
                        DeployAction::Finish(Err(DeployClusterError::ClusterConfigurationNotFound(cluster_id))),
                    ),
                    Ok(Some(configuration)) => (
                        DeployStage::AwaitingPeers { configuration },
                        DeployAction::ListPeerDescriptors,
                    ),
                },
                // An event that does not answer the stage is excluded by `accepts_spec`.
                _ => (DeployStage::Finished, DeployAction::ListPeerDescriptors),
            },
            DeployStage::AwaitingPeers { configuration } => match event {
                DeployEvent::PeerDescriptorsListed(listed) => match listed {
                    Err(cause) => (
                        DeployStage::Finished,
                        DeployAction::Finish(Err(DeployClusterError::Internal { cluster_id, cause })),
                    ),
                    Ok(peers) => match determine_member_interface_mapping(&configuration.devices, &peers, configuration.leader) {
                        Err(DetermineMemberInterfaceMappingError::PeerForDeviceNotFound { device_id }) => (
                            DeployStage::Finished,
                            DeployAction::Finish(Err(DeployClusterError::PeerForDeviceNotFound {
                                device_id,
                                cluster_id,
                                cluster_name: configuration.name,
                            })),
                        ),
                        Ok(mapping) => {
                            match self.vpn() {
                                Vpn::Enabled => {
                                    let member_ids = mapping_ids(&mapping);
                                    (
                                        DeployStage::AwaitingVpn { configuration, mapping },
                                        DeployAction::CreateVpnCluster { cluster_id, member_ids },
                                    )
                                },
                                Vpn::Disabled => {
                                    let ghost m = mapping;
                                    let ghost c = configuration;
                                    let ghost before = *self;
                                    let outcome = self.allocate_for_members(cluster_id, configuration, mapping);
                                    assert(allocation_step(before, *self, cluster_id, c, m, outcome.0, outcome.1));
                                    outcome
                                },
                            }
                        },
                    },
                },
                // An event that does not answer the stage is excluded by `accepts_spec`.
                _ => (DeployStage::Finished, DeployAction::ListPeerDescriptors),
            },
            DeployStage::AwaitingVpn { configuration, mapping } => match event {
                DeployEvent::VpnClusterCreated(created) => match created {
                    Err(_) => (
                        DeployStage::Finished,
                        DeployAction::Finish(Err(DeployClusterError::Internal {
                            cluster_id,
                            cause: vpn_cluster_creation_failure(cluster_id),
                        })),
                    ),
                    Ok(()) => self.allocate_for_members(cluster_id, configuration, mapping),
                },
                // An event that does not answer the stage is excluded by `accepts_spec`.
                _ => (DeployStage::Finished, DeployAction::ListPeerDescriptors),
            },
            DeployStage::AwaitingPeerStates { configuration, mapping, first_port } => match event {
                DeployEvent::PeerStatesRead(states) => assign_members(self.options(), cluster_id, configuration, mapping, first_port, states),
                // An event that does not answer the stage is excluded by `accepts_spec`.
                _ => (DeployStage::Finished, DeployAction::ListPeerDescriptors),
            },
            DeployStage::Assigning { assignment, next } => match event {
                DeployEvent::ClusterAssigned(assigned) => match assigned {
                    Err(_) => {
                        let peer_id = assignment.assignments[next - 1].peer_id;
                        (
                            DeployStage::Finished,
                            DeployAction::Finish(Err(DeployClusterError::Internal {
                                cluster_id,
                                cause: cluster_assignment_failure(cluster_id, peer_id),
                            })),
                        )
                    },
                    Ok(()) => if next < assignment.assignments.len() {
                        let peer_id = assignment.assignments[next].peer_id;
                        let cluster_assignment = assignment.clone();
                        (
                            DeployStage::Assigning { assignment, next: next + 1 },
                            DeployAction::AssignCluster { peer_id, cluster_assignment },
                        )
                    } else {
                        (DeployStage::Finished, DeployAction::Finish(Ok(())))
                    },
                },
                // An event that does not answer the stage is excluded by `accepts_spec`.
                _ => (DeployStage::Finished, DeployAction::ListPeerDescriptors),
            },
            DeployStage::Finished => (DeployStage::Finished, DeployAction::ListPeerDescriptors),
        };
        run.stage = next_stage;
        action
    }
}
} // verus!
