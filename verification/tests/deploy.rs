use opendut_cluster::cluster::{ClusterAssignment, ClusterConfiguration, PeerClusterAssignment};
use opendut_cluster::deploy::{DeployAction, DeployEvent, DeployRun};
use opendut_cluster::ids::{ClusterId, ClusterName, DeviceId, NetworkInterfaceId, NetworkInterfaceName, PeerId, Port};
use opendut_cluster::manager::{ClusterManager, ClusterManagerOptions, DeployClusterError, Vpn};
use opendut_cluster::network::{
    DeviceDescriptor, IpAddress, NetworkInterfaceConfiguration, NetworkInterfaceDescriptor, PeerNetworkDescriptor,
};
use opendut_cluster::peer::{PeerDescriptor, Topology};
use opendut_cluster::peer_state::{PeerBlockedState, PeerState, PeerUpState};

const CLUSTER: u128 = 0x67e5504410b1426f9247bb680e5fe0c8;
const CLUSTER_TEXT: &str = "67e55044-10b1-426f-9247-bb680e5fe0c8";
const PEER_A: u128 = 0x1;
const PEER_B: u128 = 0x2;

fn options() -> ClusterManagerOptions {
    ClusterManagerOptions { can_server_port_range_start: 10000, can_server_port_range_end: 10100 }
}

struct PeerFixture {
    id: PeerId,
    device: DeviceId,
    interfaces: Vec<NetworkInterfaceDescriptor>,
    remote_host: IpAddress,
    descriptor: PeerDescriptor,
}

fn peer_fixture(id: u128) -> PeerFixture {
    let device = DeviceId(id + 100);
    let interface_id = NetworkInterfaceId(id + 200);
    let interfaces = vec![NetworkInterfaceDescriptor {
        id: interface_id,
        name: NetworkInterfaceName("eth0".to_string()),
        configuration: NetworkInterfaceConfiguration::Ethernet,
    }];
    let descriptor = PeerDescriptor {
        id: PeerId(id),
        network: PeerNetworkDescriptor { interfaces: interfaces.clone() },
        topology: Topology { devices: vec![DeviceDescriptor { id: device, interface: interface_id }] },
    };
    PeerFixture { id: PeerId(id), device, interfaces, remote_host: IpAddress::V4(1, 1, 1, 1), descriptor }
}

fn configuration(leader: PeerId, devices: Vec<DeviceId>) -> ClusterConfiguration {
    ClusterConfiguration {
        id: ClusterId(CLUSTER),
        name: ClusterName("MyAwesomeCluster".to_string()),
        leader,
        devices,
    }
}

fn up(remote_host: IpAddress) -> Result<Option<PeerState>, String> {
    Ok(Some(PeerState::Up { inner: PeerUpState::Available, remote_host }))
}

fn step(manager: &mut ClusterManager, run: &mut DeployRun, event: DeployEvent) -> DeployAction {
    assert!(run.accepts(&event));
    manager.deploy(run, event)
}

/// Drives a deployment up to the point where it reads the peer states; returns the peer ids asked for.
fn until_peer_states(manager: &mut ClusterManager, run: &mut DeployRun, configuration: ClusterConfiguration, peers: Vec<PeerDescriptor>) -> Vec<PeerId> {
    let cluster_id = configuration.id;
    assert_eq!(step(manager, run, DeployEvent::Start), DeployAction::ReadClusterConfiguration { cluster_id });
    assert_eq!(
        step(manager, run, DeployEvent::ClusterConfigurationRead(Ok(Some(configuration)))),
        DeployAction::ListPeerDescriptors
    );
    match step(manager, run, DeployEvent::PeerDescriptorsListed(Ok(peers))) {
        DeployAction::ReadPeerStates { peer_ids } => peer_ids,
        other => panic!("expected the peer states to be read, got {other:?}"),
    }
}

fn finish_error(action: DeployAction) -> DeployClusterError {
    match action {
        DeployAction::Finish(Err(error)) => error,
        other => panic!("expected the deployment to fail, got {other:?}"),
    }
}

fn internal_cause(action: DeployAction) -> String {
    match finish_error(action) {
        DeployClusterError::Internal { cluster_id, cause } => {
            assert_eq!(cluster_id, ClusterId(CLUSTER));
            cause
        }
        other => panic!("expected an internal error, got {other:?}"),
    }
}

#[test]
fn deploy_cluster() {
    let peer_a = peer_fixture(PEER_A);
    let peer_b = peer_fixture(PEER_B);
    let leader_id = peer_a.id;
    let cluster_id = ClusterId(CLUSTER);
    let options = options();
    let mut manager = ClusterManager::new(Vpn::Disabled, options);
    let mut run = DeployRun::new(cluster_id);

    let peer_ids = until_peer_states(
        &mut manager,
        &mut run,
        configuration(leader_id, vec![peer_a.device, peer_b.device]),
        vec![peer_a.descriptor.clone(), peer_b.descriptor.clone()],
    );
    let states = peer_ids.iter().map(|_| up(IpAddress::V4(1, 1, 1, 1))).collect();

    let mut assigned: Vec<(PeerId, ClusterAssignment)> = Vec::new();
    let mut action = step(&mut manager, &mut run, DeployEvent::PeerStatesRead(states));
    while let DeployAction::AssignCluster { peer_id, cluster_assignment } = action {
        assigned.push((peer_id, cluster_assignment));
        action = step(&mut manager, &mut run, DeployEvent::ClusterAssigned(Ok(())));
    }
    assert_eq!(action, DeployAction::Finish(Ok(())));
    assert!(run.is_finished());

    let mut assigned_peers: Vec<PeerId> = assigned.iter().map(|(peer_id, _)| *peer_id).collect();
    assigned_peers.sort_by_key(|peer_id| peer_id.0);
    assert_eq!(assigned_peers, vec![peer_a.id, peer_b.id]);

    let start = options.can_server_port_range_start;
    let expected = |port_a: u16, port_b: u16| {
        vec![
            PeerClusterAssignment {
                peer_id: peer_a.id,
                vpn_address: peer_a.remote_host,
                can_server_port: Port(port_a),
                device_interfaces: peer_a.interfaces.clone(),
            },
            PeerClusterAssignment {
                peer_id: peer_b.id,
                vpn_address: peer_b.remote_host,
                can_server_port: Port(port_b),
                device_interfaces: peer_b.interfaces.clone(),
            },
        ]
    };
    for (_, cluster_assignment) in &assigned {
        assert_eq!(cluster_assignment.id, cluster_id);
        assert_eq!(cluster_assignment.leader, leader_id);
        let mut assignments: Vec<&PeerClusterAssignment> = cluster_assignment.assignments.iter().collect();
        assignments.sort_by_key(|a| a.peer_id.0);
        let assignments: Vec<PeerClusterAssignment> = assignments
            .into_iter()
            .map(|a| PeerClusterAssignment {
                peer_id: a.peer_id,
                vpn_address: a.vpn_address,
                can_server_port: a.can_server_port,
                device_interfaces: a.device_interfaces.clone(),
            })
            .collect();
        assert!(assignments == expected(start + 1, start) || assignments == expected(start, start + 1));
    }
    assert_eq!(manager.can_server_port_counter(), start + 2);
}

#[test]
fn deploy_should_fail_for_unknown_cluster() {
    let unknown_cluster = ClusterId(0xdead);
    let mut manager = ClusterManager::new(Vpn::Disabled, options());
    let mut run = DeployRun::new(unknown_cluster);

    assert_eq!(
        step(&mut manager, &mut run, DeployEvent::Start),
        DeployAction::ReadClusterConfiguration { cluster_id: unknown_cluster }
    );
    assert_eq!(
        step(&mut manager, &mut run, DeployEvent::ClusterConfigurationRead(Ok(None))),
        DeployAction::Finish(Err(DeployClusterError::ClusterConfigurationNotFound(unknown_cluster)))
    );
    assert!(run.is_finished());
}

#[test]
fn deploy_fails_when_the_configuration_cannot_be_read() {
    let mut manager = ClusterManager::new(Vpn::Disabled, options());
    let mut run = DeployRun::new(ClusterId(CLUSTER));
    step(&mut manager, &mut run, DeployEvent::Start);
    let action = step(&mut manager, &mut run, DeployEvent::ClusterConfigurationRead(Err("disk on fire".to_string())));
    assert_eq!(internal_cause(action), "disk on fire");
}

#[test]
fn deploy_fails_when_peers_cannot_be_listed() {
    let mut manager = ClusterManager::new(Vpn::Disabled, options());
    let mut run = DeployRun::new(ClusterId(CLUSTER));
    step(&mut manager, &mut run, DeployEvent::Start);
    step(&mut manager, &mut run, DeployEvent::ClusterConfigurationRead(Ok(Some(configuration(PeerId(PEER_A), vec![])))));
    let action = step(&mut manager, &mut run, DeployEvent::PeerDescriptorsListed(Err("no peers today".to_string())));
    assert_eq!(internal_cause(action), "no peers today");
}

#[test]
fn deploy_fails_for_a_device_without_peer() {
    let peer_a = peer_fixture(PEER_A);
    let mut manager = ClusterManager::new(Vpn::Disabled, options());
    let mut run = DeployRun::new(ClusterId(CLUSTER));
    step(&mut manager, &mut run, DeployEvent::Start);
    step(
        &mut manager,
        &mut run,
        DeployEvent::ClusterConfigurationRead(Ok(Some(configuration(peer_a.id, vec![peer_a.device, DeviceId(4711)])))),
    );
    let action = step(&mut manager, &mut run, DeployEvent::PeerDescriptorsListed(Ok(vec![peer_a.descriptor])));
    assert_eq!(
        finish_error(action),
        DeployClusterError::PeerForDeviceNotFound {
            device_id: DeviceId(4711),
            cluster_id: ClusterId(CLUSTER),
            cluster_name: ClusterName("MyAwesomeCluster".to_string()),
        }
    );
    assert_eq!(manager.can_server_port_counter(), 10000);
}

#[test]
fn deploy_with_vpn_creates_the_cluster_in_the_vpn_first() {
    let peer_a = peer_fixture(PEER_A);
    let mut manager = ClusterManager::new(Vpn::Enabled, options());
    let mut run = DeployRun::new(ClusterId(CLUSTER));
    step(&mut manager, &mut run, DeployEvent::Start);
    step(&mut manager, &mut run, DeployEvent::ClusterConfigurationRead(Ok(Some(configuration(peer_a.id, vec![peer_a.device])))));
    let action = step(&mut manager, &mut run, DeployEvent::PeerDescriptorsListed(Ok(vec![peer_a.descriptor])));
    assert_eq!(
        action,
        DeployAction::CreateVpnCluster { cluster_id: ClusterId(CLUSTER), member_ids: vec![peer_a.id] }
    );
    assert_eq!(manager.can_server_port_counter(), 10000);
    let action = step(&mut manager, &mut run, DeployEvent::VpnClusterCreated(Ok(())));
    assert_eq!(action, DeployAction::ReadPeerStates { peer_ids: vec![peer_a.id] });
    assert_eq!(manager.can_server_port_counter(), 10001);
}

#[test]
fn deploy_fails_when_the_vpn_refuses_the_cluster() {
    let peer_a = peer_fixture(PEER_A);
    let mut manager = ClusterManager::new(Vpn::Enabled, options());
    let mut run = DeployRun::new(ClusterId(CLUSTER));
    step(&mut manager, &mut run, DeployEvent::Start);
    step(&mut manager, &mut run, DeployEvent::ClusterConfigurationRead(Ok(Some(configuration(peer_a.id, vec![peer_a.device])))));
    step(&mut manager, &mut run, DeployEvent::PeerDescriptorsListed(Ok(vec![peer_a.descriptor])));
    let action = step(&mut manager, &mut run, DeployEvent::VpnClusterCreated(Err("vpn down".to_string())));
    assert_eq!(
        internal_cause(action),
        format!("Failure while creating cluster <{CLUSTER_TEXT}> in VPN service.")
    );
    assert_eq!(manager.can_server_port_counter(), 10000);
}

#[test]
fn deploy_fails_when_the_port_range_is_too_narrow() {
    let peer_a = peer_fixture(PEER_A);
    let peer_b = peer_fixture(PEER_B);
    let narrow = ClusterManagerOptions { can_server_port_range_start: 100, can_server_port_range_end: 102 };
    let mut manager = ClusterManager::new(Vpn::Disabled, narrow);
    let mut run = DeployRun::new(ClusterId(CLUSTER));
    step(&mut manager, &mut run, DeployEvent::Start);
    step(
        &mut manager,
        &mut run,
        DeployEvent::ClusterConfigurationRead(Ok(Some(configuration(peer_a.id, vec![peer_a.device, peer_b.device])))),
    );
    let action = step(&mut manager, &mut run, DeployEvent::PeerDescriptorsListed(Ok(vec![peer_a.descriptor, peer_b.descriptor])));
    assert_eq!(
        internal_cause(action),
        format!(
            "Failure while creating cluster <{CLUSTER_TEXT}>. Port range [100, 102) specified by 'can_server_port_range_start' \n                and 'can_server_port_range_start' is too narrow for the configured number of peers (2)"
        )
    );
    assert_eq!(manager.can_server_port_counter(), 100);
}

#[test]
fn ports_continue_after_the_previous_deployment_and_wrap_at_the_end() {
    let peer_a = peer_fixture(PEER_A);
    let peer_b = peer_fixture(PEER_B);
    let small = ClusterManagerOptions { can_server_port_range_start: 100, can_server_port_range_end: 105 };
    let mut manager = ClusterManager::new(Vpn::Disabled, small);
    let devices = vec![peer_a.device, peer_b.device];
    let peers = vec![peer_a.descriptor.clone(), peer_b.descriptor.clone()];

    let mut first = DeployRun::new(ClusterId(CLUSTER));
    until_peer_states(&mut manager, &mut first, configuration(peer_a.id, devices.clone()), peers.clone());
    assert_eq!(manager.can_server_port_counter(), 102);

    let mut second = DeployRun::new(ClusterId(CLUSTER));
    until_peer_states(&mut manager, &mut second, configuration(peer_a.id, devices.clone()), peers.clone());
    assert_eq!(manager.can_server_port_counter(), 104);

    let mut third = DeployRun::new(ClusterId(CLUSTER));
    let peer_ids = until_peer_states(&mut manager, &mut third, configuration(peer_a.id, devices), peers);
    assert_eq!(manager.can_server_port_counter(), 102);
    let states = peer_ids.iter().map(|_| up(IpAddress::V4(10, 0, 0, 1))).collect();
    match step(&mut manager, &mut third, DeployEvent::PeerStatesRead(states)) {
        DeployAction::AssignCluster { cluster_assignment, .. } => {
            let ports: Vec<u16> = cluster_assignment.assignments.iter().map(|a| a.can_server_port.0).collect();
            assert_eq!(ports, vec![100, 101]);
        }
        other => panic!("expected an assignment, got {other:?}"),
    }
}

fn deploy_until_states_with(state_of_b: Result<Option<PeerState>, String>) -> DeployAction {
    let peer_a = peer_fixture(PEER_A);
    let peer_b = peer_fixture(PEER_B);
    let mut manager = ClusterManager::new(Vpn::Disabled, options());
    let mut run = DeployRun::new(ClusterId(CLUSTER));
    let peer_ids = until_peer_states(
        &mut manager,
        &mut run,
        configuration(peer_a.id, vec![peer_a.device, peer_b.device]),
        vec![peer_a.descriptor, peer_b.descriptor],
    );
    assert_eq!(peer_ids, vec![PeerId(PEER_A), PeerId(PEER_B)]);
    let mut state_of_b = Some(state_of_b);
    let states = peer_ids
        .iter()
        .map(|peer_id| if *peer_id == PeerId(PEER_B) { state_of_b.take().unwrap() } else { up(IpAddress::V4(1, 1, 1, 1)) })
        .collect();
    step(&mut manager, &mut run, DeployEvent::PeerStatesRead(states))
}

#[test]
fn deploy_fails_for_a_member_that_is_down() {
    let action = deploy_until_states_with(Ok(Some(PeerState::Down)));
    assert_eq!(
        internal_cause(action),
        "Peer <00000000-0000-0000-0000-000000000002> which is used in a cluster, should have a PeerState of 'Up'."
    );
}

#[test]
fn deploy_fails_for_a_member_without_state() {
    let action = deploy_until_states_with(Ok(None));
    assert_eq!(
        internal_cause(action),
        "Peer <00000000-0000-0000-0000-000000000002> which is used in a cluster, should have a PeerState associated."
    );
}

#[test]
fn deploy_fails_when_a_member_state_cannot_be_read() {
    let action = deploy_until_states_with(Err("broken".to_string()));
    assert_eq!(
        internal_cause(action),
        "Error while accessing persistence to read PeerState of peer <00000000-0000-0000-0000-000000000002>"
    );
}

#[test]
fn a_blocked_member_still_gets_its_vpn_address() {
    let action = deploy_until_states_with(Ok(Some(PeerState::Up {
        inner: PeerUpState::Blocked(PeerBlockedState::Member),
        remote_host: IpAddress::V6(42),
    })));
    match action {
        DeployAction::AssignCluster { peer_id, cluster_assignment } => {
            assert_eq!(peer_id, PeerId(PEER_A));
            assert_eq!(cluster_assignment.assignments[1].vpn_address, IpAddress::V6(42));
            assert_eq!(cluster_assignment.assignments[1].can_server_port, Port(10001));
        }
        other => panic!("expected an assignment, got {other:?}"),
    }
}

#[test]
fn deploy_stops_at_the_first_failed_assignment() {
    let peer_a = peer_fixture(PEER_A);
    let peer_b = peer_fixture(PEER_B);
    let mut manager = ClusterManager::new(Vpn::Disabled, options());
    let mut run = DeployRun::new(ClusterId(CLUSTER));
    let peer_ids = until_peer_states(
        &mut manager,
        &mut run,
        configuration(peer_a.id, vec![peer_a.device, peer_b.device]),
        vec![peer_a.descriptor, peer_b.descriptor],
    );
    let states = peer_ids.iter().map(|_| up(IpAddress::V4(1, 1, 1, 1))).collect();
    match step(&mut manager, &mut run, DeployEvent::PeerStatesRead(states)) {
        DeployAction::AssignCluster { peer_id, .. } => assert_eq!(peer_id, PeerId(PEER_A)),
        other => panic!("expected an assignment, got {other:?}"),
    }
    match step(&mut manager, &mut run, DeployEvent::ClusterAssigned(Ok(()))) {
        DeployAction::AssignCluster { peer_id, .. } => assert_eq!(peer_id, PeerId(PEER_B)),
        other => panic!("expected an assignment, got {other:?}"),
    }
    let action = step(&mut manager, &mut run, DeployEvent::ClusterAssigned(Err("unreachable peer".to_string())));
    assert_eq!(
        internal_cause(action),
        format!("Failure while assigning cluster <{CLUSTER_TEXT}> to peer <00000000-0000-0000-0000-000000000002>.")
    );
}

#[test]
fn deploy_refuses_events_out_of_order() {
    let run = DeployRun::new(ClusterId(CLUSTER));
    assert!(!run.accepts(&DeployEvent::ClusterAssigned(Ok(()))));
    assert!(run.accepts(&DeployEvent::Start));
}
