#![allow(non_snake_case)]

use opendut_cluster::network::IpAddress;
use opendut_cluster::peer_state::{PeerBlockedState, PeerState, PeerUpState};
use opendut_cluster::short_name::ShortName;

#[test]
fn PeerState_short_name_Available() {
    assert_eq!(
        PeerState::Up { inner: PeerUpState::Available, remote_host: IpAddress::V4(1, 1, 1, 1) }.short_name(),
        "Available"
    );
}

#[test]
fn PeerState_short_name_Deploying() {
    assert_eq!(
        PeerState::Up {
            inner: PeerUpState::Blocked(PeerBlockedState::Deploying),
            remote_host: IpAddress::V4(1, 1, 1, 1)
        }
        .short_name(),
        "Deploying"
    );
}

#[test]
fn PeerState_short_name_Member() {
    assert_eq!(
        PeerState::Up {
            inner: PeerUpState::Blocked(PeerBlockedState::Member),
            remote_host: IpAddress::V4(1, 1, 1, 1)
        }
        .short_name(),
        "Member"
    );
}

#[test]
fn PeerState_short_name_Undeploying() {
    assert_eq!(
        PeerState::Up {
            inner: PeerUpState::Blocked(PeerBlockedState::Undeploying),
            remote_host: IpAddress::V4(1, 1, 1, 1)
        }
        .short_name(),
        "Undeploying"
    );
}

#[test]
fn PeerState_short_name_Down() {
    assert_eq!(PeerState::Down.short_name(), "Down");
}

#[test]
fn peer_state_defaults_to_down() {
    let default_state = PeerState::default();
    assert_eq!(default_state, PeerState::Down);
}

#[test]
fn short_name_of_a_peer_ignores_its_remote_host() {
    let state = PeerState::Up { inner: PeerUpState::Available, remote_host: IpAddress::V6(1) };
    assert_eq!(state.short_name(), "Available");
}
