use vstd::prelude::*;

use crate::network::IpAddress;
use crate::short_name::ShortName;

verus! {

/// Whether a peer is connected, and if so, from where and what it is doing.
#[derive(Clone, Copy, Debug, PartialEq, Eq, Structural)]
pub enum PeerState {
    Down,
    Up { inner: PeerUpState, remote_host: IpAddress },
}

/// What a connected peer is doing.
#[derive(Clone, Copy, Debug, PartialEq, Eq, Structural)]
pub enum PeerUpState {
    Available,
    Blocked(PeerBlockedState),
}

/// Why a connected peer is not available.
#[derive(Clone, Copy, Debug, PartialEq, Eq, Structural)]
pub enum PeerBlockedState {
    Deploying,
    Member,
    Undeploying,
}

impl Default for PeerState {
    /// A peer is `Down` unless it is known to be up.
    fn default() -> (state: Self)
        ensures
            state == PeerState::Down,
    {
        PeerState::Down
    }
}

impl ShortName for PeerState {
    open spec fn short_name_spec(&self) -> Seq<char> {
        match self {
            PeerState::Down => "Down"@,
            PeerState::Up { inner: PeerUpState::Available, .. } => "Available"@,
            PeerState::Up { inner: PeerUpState::Blocked(PeerBlockedState::Deploying), .. } => "Deploying"@,
            PeerState::Up { inner: PeerUpState::Blocked(PeerBlockedState::Member), .. } => "Member"@,
            PeerState::Up { inner: PeerUpState::Blocked(PeerBlockedState::Undeploying), .. } => "Undeploying"@,
        }
    }

    fn short_name(&self) -> (name: &'static str) {
        match self {
            PeerState::Up { inner, .. } => match inner {
                PeerUpState::Available => "Available",
                PeerUpState::Blocked(PeerBlockedState::Deploying) => "Deploying",
                PeerUpState::Blocked(PeerBlockedState::Member) => "Member",
                PeerUpState::Blocked(PeerBlockedState::Undeploying) => "Undeploying",
            },
            PeerState::Down => "Down",
        }
    }
}

} // verus!
