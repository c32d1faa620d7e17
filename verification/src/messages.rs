use vstd::prelude::*;
use vstd::string::StringExecFns;

use core::num::TryFromIntError;

use crate::ids::{ClusterId, ClusterName, PeerId};

verus! {

/// The lower-case hexadecimal digit of a nibble (0 to 15).
pub open spec fn hex_digit(nibble: int) -> char {
    if nibble < 10 {
        (48 + nibble) as char
    } else {
        (87 + nibble) as char
    }
}

/// The last `count` hexadecimal digits of `value`, most significant first.
pub open spec fn hex_digits(value: int, count: nat) -> Seq<char>
    decreases count,
{
    if count == 0 {
        Seq::empty()
    } else {
        hex_digits(value / 16, (count - 1) as nat).push(hex_digit(value % 16))
    }
}

/// The text of the UUID with the given 128 bits (its bytes in big-endian
/// order), in the hyphenated lower-case form that the `uuid` crate displays:
/// 32 hexadecimal digits with hyphens after the 8th, 12th, 16th and 20th.
pub open spec fn uuid_hyphenated(value: u128) -> Seq<char> {
    let digits = hex_digits(value as int, 32);
    digits.subrange(0, 8) + "-"@ + digits.subrange(8, 12) + "-"@ + digits.subrange(12, 16) + "-"@
        + digits.subrange(16, 20) + "-"@ + digits.subrange(20, 32)
}

/// The decimal digits of `value`, most significant first, without leading zeros.
pub open spec fn decimal_digits(value: nat) -> Seq<char>
    decreases value,
{
    if value < 10 {
        seq![(48 + value) as char]
    } else {
        decimal_digits(value / 10).push((48 + value % 10) as char)
    }
}

/// The decimal text of a `u16`, as std displays it.
pub open spec fn decimal_u16(value: u16) -> Seq<char> {
    decimal_digits(value as nat)
}

/// Calls `uuid::Uuid::from_u128(value).to_string()`: the UUID's hyphenated,
/// lower-case text, `uuid_hyphenated(value)`.
#[verifier::external_body]
fn uuid_text(value: u128) -> (text: String)
    ensures
        text@ == uuid_hyphenated(value),
{
    uuid::Uuid::from_u128(value).to_string()
}

/// Calls `<u16 as ToString>::to_string`: the decimal text of `value`,
/// `decimal_u16(value)`.
#[verifier::external_body]
fn decimal_text(value: u16) -> (text: String)
    ensures
        text@ == decimal_u16(value),
{
    value.to_string()
}

/// Calls `<TryFromIntError as ToString>::to_string`. Nothing is claimed of the
/// text.
#[verifier::external_body]
pub(crate) fn try_from_int_error_text(error: &TryFromIntError) -> String {
    error.to_string()
}

/// How a cluster id is displayed.
pub open spec fn cluster_id_text(id: ClusterId) -> Seq<char> {
    uuid_hyphenated(id.0)
}

/// How a peer id is displayed.
pub open spec fn peer_id_text(id: PeerId) -> Seq<char> {
    uuid_hyphenated(id.0)
}

pub open spec fn vpn_cluster_creation_failure_text(cluster_id: ClusterId) -> Seq<char> {
    "Failure while creating cluster <"@ + cluster_id_text(cluster_id) + "> in VPN service."@
}

pub open spec fn port_range_too_narrow_text(
    cluster_id: ClusterId,
    start: u16,
    end: u16,
    n_peers: u16,
) -> Seq<char> {
    "Failure while creating cluster <"@ + cluster_id_text(cluster_id) + ">. Port range ["@
        + decimal_u16(start) + ", "@ + decimal_u16(end)
        + ") specified by 'can_server_port_range_start' \n                and 'can_server_port_range_start' is too narrow for the configured number of peers ("@
        + decimal_u16(n_peers) + ")"@
}

pub open spec fn peer_not_up_text(peer_id: PeerId) -> Seq<char> {
    "Peer <"@ + peer_id_text(peer_id)
        + "> which is used in a cluster, should have a PeerState of 'Up'."@
}

pub open spec fn peer_state_missing_text(peer_id: PeerId) -> Seq<char> {
    "Peer <"@ + peer_id_text(peer_id) + "> which is used in a cluster, should have a PeerState associated."@
}

pub open spec fn peer_state_unreadable_text(peer_id: PeerId) -> Seq<char> {
    "Error while accessing persistence to read PeerState of peer <"@ + peer_id_text(peer_id)
        + ">"@
}

pub open spec fn cluster_assignment_failure_text(cluster_id: ClusterId, peer_id: PeerId) -> Seq<
    char,
> {
    "Failure while assigning cluster <"@ + cluster_id_text(cluster_id) + "> to peer <"@
        + peer_id_text(peer_id) + ">."@
}

pub open spec fn deployments_unlisted_text() -> Seq<char> {
    "Failed to get list of cluster deployments!"@
}

pub open spec fn cluster_still_deployed_text(cluster_id: ClusterId) -> Seq<char> {
    "Cluster <"@ + cluster_id_text(cluster_id) + "> can not be deleted while being deployed."@
}

pub open spec fn configuration_not_deleted_text(cluster_id: ClusterId, cause: Seq<char>) -> Seq<
    char,
> {
    "Failed to delete ClusterConfiguration with id <"@ + cluster_id_text(cluster_id) + ">.\n  "@
        + cause
}

pub open spec fn configuration_deleted_text(name: ClusterName, cluster_id: ClusterId) -> Seq<char> {
    "Deleted ClusterConfiguration "@ + name.text() + " <"@ + cluster_id_text(cluster_id)
        + "> successfully."@
}

pub(crate) fn vpn_cluster_creation_failure(cluster_id: ClusterId) -> (text: String)
    ensures
        text@ == vpn_cluster_creation_failure_text(cluster_id),
{
    let mut text = String::from_str("Failure while creating cluster <");
    text.append(uuid_text(cluster_id.0).as_str());
    text.append("> in VPN service.");
    text
}

pub(crate) fn port_range_too_narrow(cluster_id: ClusterId, start: u16, end: u16, n_peers: u16) -> (text: String)
    ensures
        text@ == port_range_too_narrow_text(cluster_id, start, end, n_peers),
{
    let mut text = String::from_str("Failure while creating cluster <");
    text.append(uuid_text(cluster_id.0).as_str());
    text.append(">. Port range [");
    text.append(decimal_text(start).as_str());
    text.append(", ");
    text.append(decimal_text(end).as_str());
    text.append(
        ") specified by 'can_server_port_range_start' \n                and 'can_server_port_range_start' is too narrow for the configured number of peers (",
    );
    text.append(decimal_text(n_peers).as_str());
    text.append(")");
    text
}

pub(crate) fn peer_not_up(peer_id: PeerId) -> (text: String)
    ensures
        text@ == peer_not_up_text(peer_id),
{
    let mut text = String::from_str("Peer <");
    text.append(uuid_text(peer_id.0).as_str());
    text.append("> which is used in a cluster, should have a PeerState of 'Up'.");
    text
}

pub(crate) fn peer_state_missing(peer_id: PeerId) -> (text: String)
    ensures
        text@ == peer_state_missing_text(peer_id),
{
    let mut text = String::from_str("Peer <");
    text.append(uuid_text(peer_id.0).as_str());
    text.append("> which is used in a cluster, should have a PeerState associated.");
    text
}

pub(crate) fn peer_state_unreadable(peer_id: PeerId) -> (text: String)
    ensures
        text@ == peer_state_unreadable_text(peer_id),
{
    let mut text = String::from_str("Error while accessing persistence to read PeerState of peer <");
    text.append(uuid_text(peer_id.0).as_str());
    text.append(">");
    text
}

pub(crate) fn cluster_assignment_failure(cluster_id: ClusterId, peer_id: PeerId) -> (text: String)
    ensures
        text@ == cluster_assignment_failure_text(cluster_id, peer_id),
{
    let mut text = String::from_str("Failure while assigning cluster <");
    text.append(uuid_text(cluster_id.0).as_str());
    text.append("> to peer <");
    text.append(uuid_text(peer_id.0).as_str());
    text.append(">.");
    text
}

pub(crate) fn deployments_unlisted() -> (text: String)
    ensures
        text@ == deployments_unlisted_text(),
{
    String::from_str("Failed to get list of cluster deployments!")
}

pub(crate) fn cluster_still_deployed(cluster_id: ClusterId) -> (text: String)
    ensures
        text@ == cluster_still_deployed_text(cluster_id),
{
    let mut text = String::from_str("Cluster <");
    text.append(uuid_text(cluster_id.0).as_str());
    text.append("> can not be deleted while being deployed.");
    text
}

pub(crate) fn configuration_not_deleted(cluster_id: ClusterId, cause: &String) -> (text: String)
    ensures
        text@ == configuration_not_deleted_text(cluster_id, cause@),
{
    let mut text = String::from_str("Failed to delete ClusterConfiguration with id <");
    text.append(uuid_text(cluster_id.0).as_str());
    text.append(">.\n  ");
    text.append(cause.as_str());
    text
}

pub(crate) fn configuration_deleted(name: &ClusterName, cluster_id: ClusterId) -> (text: String)
    ensures
        text@ == configuration_deleted_text(*name, cluster_id),
{
    let mut text = String::from_str("Deleted ClusterConfiguration ");
    text.append(name.0.as_str());
    text.append(" <");
    text.append(uuid_text(cluster_id.0).as_str());
    text.append("> successfully.");
    text
}

} // verus!
