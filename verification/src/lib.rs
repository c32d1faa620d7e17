pub mod ids;
pub mod network;
pub mod short_name;
pub mod cluster_state;
pub mod peer;
pub mod peer_state;
pub mod mapping;
pub mod messages;
pub mod cluster;
pub mod manager;
pub mod deploy;
pub mod store;
pub mod deletion;
pub mod options;
pub mod controls;
pub mod cli;
pub mod laws;
pub mod behaviour;
