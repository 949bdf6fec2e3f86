//! Requests to the application.

pub mod agents;
pub mod control_clients;
pub mod local_agents;
pub mod peer_health;
pub mod peers;
pub mod reachability;
pub mod recovery;
pub mod remote_presentations;
pub mod serving;
