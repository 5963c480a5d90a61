//! Membership by gossip: who is in the cluster, and who is suspected or dead.
pub mod config;
pub mod detector;
pub mod gossip;
pub mod laws;
pub mod member;

pub use config::{SwimConfig, SwimConfigBuilder};
pub use detector::FailureDetector;
pub use gossip::{GossipQueue, GossipUpdate};
pub use member::{Member, MembershipList, NodeState};
