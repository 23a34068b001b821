//! Runtime core of an AURIA node: the node's counters and health, its
//! configuration, and the request-handling logic that turns prompts into
//! token tensors and generated tensors back into words.

pub mod clock;
pub mod config;
pub mod handlers;
pub mod startup;
pub mod state;
pub mod text;
pub mod types;

pub use config::{NodeBuilder, NodeConfig, NodeStatus};
pub use state::NodeState;
pub use types::{PublicKey, Tier};
