//! Types and helpers shared between the server and the agent.
pub mod error;
pub mod logging;
pub mod multicast;
pub mod types;
