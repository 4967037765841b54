//! The server's domain model: images, tasks, hosts and groups.
pub mod group;
pub mod host;
pub mod image;
pub mod task;
