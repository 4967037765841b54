//! Verified core of the `imaged` disk-imaging server: the domain model, the
//! host connection table, the multicast slot bookkeeping, the PXE boot
//! scripts and the small text formats the server and its agents agree on.
pub mod client;
pub mod dashboard;
pub mod domain;
pub mod events;
pub mod harness;
pub mod inject;
pub mod multicast;
pub mod net;
pub mod pxe;
pub mod registry;
pub mod server;
pub mod service;
pub mod shared;
pub mod text;
pub mod tftp;
pub mod timestamp;
pub mod wake;
