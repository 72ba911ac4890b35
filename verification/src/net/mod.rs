//! The simulated network.

pub mod addr;
pub mod buffer;
pub mod config;
pub mod error;
pub mod handshake;
pub mod laws;
pub mod mailbox;
pub mod messages;
pub mod network;
pub mod sending;
pub mod socket;
pub mod streams;
pub mod tcp;
pub mod topology;
pub mod traffic;
