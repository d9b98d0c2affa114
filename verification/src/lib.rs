//! A peer-to-peer membership and gossip node, with its decisions verified.
//!
//! The crate holds what a node decides: which peers it knows and under which
//! address, how messages look on the wire, how it reacts to what the network
//! delivers, and what it sends on every tick of its emitter. Sockets, threads
//! and clocks belong to the program around it, which performs the actions
//! that the node asks for and reports back what happened.
//!
//! - [`address`]: socket addresses and connection identities.
//! - [`node_map`]: the directory of peers.
//! - [`wire`] and [`message`]: the messages and their bytes.
//! - [`node`]: the steps of a node.
//! - [`render`] and [`error`]: text for the operator, and failures.

pub mod address;
pub mod error;
pub mod message;
pub mod node;
pub mod node_map;
pub mod render;
pub mod wire;
