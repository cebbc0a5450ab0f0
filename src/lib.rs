//! A peer-to-peer failover supervisor: the decision logic, the wire format and
//! the configuration rules, with their contracts.

pub mod config;
pub mod flags;
pub mod node;
pub mod node_connections;
pub mod parser;
pub mod process;
pub mod text;
pub mod timestamp;
pub mod wire;
