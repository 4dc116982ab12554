//! The Ethernet/ARP adapter of the network stack.

pub mod wire;
pub mod irq;
pub mod tables;
pub mod model;
pub mod ethernet;
