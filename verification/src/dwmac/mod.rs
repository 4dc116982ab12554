//! The CVitek DWMAC Ethernet controller of the SG2002.

pub mod descriptor;
pub mod regs;
pub mod error;
pub mod mdio;
pub mod phy;
pub mod ephy;
pub mod barrier;
pub mod queue;
pub mod driver;
pub mod probe;
