//! Verified building blocks of a small kernel: a generic multi-level page
//! table, the core of the CVitek DWMAC Ethernet driver, the Ethernet/ARP
//! adapter of the network stack, and boot-time helpers of the hardware
//! abstraction layer.

pub mod paging;
pub mod dwmac;
pub mod net;
pub mod boot;
