//! Boot-time helpers of the hardware abstraction layer.

pub mod efi;
pub mod ram;
