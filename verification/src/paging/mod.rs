//! Architecture-independent page table mapping.

pub mod addr;
pub mod arch;
pub(crate) mod memory;
pub mod pte;
pub mod table;
