//! Table layouts of the supported architectures and the frame allocator
//! interface.

use vstd::prelude::*;

use super::addr::{PhysAddr, VirtAddr};
use super::pte::{MockPte, PageTableEntry};

verus! {

/// A frame allocator that hands out physical frames for page tables.
///
/// What `alloc_frame` returns is decided by the allocator: the table only
/// relies on `None` meaning that no frame is left.
pub trait FramAllocator: Sized + Copy + Clone {
    fn alloc_frame(&self) -> Option<PhysAddr>;

    fn dealloc_frame(&self, frame: PhysAddr);
}

/// The layout of a page table: its page size, its number of levels and the
/// deepest level at which a huge page may be placed.
pub trait TableGeneric: Sized + Copy + Clone {
    /// The entry type.
    type P: PageTableEntry;

    /// Page size in bytes (4 KiB, 16 KiB, 64 KiB, ...).
    const PAGE_SIZE: usize;

    /// Number of levels (3, 4, 5, ...).
    const LEVEL: usize;

    /// The highest level number that may hold a huge page.
    const MAX_BLOCK_LEVEL: usize;

    /// Flushes the TLB for `vaddr`, or entirely when it is `None`.
    fn flush(vaddr: Option<VirtAddr>);
}

/// Helper describing a common architecture configuration.
pub trait ArchitectureConfig {
    /// The default table layout of the architecture.
    type Config: TableGeneric;

    /// The name of the architecture.
    fn architecture_name() -> &'static str;

    /// The page size of the architecture in bytes.
    fn page_size() -> (r: usize)
        ensures
            r == Self::Config::PAGE_SIZE,
    {
        Self::Config::PAGE_SIZE
    }

    /// The number of table levels of the architecture.
    fn levels() -> (r: usize)
        ensures
            r == Self::Config::LEVEL,
    {
        Self::Config::LEVEL
    }
}

/// x86_64 layout: 4 KiB pages, 4 levels, huge pages up to level 2.
#[derive(Debug, Clone, Copy)]
pub struct X86_64Table;

impl TableGeneric for X86_64Table {
    type P = MockPte;

    const PAGE_SIZE: usize = 4096;
    const LEVEL: usize = 4;
    const MAX_BLOCK_LEVEL: usize = 2;

    fn flush(_vaddr: Option<VirtAddr>) {
    }
}

/// ARM64 layout with 4 KiB granules: 4 levels, huge pages up to level 2.
#[derive(Debug, Clone, Copy)]
pub struct ARM64Table;

impl TableGeneric for ARM64Table {
    type P = MockPte;

    const PAGE_SIZE: usize = 4096;
    const LEVEL: usize = 4;
    const MAX_BLOCK_LEVEL: usize = 2;

    fn flush(_vaddr: Option<VirtAddr>) {
    }
}

/// ARM64 layout with 16 KiB granules: 3 levels, huge pages at level 1.
#[derive(Debug, Clone, Copy)]
pub struct ARM64LargeTable;

impl TableGeneric for ARM64LargeTable {
    type P = MockPte;

    const PAGE_SIZE: usize = 16384;
    const LEVEL: usize = 3;
    const MAX_BLOCK_LEVEL: usize = 1;

    fn flush(_vaddr: Option<VirtAddr>) {
    }
}

/// RISC-V Sv39 layout: 4 KiB pages, 3 levels, megapages at level 1.
#[derive(Debug, Clone, Copy)]
pub struct RISCV64Table;

impl TableGeneric for RISCV64Table {
    type P = MockPte;

    const PAGE_SIZE: usize = 4096;
    const LEVEL: usize = 3;
    const MAX_BLOCK_LEVEL: usize = 1;

    fn flush(_vaddr: Option<VirtAddr>) {
    }
}

/// A custom layout with 64 KiB pages and 3 levels.
#[derive(Debug, Clone, Copy)]
pub struct LargePageTable;

impl TableGeneric for LargePageTable {
    type P = MockPte;

    const PAGE_SIZE: usize = 65536;
    const LEVEL: usize = 3;
    const MAX_BLOCK_LEVEL: usize = 1;

    fn flush(_vaddr: Option<VirtAddr>) {
    }
}

/// A simple 3-level layout with 4 KiB pages.
#[derive(Debug, Clone, Copy)]
pub struct ThreeLevelTable;

impl TableGeneric for ThreeLevelTable {
    type P = MockPte;

    const PAGE_SIZE: usize = 4096;
    const LEVEL: usize = 3;
    const MAX_BLOCK_LEVEL: usize = 1;

    fn flush(_vaddr: Option<VirtAddr>) {
    }
}

/// A 5-level layout with 4 KiB pages, huge pages up to level 3.
#[derive(Debug, Clone, Copy)]
pub struct FiveLevelTable;

impl TableGeneric for FiveLevelTable {
    type P = MockPte;

    const PAGE_SIZE: usize = 4096;
    const LEVEL: usize = 5;
    const MAX_BLOCK_LEVEL: usize = 3;

    fn flush(_vaddr: Option<VirtAddr>) {
    }
}

/// x86_64: 4 KiB pages, 4 levels.
pub struct X86_64Config;

impl ArchitectureConfig for X86_64Config {
    type Config = X86_64Table;

    fn architecture_name() -> (r: &'static str)
        ensures
            r@ == "x86_64"@,
    {
        "x86_64"
    }
}

/// ARM64: 4 KiB pages, 4 levels.
pub struct ARM64Config;

impl ArchitectureConfig for ARM64Config {
    type Config = ARM64Table;

    fn architecture_name() -> (r: &'static str)
        ensures
            r@ == "ARM64"@,
    {
        "ARM64"
    }
}

/// RISC-V: 4 KiB pages, 3 levels.
pub struct RISCV64Config;

impl ArchitectureConfig for RISCV64Config {
    type Config = RISCV64Table;

    fn architecture_name() -> (r: &'static str)
        ensures
            r@ == "RISC-V 64-bit"@,
    {
        "RISC-V 64-bit"
    }
}

} // verus!
