use std::sync::atomic::AtomicUsize;

use kernel_kit::paging::addr::{PhysAddr, VirtAddr};
use kernel_kit::paging::arch::{FramAllocator, TableGeneric};
use kernel_kit::paging::pte::PageTableEntry;
use kernel_kit::paging::table::{MapConfig, PageTable};

#[derive(Debug, Clone, Copy, PartialEq, Eq)]
struct MockPte {
    bits: usize,
}

impl MockPte {
    fn new() -> Self {
        Self { bits: 0 }
    }
}

impl PageTableEntry for MockPte {
    fn spec_valid(&self) -> bool {
        self.valid()
    }

    fn spec_paddr(&self) -> usize {
        self.paddr().raw()
    }

    fn spec_huge(&self) -> bool {
        self.is_huge()
    }

    fn spec_addr_of(paddr: usize) -> usize {
        let mut pte = Self::new();
        pte.set_paddr(PhysAddr::new(paddr));
        pte.paddr().raw()
    }

    fn spec_with_paddr(self, paddr: usize) -> Self {
        let mut pte = self;
        pte.set_paddr(PhysAddr::new(paddr));
        pte
    }

    fn spec_with_valid(self, valid: bool) -> Self {
        let mut pte = self;
        pte.set_valid(valid);
        pte
    }

    fn spec_with_huge(self, huge: bool) -> Self {
        let mut pte = self;
        pte.set_is_huge(huge);
        pte
    }

    fn valid(&self) -> bool {
        self.bits & (1 << 0) != 0
    }

    fn paddr(&self) -> PhysAddr {
        PhysAddr::new(self.bits & !((1 << 12) - 1))
    }

    fn set_paddr(&mut self, paddr: PhysAddr) {
        self.bits = (self.bits & ((1 << 12) - 1)) | (paddr.raw() & !((1 << 12) - 1));
    }

    fn set_valid(&mut self, valid: bool) {
        if valid {
            self.bits |= 1 << 0;
        } else {
            self.bits &= !(1 << 0);
        }
    }

    fn is_huge(&self) -> bool {
        self.bits & (1 << 1) != 0
    }

    fn set_is_huge(&mut self, huge: bool) {
        if huge {
            self.bits |= 1 << 1;
        } else {
            self.bits &= !(1 << 1);
        }
    }
}

#[derive(Debug, Clone, Copy)]
struct MockTableGeneric;

impl TableGeneric for MockTableGeneric {
    type P = MockPte;

    const PAGE_SIZE: usize = 4096;
    const LEVEL: usize = 4;
    const MAX_BLOCK_LEVEL: usize = 2;

    fn flush(_vaddr: Option<VirtAddr>) {}
}

/// Hands out consecutive 4 KiB frames from 16 MiB on, one per request, so
/// that no two tables share a frame.
#[derive(Debug, Clone, Copy)]
struct TestAllocator {
    next_addr: &'static AtomicUsize,
}

impl TestAllocator {
    fn new() -> Self {
        Self { next_addr: Box::leak(Box::new(AtomicUsize::new(0x1000000))) }
    }
}

impl FramAllocator for TestAllocator {
    fn alloc_frame(&self) -> Option<PhysAddr> {
        Some(PhysAddr::new(self.next_addr.fetch_add(0x1000, std::sync::atomic::Ordering::SeqCst)))
    }

    fn dealloc_frame(&self, _frame: PhysAddr) {}
}

#[test]
fn test_basic_mapping() {
    let allocator = TestAllocator::new();
    let mut page_table = PageTable::<MockTableGeneric, TestAllocator>::new(allocator)
        .expect("Failed to create page table");

    let config = MapConfig {
        vaddr: VirtAddr::new(0x1000000),
        paddr: PhysAddr::new(0x2000000),
        size: 0x1000,
        pte: MockPte::new(),
        allow_huge: true,
        flush: false,
    };

    let result = page_table.map(&config);
    assert!(result.is_ok(), "Basic mapping should succeed: {:?}", result);
}
