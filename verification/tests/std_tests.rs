use std::sync::atomic::AtomicUsize;

use kernel_kit::paging::addr::{PagingError, PhysAddr, VirtAddr};
use kernel_kit::paging::arch::{FramAllocator, TableGeneric};
use kernel_kit::paging::pte::PageTableEntry;
use kernel_kit::paging::table::{MapConfig, PageTable};

#[derive(Debug, Clone, Copy, PartialEq, Eq)]
struct TestPte {
    bits: usize,
}

impl TestPte {
    fn new() -> Self {
        Self { bits: 0 }
    }

    fn with_flags(valid: bool, is_huge: bool) -> Self {
        let mut pte = Self::new();
        if valid {
            pte.bits |= 1 << 63;
        }
        if is_huge {
            pte.bits |= 1 << 10;
        }
        pte
    }
}

impl PageTableEntry for TestPte {
    fn spec_valid(&self) -> bool {
        self.valid()
    }

    fn spec_paddr(&self) -> usize {
        self.paddr().raw()
    }

    fn spec_huge(&self) -> bool {
        self.is_huge()
    }

    fn spec_addr_of(paddr: usize) -> usize {
        let mut pte = Self::new();
        pte.set_paddr(PhysAddr::new(paddr));
        pte.paddr().raw()
    }

    fn spec_with_paddr(self, paddr: usize) -> Self {
        let mut pte = self;
        pte.set_paddr(PhysAddr::new(paddr));
        pte
    }

    fn spec_with_valid(self, valid: bool) -> Self {
        let mut pte = self;
        pte.set_valid(valid);
        pte
    }

    fn spec_with_huge(self, huge: bool) -> Self {
        let mut pte = self;
        pte.set_is_huge(huge);
        pte
    }

    fn valid(&self) -> bool {
        self.bits & (1 << 63) != 0
    }

    fn paddr(&self) -> PhysAddr {
        PhysAddr::new(self.bits & ((1 << 48) - 1))
    }

    fn set_paddr(&mut self, paddr: PhysAddr) {
        self.bits = (self.bits & !((1 << 48) - 1)) | (paddr.raw() & ((1 << 48) - 1));
    }

    fn set_valid(&mut self, valid: bool) {
        if valid {
            self.bits |= 1 << 63;
        } else {
            self.bits &= !(1 << 63);
        }
    }

    fn is_huge(&self) -> bool {
        self.bits & (1 << 10) != 0
    }

    fn set_is_huge(&mut self, huge: bool) {
        if huge {
            self.bits |= 1 << 10;
        } else {
            self.bits &= !(1 << 10);
        }
    }
}

/// Hands out consecutive 4 KiB frames from 16 MiB up to 32 MiB.
#[derive(Debug, Clone, Copy)]
struct StdTestAllocator {
    next: &'static AtomicUsize,
}

impl StdTestAllocator {
    fn new() -> Self {
        Self { next: Box::leak(Box::new(AtomicUsize::new(0x1000000))) }
    }
}

impl FramAllocator for StdTestAllocator {
    fn alloc_frame(&self) -> Option<PhysAddr> {
        let addr = self.next.fetch_add(0x1000, std::sync::atomic::Ordering::SeqCst);
        if addr < 0x2000000 {
            Some(PhysAddr::new(addr))
        } else {
            None
        }
    }

    fn dealloc_frame(&self, _frame: PhysAddr) {}
}

#[derive(Debug, Clone, Copy)]
struct TestTable4KB;

impl TableGeneric for TestTable4KB {
    type P = TestPte;

    const PAGE_SIZE: usize = 4096;
    const LEVEL: usize = 4;
    const MAX_BLOCK_LEVEL: usize = 2;

    fn flush(_vaddr: Option<VirtAddr>) {
        println!("TLB flushed");
    }
}

#[derive(Debug, Clone, Copy)]
struct TestTable16KB;

impl TableGeneric for TestTable16KB {
    type P = TestPte;

    const PAGE_SIZE: usize = 16384;
    const LEVEL: usize = 3;
    const MAX_BLOCK_LEVEL: usize = 1;

    fn flush(_vaddr: Option<VirtAddr>) {
        println!("TLB flushed for 16KB pages");
    }
}

fn create_basic_4kb_config(vaddr: usize, paddr: usize, size: usize) -> MapConfig<TestPte> {
    MapConfig {
        vaddr: VirtAddr::new(vaddr),
        paddr: PhysAddr::new(paddr),
        size,
        pte: TestPte::with_flags(true, false),
        allow_huge: true,
        flush: false,
    }
}

fn create_basic_4kb_config_no_huge(vaddr: usize, paddr: usize, size: usize) -> MapConfig<TestPte> {
    MapConfig {
        vaddr: VirtAddr::new(vaddr),
        paddr: PhysAddr::new(paddr),
        size,
        pte: TestPte::with_flags(true, false),
        allow_huge: false,
        flush: false,
    }
}

fn create_16kb_config(vaddr: usize, paddr: usize, size: usize) -> MapConfig<TestPte> {
    MapConfig {
        vaddr: VirtAddr::new(vaddr),
        paddr: PhysAddr::new(paddr),
        size,
        pte: TestPte::with_flags(true, false),
        allow_huge: true,
        flush: false,
    }
}

#[test]
fn test_std_basic_page_mapping() {
    let allocator = StdTestAllocator::new();
    let mut page_table = PageTable::<TestTable4KB, _>::new(allocator).expect("Failed to create page table");

    let config = create_basic_4kb_config(0x1000000, 0x2000000, 0x1000);

    let result = page_table.map(&config);
    assert!(result.is_ok(), "Basic page mapping should succeed: {:?}", result);
}

#[test]
fn test_std_large_range_mapping() {
    let allocator = StdTestAllocator::new();
    let mut page_table = PageTable::<TestTable4KB, _>::new(allocator).expect("Failed to create page table");

    let config = create_basic_4kb_config(0x1000000, 0x2000000, 0x200000);

    let result = page_table.map(&config);
    assert!(result.is_ok(), "Large range mapping should succeed: {:?}", result);
}

#[test]
fn test_std_huge_page_mapping() {
    let allocator = StdTestAllocator::new();
    let mut page_table = PageTable::<TestTable4KB, _>::new(allocator).expect("Failed to create page table");

    let config = create_basic_4kb_config(0x200000, 0x300000, 0x200000);

    let result = page_table.map(&config);
    assert!(result.is_ok(), "Huge page mapping should succeed: {:?}", result);
}

#[test]
fn test_std_no_huge_mapping() {
    let allocator = StdTestAllocator::new();
    let mut page_table = PageTable::<TestTable4KB, _>::new(allocator).expect("Failed to create page table");

    let config = create_basic_4kb_config_no_huge(0x200000, 0x300000, 0x200000);

    let result = page_table.map(&config);
    assert!(result.is_ok(), "Non-huge mapping should succeed: {:?}", result);
}

#[test]
fn test_std_unaligned_mapping() {
    let allocator = StdTestAllocator::new();
    let mut page_table = PageTable::<TestTable4KB, _>::new(allocator).expect("Failed to create page table");

    let config = create_basic_4kb_config(0x1000001, 0x2000000, 0x1000);

    let result = page_table.map(&config);
    assert!(result.is_err(), "Unaligned mapping should fail");
}

#[test]
fn test_std_zero_size_mapping() {
    let allocator = StdTestAllocator::new();
    let mut page_table = PageTable::<TestTable4KB, _>::new(allocator).expect("Failed to create page table");

    let mut config = create_basic_4kb_config(0x1000000, 0x2000000, 0x1000);
    config.size = 0;

    let result = page_table.map(&config);
    assert!(result.is_err(), "Zero size mapping should fail");
}

#[test]
fn test_std_address_overflow() {
    let allocator = StdTestAllocator::new();
    let mut page_table = PageTable::<TestTable4KB, _>::new(allocator).expect("Failed to create page table");

    let config = create_basic_4kb_config(usize::MAX - 0x1000, 0x2000000, 0x2000);

    let result = page_table.map(&config);
    assert!(result.is_err(), "Address overflow should fail");
}

#[test]
fn test_std_multiple_mappings() {
    let allocator = StdTestAllocator::new();
    let mut page_table = PageTable::<TestTable4KB, _>::new(allocator).expect("Failed to create page table");

    let config1 = create_basic_4kb_config(0x1000000, 0x2000000, 0x1000);
    let result1 = page_table.map(&config1);
    assert!(result1.is_ok(), "First mapping should succeed");

    let config2 = create_basic_4kb_config(0x1001000, 0x2001000, 0x1000);
    let result2 = page_table.map(&config2);
    assert!(result2.is_ok(), "Second mapping should succeed");
}

#[test]
fn test_std_duplicate_mapping() {
    let allocator = StdTestAllocator::new();
    let mut page_table = PageTable::<TestTable4KB, _>::new(allocator).expect("Failed to create page table");

    let config1 = create_basic_4kb_config(0x1000000, 0x2000000, 0x1000);
    let result1 = page_table.map(&config1);
    assert!(result1.is_ok(), "First mapping should succeed");

    let config2 = create_basic_4kb_config(0x1000000, 0x3000000, 0x1000);
    let result2 = page_table.map(&config2);
    assert!(result2.is_err(), "Duplicate mapping should fail");
}

#[test]
fn test_std_16kb_page_mapping() {
    let allocator = StdTestAllocator::new();
    let mut page_table = PageTable::<TestTable16KB, _>::new(allocator).expect("Failed to create 16KB page table");

    let config = create_16kb_config(0x1000000, 0x2000000, 0x4000);

    let result = page_table.map(&config);
    assert!(result.is_ok(), "16KB page mapping should succeed: {:?}", result);
}

#[test]
fn test_std_address_calculations() {
    let vaddr = VirtAddr::new(0x123456789ABCDEF0);

    let index_4kb_1 = PageTable::<TestTable4KB, StdTestAllocator>::virt_to_index(vaddr, 1);
    let index_4kb_4 = PageTable::<TestTable4KB, StdTestAllocator>::virt_to_index(vaddr, 4);
    let size_4kb_1 = PageTable::<TestTable4KB, StdTestAllocator>::level_size(1);
    let size_4kb_4 = PageTable::<TestTable4KB, StdTestAllocator>::level_size(4);

    assert!(index_4kb_1 < 512, "Index should be within page table bounds");
    assert!(index_4kb_4 < 512, "Index should be within page table bounds");
    assert_eq!(size_4kb_4, 4096, "Leaf level size should be page size");
    println!("4KB level 1 size: {:#x}", size_4kb_1);

    let index_16kb_1 = PageTable::<TestTable16KB, StdTestAllocator>::virt_to_index(vaddr, 1);
    let index_16kb_3 = PageTable::<TestTable16KB, StdTestAllocator>::virt_to_index(vaddr, 3);
    let size_16kb_3 = PageTable::<TestTable16KB, StdTestAllocator>::level_size(3);

    assert!(index_16kb_1 < 512, "Index should be within page table bounds");
    assert!(index_16kb_3 < 512, "Index should be within page table bounds");
    assert_eq!(size_16kb_3, 16384, "Leaf level size should be page size");
}

#[test]
fn test_std_debug_implementations() {
    let allocator = StdTestAllocator::new();
    let page_table = PageTable::<TestTable4KB, _>::new(allocator).expect("Failed to create page table");

    let config = create_basic_4kb_config(0x1000000, 0x2000000, 0x1000);

    println!("PageTable root: {:#x}", page_table.root().raw());
    println!("Config: {:?}", config);

    let error = PagingError::alignment_error("test alignment");
    println!("Error: {:?}", error);

    let conflict_error = PagingError::mapping_conflict(VirtAddr::new(0x1000), PhysAddr::new(0x2000));
    println!("Conflict Error: {:?}", conflict_error);
}

#[test]
fn test_std_allocator_behavior() {
    let allocator = StdTestAllocator::new();
    let mut page_table = PageTable::<TestTable4KB, _>::new(allocator).expect("Failed to create page table");

    let config1 = create_basic_4kb_config(0x1000000, 0x2000000, 0x1000);
    let result1 = page_table.map(&config1);
    assert!(result1.is_ok(), "First mapping should succeed");

    let config2 = create_basic_4kb_config(0x1001000, 0x2001000, 0x1000);
    let result2 = page_table.map(&config2);
    assert!(result2.is_ok(), "Second mapping should succeed");
}

#[test]
fn mapped_page_is_reported_with_its_frame_on_conflict() {
    let allocator = StdTestAllocator::new();
    let mut page_table = PageTable::<TestTable4KB, _>::new(allocator).expect("Failed to create page table");

    let first = create_basic_4kb_config_no_huge(0x1000000, 0x2000000, 0x3000);
    assert_eq!(page_table.map(&first), Ok(()));

    let again = create_basic_4kb_config_no_huge(0x1002000, 0x5000000, 0x1000);
    assert_eq!(
        page_table.map(&again),
        Err(PagingError::MappingConflict {
            vaddr: VirtAddr::new(0x1002000),
            existing_paddr: PhysAddr::new(0x2002000),
        })
    );

    let elsewhere = create_basic_4kb_config_no_huge(0x1003000, 0x5000000, 0x1000);
    assert_eq!(page_table.map(&elsewhere), Ok(()));
}

#[test]
fn invalid_requests_get_their_exact_error() {
    let allocator = StdTestAllocator::new();
    let mut page_table = PageTable::<TestTable4KB, _>::new(allocator).expect("Failed to create page table");
    let mut config = create_basic_4kb_config(0x1000000, 0x2000000, 0);
    assert_eq!(page_table.map(&config), Err(PagingError::InvalidSize { details: "Size cannot be zero" }));
    config.size = 0x1000;
    config.paddr = PhysAddr::new(0x2000001);
    assert_eq!(
        page_table.map(&config),
        Err(PagingError::AlignmentError { details: "Physical address not page aligned" })
    );
    let wrap = create_basic_4kb_config(usize::MAX - 0xfff, 0x2000000, 0x2000);
    assert_eq!(
        page_table.map(&wrap),
        Err(PagingError::AddressOverflow { details: "Virtual or physical address overflow" })
    );
    assert_eq!(
        PagingError::mapping_conflict(VirtAddr::new(0x1000000), PhysAddr::new(0x2000000)).message(),
        "Mapping conflict: virtual address 0x1000000 already mapped to physical address 0x2000000"
    );
}

#[test]
fn aligned_range_is_mapped_through_a_huge_page() {
    let allocator = StdTestAllocator::new();
    let mut page_table = PageTable::<TestTable4KB, _>::new(allocator).expect("Failed to create page table");

    let huge = create_basic_4kb_config(0x4000_0000, 0x8000_0000, 0x20_0000);
    assert_eq!(page_table.map(&huge), Ok(()));

    // A page inside the huge page has no table of its own to go to.
    let inside = create_basic_4kb_config_no_huge(0x4000_1000, 0x9000_0000, 0x1000);
    assert!(matches!(page_table.map(&inside), Err(PagingError::HierarchyError { .. })));

    // Mapping the huge page again is refused at its first page.
    assert!(matches!(
        page_table.map(&huge),
        Err(PagingError::MappingConflict { vaddr, .. }) if vaddr == VirtAddr::new(0x4000_0000)
    ));
}

#[test]
fn range_without_huge_pages_is_mapped_page_by_page() {
    let allocator = StdTestAllocator::new();
    let mut page_table = PageTable::<TestTable4KB, _>::new(allocator).expect("Failed to create page table");

    let pages = create_basic_4kb_config_no_huge(0x4000_0000, 0x8000_0000, 0x20_0000);
    assert_eq!(page_table.map(&pages), Ok(()));

    let inside = create_basic_4kb_config_no_huge(0x4000_1000, 0x9000_0000, 0x1000);
    assert_eq!(
        page_table.map(&inside),
        Err(PagingError::MappingConflict {
            vaddr: VirtAddr::new(0x4000_1000),
            existing_paddr: PhysAddr::new(0x8000_1000),
        })
    );
}

#[test]
fn table_is_built_on_the_root_frame_given() {
    let none = PageTable::<TestTable4KB, StdTestAllocator>::with_root_frame(StdTestAllocator::new(), None);
    assert!(matches!(none, Err(PagingError::NoMemory)));

    let root = PhysAddr::new(0x7000_0000);
    let table = PageTable::<TestTable4KB, StdTestAllocator>::with_root_frame(StdTestAllocator::new(), Some(root))
        .ok()
        .unwrap();
    assert_eq!(table.root(), root);
}
