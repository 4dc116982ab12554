use std::sync::atomic::AtomicUsize;

use kernel_kit::paging::addr::{PagingError, PhysAddr, VirtAddr};
use kernel_kit::paging::arch::{
    ARM64Config, ARM64Table, ArchitectureConfig, FramAllocator, RISCV64Config, RISCV64Table,
    TableGeneric, X86_64Config, X86_64Table,
};
use kernel_kit::paging::pte::MockPte;
use kernel_kit::paging::table::{MapConfig, PageTable};

#[derive(Debug, Clone, Copy)]
struct MockTableGeneric4KB;

impl TableGeneric for MockTableGeneric4KB {
    type P = MockPte;

    const PAGE_SIZE: usize = 4096;
    const LEVEL: usize = 4;
    const MAX_BLOCK_LEVEL: usize = 2;

    fn flush(_vaddr: Option<VirtAddr>) {}
}

#[derive(Debug, Clone, Copy)]
struct MockTableGeneric16KB;

impl TableGeneric for MockTableGeneric16KB {
    type P = MockPte;

    const PAGE_SIZE: usize = 16384;
    const LEVEL: usize = 3;
    const MAX_BLOCK_LEVEL: usize = 1;

    fn flush(_vaddr: Option<VirtAddr>) {}
}

#[derive(Debug, Clone, Copy)]
struct MockTableGeneric64KB;

impl TableGeneric for MockTableGeneric64KB {
    type P = MockPte;

    const PAGE_SIZE: usize = 65536;
    const LEVEL: usize = 3;
    const MAX_BLOCK_LEVEL: usize = 1;

    fn flush(_vaddr: Option<VirtAddr>) {}
}

/// Hands out consecutive 4 KiB frames from 16 MiB on, one per request, so
/// that no two tables share a frame.
#[derive(Debug, Clone, Copy)]
struct TestAllocator {
    next_addr: &'static AtomicUsize,
}

impl TestAllocator {
    fn new() -> Self {
        Self { next_addr: Box::leak(Box::new(AtomicUsize::new(0x1000000))) }
    }
}

impl FramAllocator for TestAllocator {
    fn alloc_frame(&self) -> Option<PhysAddr> {
        Some(PhysAddr::new(self.next_addr.fetch_add(0x1000, std::sync::atomic::Ordering::SeqCst)))
    }

    fn dealloc_frame(&self, _frame: PhysAddr) {}
}

#[test]
fn test_debug_implementations() {
    let allocator = TestAllocator::new();
    let page_table = PageTable::<MockTableGeneric4KB, TestAllocator>::new(allocator)
        .expect("Failed to create page table");

    let config = MapConfig {
        vaddr: VirtAddr::new(0x1000000),
        paddr: PhysAddr::new(0x2000000),
        size: 0x1000,
        pte: MockPte::new(),
        allow_huge: true,
        flush: false,
    };

    println!(
        "PageTable: root={:#x} levels={} max_block_level={} page_size={:#x}",
        page_table.root().raw(),
        MockTableGeneric4KB::LEVEL,
        MockTableGeneric4KB::MAX_BLOCK_LEVEL,
        MockTableGeneric4KB::PAGE_SIZE
    );
    println!("Config: {:?}", config);

    let error = PagingError::alignment_error("test alignment");
    println!("Error: {:?}", error);

    let conflict_error = PagingError::mapping_conflict(VirtAddr::new(0x1000), PhysAddr::new(0x2000));
    println!("Conflict Error: {:?}", conflict_error);
}

#[test]
fn test_different_page_sizes() {
    let vaddr = VirtAddr::new(0x123456789ABCDEF0);

    let index4kb_1 = PageTable::<MockTableGeneric4KB, TestAllocator>::virt_to_index(vaddr, 1);
    let index4kb_4 = PageTable::<MockTableGeneric4KB, TestAllocator>::virt_to_index(vaddr, 4);
    let size4kb_1 = PageTable::<MockTableGeneric4KB, TestAllocator>::level_size(1);
    let size4kb_4 = PageTable::<MockTableGeneric4KB, TestAllocator>::level_size(4);

    assert!(index4kb_1 < 512);
    assert!(index4kb_4 < 512);
    assert_eq!(size4kb_1, 0x200000);
    assert_eq!(size4kb_4, 4096);

    let index16kb_1 = PageTable::<MockTableGeneric16KB, TestAllocator>::virt_to_index(vaddr, 1);
    let index16kb_3 = PageTable::<MockTableGeneric16KB, TestAllocator>::virt_to_index(vaddr, 3);
    let size16kb_1 = PageTable::<MockTableGeneric16KB, TestAllocator>::level_size(1);
    let size16kb_3 = PageTable::<MockTableGeneric16KB, TestAllocator>::level_size(3);

    assert!(index16kb_1 < 512);
    assert!(index16kb_3 < 512);
    assert_eq!(size16kb_1, 0x800000);
    assert_eq!(size16kb_3, 16384);

    let index64kb_1 = PageTable::<MockTableGeneric64KB, TestAllocator>::virt_to_index(vaddr, 1);
    let index64kb_3 = PageTable::<MockTableGeneric64KB, TestAllocator>::virt_to_index(vaddr, 3);
    let size64kb_1 = PageTable::<MockTableGeneric64KB, TestAllocator>::level_size(1);
    let size64kb_3 = PageTable::<MockTableGeneric64KB, TestAllocator>::level_size(3);

    assert!(index64kb_1 < 512);
    assert!(index64kb_3 < 512);
    assert_eq!(size64kb_1, 0x2000000);
    assert_eq!(size64kb_3, 65536);
}

#[test]
fn test_alignment_checks_different_page_sizes() {
    let vaddr_aligned_4kb = VirtAddr::new(0x1000);
    let vaddr_unaligned_4kb = VirtAddr::new(0x1001);

    assert!(PageTable::<MockTableGeneric4KB, TestAllocator>::is_vaddr_aligned(vaddr_aligned_4kb, 4096, 4));
    assert!(!PageTable::<MockTableGeneric4KB, TestAllocator>::is_vaddr_aligned(vaddr_unaligned_4kb, 4096, 4));

    let vaddr_aligned_16kb = VirtAddr::new(0x4000);
    let vaddr_unaligned_16kb = VirtAddr::new(0x4001);

    assert!(PageTable::<MockTableGeneric16KB, TestAllocator>::is_vaddr_aligned(vaddr_aligned_16kb, 16384, 3));
    assert!(!PageTable::<MockTableGeneric16KB, TestAllocator>::is_vaddr_aligned(vaddr_unaligned_16kb, 16384, 3));

    let vaddr_aligned_64kb = VirtAddr::new(0x10000);
    let vaddr_unaligned_64kb = VirtAddr::new(0x10001);

    assert!(PageTable::<MockTableGeneric64KB, TestAllocator>::is_vaddr_aligned(vaddr_aligned_64kb, 65536, 3));
    assert!(!PageTable::<MockTableGeneric64KB, TestAllocator>::is_vaddr_aligned(vaddr_unaligned_64kb, 65536, 3));
}

#[test]
fn test_basic_mapping_different_configs() {
    let allocator = TestAllocator::new();
    let mut page_table_4kb = PageTable::<MockTableGeneric4KB, TestAllocator>::new(allocator)
        .expect("Failed to create 4KB page table");

    let config_4kb = MapConfig {
        vaddr: VirtAddr::new(0x1000000),
        paddr: PhysAddr::new(0x2000000),
        size: 4096,
        pte: MockPte::new(),
        allow_huge: true,
        flush: false,
    };

    let result_4kb = page_table_4kb.map(&config_4kb);
    assert!(result_4kb.is_ok(), "4KB mapping should succeed: {:?}", result_4kb);

    let allocator = TestAllocator::new();
    let mut page_table_16kb = PageTable::<MockTableGeneric16KB, TestAllocator>::new(allocator)
        .expect("Failed to create 16KB page table");

    let config_16kb = MapConfig {
        vaddr: VirtAddr::new(0x2000000),
        paddr: PhysAddr::new(0x3000000),
        size: 16384,
        pte: MockPte::new(),
        allow_huge: true,
        flush: false,
    };

    let result_16kb = page_table_16kb.map(&config_16kb);
    assert!(result_16kb.is_ok(), "16KB mapping should succeed: {:?}", result_16kb);
}

#[test]
fn test_error_types() {
    let alignment_error = PagingError::alignment_error("Test alignment failure");
    assert!(matches!(alignment_error, PagingError::AlignmentError { .. }));

    let conflict_error = PagingError::mapping_conflict(VirtAddr::new(0x1000), PhysAddr::new(0x2000));
    assert!(matches!(conflict_error, PagingError::MappingConflict { .. }));

    let overflow_error = PagingError::address_overflow("Test overflow");
    assert!(matches!(overflow_error, PagingError::AddressOverflow { .. }));

    let size_error = PagingError::invalid_size("Test invalid size");
    assert!(matches!(size_error, PagingError::InvalidSize { .. }));

    let hierarchy_error = PagingError::hierarchy_error("Test hierarchy error");
    assert!(matches!(hierarchy_error, PagingError::HierarchyError { .. }));
}

#[test]
fn test_architecture_configs() {
    assert_eq!(X86_64Config::architecture_name(), "x86_64");
    assert_eq!(X86_64Config::page_size(), 4096);
    assert_eq!(X86_64Config::levels(), 4);

    assert_eq!(ARM64Config::architecture_name(), "ARM64");
    assert_eq!(ARM64Config::page_size(), 4096);
    assert_eq!(ARM64Config::levels(), 4);

    assert_eq!(RISCV64Config::architecture_name(), "RISC-V 64-bit");
    assert_eq!(RISCV64Config::page_size(), 4096);
    assert_eq!(RISCV64Config::levels(), 3);

    let _x86_64_table: PageTable<X86_64Table, TestAllocator> =
        PageTable::new(TestAllocator::new()).unwrap();

    let _arm64_table: PageTable<ARM64Table, TestAllocator> =
        PageTable::new(TestAllocator::new()).unwrap();

    let _riscv64_table: PageTable<RISCV64Table, TestAllocator> =
        PageTable::new(TestAllocator::new()).unwrap();
}
