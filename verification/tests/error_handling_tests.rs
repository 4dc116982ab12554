use std::sync::atomic::AtomicUsize;

use kernel_kit::paging::addr::{PagingError, PhysAddr, VirtAddr};
use kernel_kit::paging::arch::{FramAllocator, TableGeneric};
use kernel_kit::paging::pte::PageTableEntry;
use kernel_kit::paging::table::{MapConfig, PageTable};

#[derive(Debug, Clone, Copy, PartialEq, Eq)]
struct TestPte {
    bits: usize,
}

impl TestPte {
    fn new() -> Self {
        Self { bits: 0 }
    }

    fn with_flags(valid: bool, is_huge: bool) -> Self {
        let mut pte = Self::new();
        if valid {
            pte.bits |= 1 << 63;
        }
        if is_huge {
            pte.bits |= 1 << 10;
        }
        pte
    }
}

impl PageTableEntry for TestPte {
    fn spec_valid(&self) -> bool {
        self.valid()
    }

    fn spec_paddr(&self) -> usize {
        self.paddr().raw()
    }

    fn spec_huge(&self) -> bool {
        self.is_huge()
    }

    fn spec_addr_of(paddr: usize) -> usize {
        let mut pte = Self::new();
        pte.set_paddr(PhysAddr::new(paddr));
        pte.paddr().raw()
    }

    fn spec_with_paddr(self, paddr: usize) -> Self {
        let mut pte = self;
        pte.set_paddr(PhysAddr::new(paddr));
        pte
    }

    fn spec_with_valid(self, valid: bool) -> Self {
        let mut pte = self;
        pte.set_valid(valid);
        pte
    }

    fn spec_with_huge(self, huge: bool) -> Self {
        let mut pte = self;
        pte.set_is_huge(huge);
        pte
    }

    fn valid(&self) -> bool {
        self.bits & (1 << 63) != 0
    }

    fn paddr(&self) -> PhysAddr {
        PhysAddr::new(self.bits & ((1 << 48) - 1))
    }

    fn set_paddr(&mut self, paddr: PhysAddr) {
        self.bits = (self.bits & !((1 << 48) - 1)) | (paddr.raw() & ((1 << 48) - 1));
    }

    fn set_valid(&mut self, valid: bool) {
        if valid {
            self.bits |= 1 << 63;
        } else {
            self.bits &= !(1 << 63);
        }
    }

    fn is_huge(&self) -> bool {
        self.bits & (1 << 10) != 0
    }

    fn set_is_huge(&mut self, huge: bool) {
        if huge {
            self.bits |= 1 << 10;
        } else {
            self.bits &= !(1 << 10);
        }
    }
}

/// Hands out consecutive 4 KiB frames from 16 MiB up to 32 MiB.
#[derive(Debug, Clone, Copy)]
struct StdTestAllocator {
    next: &'static AtomicUsize,
}

impl StdTestAllocator {
    fn new() -> Self {
        Self { next: Box::leak(Box::new(AtomicUsize::new(0x1000000))) }
    }
}

impl FramAllocator for StdTestAllocator {
    fn alloc_frame(&self) -> Option<PhysAddr> {
        let addr = self.next.fetch_add(0x1000, std::sync::atomic::Ordering::SeqCst);
        if addr < 0x2000000 {
            Some(PhysAddr::new(addr))
        } else {
            None
        }
    }

    fn dealloc_frame(&self, _frame: PhysAddr) {}
}

#[derive(Debug, Clone, Copy)]
struct TestTable4KB;

impl TableGeneric for TestTable4KB {
    type P = TestPte;

    const PAGE_SIZE: usize = 4096;
    const LEVEL: usize = 4;
    const MAX_BLOCK_LEVEL: usize = 2;

    fn flush(_vaddr: Option<VirtAddr>) {
        println!("TLB flushed");
    }
}

#[test]
fn test_alignment_errors() {
    let allocator = StdTestAllocator::new();
    let mut page_table = PageTable::<TestTable4KB, _>::new(allocator).expect("Failed to create page table");

    let config_vaddr_unaligned = MapConfig {
        vaddr: VirtAddr::new(0x1000001),
        paddr: PhysAddr::new(0x2000000),
        size: 0x1000,
        pte: TestPte::with_flags(true, false),
        allow_huge: false,
        flush: false,
    };

    let result = page_table.map(&config_vaddr_unaligned);
    assert!(result.is_err(), "Unaligned virtual address should fail");

    let config_paddr_unaligned = MapConfig {
        vaddr: VirtAddr::new(0x1000000),
        paddr: PhysAddr::new(0x2000001),
        size: 0x1000,
        pte: TestPte::with_flags(true, false),
        allow_huge: false,
        flush: false,
    };

    let result = page_table.map(&config_paddr_unaligned);
    assert!(result.is_err(), "Unaligned physical address should fail");

    let _config_size_unaligned = MapConfig {
        vaddr: VirtAddr::new(0x1000000),
        paddr: PhysAddr::new(0x2000000),
        size: 0x1001,
        pte: TestPte::with_flags(true, false),
        allow_huge: false,
        flush: false,
    };
}

#[test]
fn test_mapping_conflict_errors() {
    let allocator = StdTestAllocator::new();
    let mut page_table = PageTable::<TestTable4KB, _>::new(allocator).expect("Failed to create page table");

    let config1 = MapConfig {
        vaddr: VirtAddr::new(0x1000000),
        paddr: PhysAddr::new(0x2000000),
        size: 0x1000,
        pte: TestPte::with_flags(true, false),
        allow_huge: false,
        flush: false,
    };

    let result1 = page_table.map(&config1);
    assert!(result1.is_ok(), "First mapping should succeed");

    let config2 = MapConfig {
        vaddr: VirtAddr::new(0x1000000),
        paddr: PhysAddr::new(0x3000000),
        size: 0x1000,
        pte: TestPte::with_flags(true, false),
        allow_huge: false,
        flush: false,
    };

    let result2 = page_table.map(&config2);
    assert!(result2.is_err(), "Mapping conflict should fail");

    if let Err(PagingError::MappingConflict { vaddr, existing_paddr }) = result2 {
        println!("Conflict detected at vaddr: {:#x}, existing paddr: {:#x}", vaddr.raw(), existing_paddr.raw());
    } else {
        panic!("Expected MappingConflict error");
    }
}

#[test]
fn test_zero_size_errors() {
    let allocator = StdTestAllocator::new();
    let mut page_table = PageTable::<TestTable4KB, _>::new(allocator).expect("Failed to create page table");

    let config_zero_size = MapConfig {
        vaddr: VirtAddr::new(0x1000000),
        paddr: PhysAddr::new(0x2000000),
        size: 0,
        pte: TestPte::with_flags(true, false),
        allow_huge: false,
        flush: false,
    };

    let result = page_table.map(&config_zero_size);
    assert!(result.is_err(), "Zero size mapping should fail");

    if let Err(PagingError::InvalidSize { details }) = result {
        println!("Invalid size error: {}", details);
    } else {
        panic!("Expected InvalidSize error");
    }
}

#[test]
fn test_address_overflow_errors() {
    let allocator = StdTestAllocator::new();
    let mut page_table = PageTable::<TestTable4KB, _>::new(allocator).expect("Failed to create page table");

    let config_vaddr_overflow = MapConfig {
        vaddr: VirtAddr::new(usize::MAX - 0x1000 + 1),
        paddr: PhysAddr::new(0x2000000),
        size: 0x2000,
        pte: TestPte::with_flags(true, false),
        allow_huge: false,
        flush: false,
    };

    let result = page_table.map(&config_vaddr_overflow);
    assert!(result.is_err(), "Virtual address overflow should fail");

    let config_paddr_overflow = MapConfig {
        vaddr: VirtAddr::new(0x1000000),
        paddr: PhysAddr::new(usize::MAX - 0x1000 + 1),
        size: 0x2000,
        pte: TestPte::with_flags(true, false),
        allow_huge: false,
        flush: false,
    };

    let result = page_table.map(&config_paddr_overflow);
    assert!(result.is_err(), "Physical address overflow should fail");

    if let Err(PagingError::AddressOverflow { details }) = result {
        println!("Address overflow error: {}", details);
    }
}

#[test]
fn test_invalid_address_calculations() {
    let _vaddr = VirtAddr::new(0x123456789ABCDEF0);
}

#[test]
fn test_error_messages_quality() {
    let vaddr = VirtAddr::new(0x1000000);
    let paddr = PhysAddr::new(0x2000000);

    let alignment_error = PagingError::alignment_error("Virtual address not page aligned");
    println!("Alignment error: {:?}", alignment_error);

    let conflict_error = PagingError::mapping_conflict(vaddr, paddr);
    println!("Conflict error: {:?}", conflict_error);

    let overflow_error = PagingError::address_overflow("Virtual address overflow detected");
    println!("Overflow error: {:?}", overflow_error);

    let size_error = PagingError::invalid_size("Size must be positive and page-aligned");
    println!("Size error: {:?}", size_error);

    let hierarchy_error = PagingError::hierarchy_error("Cannot create page table under huge page");
    println!("Hierarchy error: {:?}", hierarchy_error);

    let error_str = conflict_error.message();
    assert!(error_str.contains("0x1000000"), "Error should contain virtual address");
    assert!(error_str.contains("0x2000000"), "Error should contain physical address");
}

#[test]
fn test_error_recovery_scenarios() {
    let allocator = StdTestAllocator::new();
    let mut page_table = PageTable::<TestTable4KB, _>::new(allocator).expect("Failed to create page table");

    let bad_config = MapConfig {
        vaddr: VirtAddr::new(0x1000001),
        paddr: PhysAddr::new(0x2000000),
        size: 0x1000,
        pte: TestPte::with_flags(true, false),
        allow_huge: false,
        flush: false,
    };

    let result = page_table.map(&bad_config);
    assert!(result.is_err(), "Bad mapping should fail");

    let good_config = MapConfig {
        vaddr: VirtAddr::new(0x1000000),
        paddr: PhysAddr::new(0x2000000),
        size: 0x1000,
        pte: TestPte::with_flags(true, false),
        allow_huge: false,
        flush: false,
    };

    let result = page_table.map(&good_config);
    assert!(result.is_ok(), "Good mapping should succeed after failure");

    let config2 = MapConfig {
        vaddr: VirtAddr::new(0x1001000),
        paddr: PhysAddr::new(0x2001000),
        size: 0x1000,
        pte: TestPte::with_flags(true, false),
        allow_huge: false,
        flush: false,
    };

    let result2 = page_table.map(&config2);
    assert!(result2.is_ok(), "Second mapping should succeed");

    let conflict_config = MapConfig {
        vaddr: VirtAddr::new(0x1000000),
        paddr: PhysAddr::new(0x4000000),
        size: 0x1000,
        pte: TestPte::with_flags(true, false),
        allow_huge: false,
        flush: false,
    };

    let result3 = page_table.map(&conflict_config);
    assert!(result3.is_err(), "Conflict should fail");

    let config3 = MapConfig {
        vaddr: VirtAddr::new(0x1002000),
        paddr: PhysAddr::new(0x2002000),
        size: 0x1000,
        pte: TestPte::with_flags(true, false),
        allow_huge: false,
        flush: false,
    };

    let result4 = page_table.map(&config3);
    assert!(result4.is_ok(), "New mapping should succeed after conflict");
}

#[test]
fn test_error_type_conversion() {
    let error = PagingError::mapping_conflict(VirtAddr::new(0x1000), PhysAddr::new(0x2000));

    let error_copy = error;
    assert_eq!(error, error_copy, "Error should be copyable");

    let error_clone = error.clone();
    assert_eq!(error, error_clone, "Error should be cloneable");

    assert_eq!(error, error_copy, "Error should support equality");

    println!("Debug: {:?}", error);
    println!("Display: {}", error.message());
}
