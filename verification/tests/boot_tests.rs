use kernel_kit::boot::efi::{acpi_rsdp, console_chunks, console_output_chunks, Boolean, Header, SimpleTextOutputMode, Status};
use kernel_kit::boot::ram::{tmp_heap_region, MemRegion, SimpleAllocator, MB};

#[test]
fn status_zero_is_success() {
    assert_eq!(Status::new(0).to_result(), Ok(()));
    let err = Status::new(0x8000_0000_0000_0002);
    assert_eq!(err.to_result(), Err(err));
}

#[test]
fn boolean_any_nonzero_is_true() {
    assert_eq!(Boolean::from(true), Boolean(1));
    assert_eq!(Boolean::from(false), Boolean(0));
    assert!(bool::from(Boolean(1)));
    assert!(bool::from(Boolean(0x80)));
    assert!(!bool::from(Boolean(0)));
    assert!(bool::from(Boolean::from(true)));
    assert!(!bool::from(Boolean::from(false)));
}

#[test]
fn uefi_plain_types_default_to_zero() {
    let header = Header::default();
    assert_eq!(header.signature, 0);
    assert_eq!(header.reserved, 0);
    let mode = SimpleTextOutputMode::default();
    assert_eq!(mode.cursor_visible, Boolean(0));
}

#[test]
fn short_text_is_one_zero_terminated_chunk() {
    let chunks = console_output_chunks("hi");
    assert_eq!(chunks.len(), 1);
    assert_eq!(chunks[0][0], u16::from(b'h'));
    assert_eq!(chunks[0][1], u16::from(b'i'));
    assert!(chunks[0][2..].iter().all(|&u| u == 0));
}

#[test]
fn text_beyond_a_chunk_is_split() {
    let units: Vec<u16> = (0..300u16).map(|i| i + 1).collect();
    let chunks = console_chunks(&units);
    assert_eq!(chunks.len(), 2);
    assert_eq!(chunks[0][255], 256);
    assert_eq!(chunks[1][0], 257);
    assert_eq!(chunks[1][43], 300);
    assert_eq!(chunks[1][44], 0);
}

#[test]
fn full_chunks_are_followed_by_an_empty_one() {
    let units = vec![0x41u16; 256];
    let chunks = console_chunks(&units);
    assert_eq!(chunks.len(), 2);
    assert!(chunks[1].iter().all(|&u| u == 0));
    assert_eq!(console_chunks(&[]).len(), 1);
}

#[test]
fn non_bmp_text_uses_surrogate_pairs() {
    let chunks = console_output_chunks("\u{1F600}");
    assert_eq!(chunks[0][0], 0xd83d);
    assert_eq!(chunks[0][1], 0xde00);
    assert_eq!(chunks[0][2], 0);
}

#[test]
fn bump_allocator_aligns_and_advances() {
    let mut ram = SimpleAllocator::new();
    ram.init(0x8020_0001);
    let a = ram.alloc_bytes(16, 8);
    assert_eq!(a, 0x8020_0008);
    assert_eq!(ram.current(), 0x8020_0018);
    let b = ram.alloc_bytes(4096, 4096);
    assert_eq!(b, 0x8020_1000);
    assert_eq!(ram.current(), 0x8020_2000);
    let c = ram.alloc_bytes(1, 4096);
    assert_eq!(c, 0x8020_2000);
}

#[test]
fn tmp_heap_takes_upper_half_of_main_region() {
    let regions = [
        MemRegion { physical_start: 0, size_in_bytes: 0x1000, usable: true },
        MemRegion { physical_start: 0x8000_0000, size_in_bytes: 0x1000_0000, usable: false },
        MemRegion { physical_start: 0x8000_0000, size_in_bytes: 0x1000_0000, usable: true },
    ];
    let kernel_end = 0x8100_0000;
    let (start, size) = tmp_heap_region(&regions, kernel_end, 0x1000).unwrap();
    assert_eq!(start, 0x8880_0000);
    assert_eq!(start + size, 0x9000_0000);

    let small = [MemRegion { physical_start: 0x8000_0000, size_in_bytes: 0x00c0_0000, usable: true }];
    let (start, size) = tmp_heap_region(&small, 0x8000_0000, 0x1000).unwrap();
    assert_eq!(start, 0x8000_0000 + 8 * MB);
    assert_eq!(size, 0x00c0_0000 - 8 * MB);
}

#[test]
fn tmp_heap_needs_a_region_past_the_kernel() {
    let regions = [MemRegion { physical_start: 0x8000_0000, size_in_bytes: 0x0010_0000, usable: true }];
    assert_eq!(tmp_heap_region(&regions, 0x8000_0000, 0x1000), None);
    let tight = [MemRegion { physical_start: 0x8000_0000, size_in_bytes: 0x0040_0000, usable: true }];
    assert_eq!(tmp_heap_region(&tight, 0x8000_0000, 0x1000), None);
}

#[test]
fn acpi_root_pointer_is_first_acpi_entry() {
    let acpi2 = 0x8868_e871_e4f1_11d3_bc22_0080_c73c_8881u128;
    let acpi1 = 0xeb9d_2d30_2d88_11d3_9a16_0090_273f_c14du128;
    let table = [(7u128, 0x10usize), (acpi1, 0x20), (acpi2, 0x30)];
    assert_eq!(acpi_rsdp(&table, acpi2, acpi1), Some(0x20));
    assert_eq!(acpi_rsdp(&table[2..], acpi2, acpi1), Some(0x30));
    assert_eq!(acpi_rsdp(&table[..1], acpi2, acpi1), None);
}
