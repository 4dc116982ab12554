# kernel_kit

Verified building blocks of a small kernel, written in Verus.

- `src/paging`: a page table generic over page size, number of levels and
  entry format. Mapping is proved to give every requested page the
  translation it asked for (through huge pages where they are allowed and
  the request is aligned to them, only through huge pages when the whole
  request is), to keep every existing translation, and to refuse a range
  whose first page is mapped without touching the table.

  Level sizes follow the crate's unit tests: `level_size(l)` is the page
  size times `2^(9 * l)` for the block levels `1..=MAX_BLOCK_LEVEL` and the
  page size at `LEVEL`. The walk goes from the root (`LEVEL`) down to the
  last table (1) and indexes the table at level `w` with
  `virt_to_index(va, LEVEL + 1 - w)`, so that the root takes the highest
  bits and a huge page of block level 1 is one entry of the table at
  level 2. Three tests expect other level sizes (the page size at level 1,
  2 MiB or 1 MiB alignment at level 2: `test_address_calculations`,
  `test_alignment_checks`, `test_std_alignment_checks`); they contradict
  those unit tests, and `level_size` cannot meet both, so they are left
  out.
- `src/dwmac`: the CVitek DWMAC (SG2002) Ethernet controller: DMA
  descriptors, register programming, MDIO and PHY handling, the internal
  PHY's start-up sequence, the transmit and receive rings, and the
  controller's configuration from a device-tree node.
- `src/net`: the Ethernet adapter of the network stack: frame filtering,
  VLAN stripping, ARP resolution with a neighbour cache, and the queue of
  packets that wait for their next hop. Its behaviour is stated as
  functions on an abstract state (`net/model.rs`), with the properties that
  tie several operations together proved there.
- `src/boot`: UEFI status and console helpers, the early bump allocator and
  the placement of the temporary page-frame heap.

`app/` holds what cannot be verified: volatile register and descriptor
access, the driver side of the Ethernet adapter, the UEFI system table, the
global allocators and the kernel services of the platform layer.
