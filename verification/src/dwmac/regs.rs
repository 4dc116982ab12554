//! The register window of the DWMAC and the values programmed into it.

use vstd::prelude::*;

verus! {

pub const GMAC_CONTROL: usize = 0x0000;
pub const GMAC_FRAME_FILTER: usize = 0x0004;
pub const GMAC_MII_ADDR: usize = 0x0010;
pub const GMAC_MII_DATA: usize = 0x0014;
pub const GMAC_FLOW_CTRL: usize = 0x0018;
pub const GMAC_DEBUG: usize = 0x0024;
pub const GMAC_INT_MASK: usize = 0x003c;
pub const GMAC_ADDR0_HIGH: usize = 0x0040;
pub const GMAC_ADDR0_LOW: usize = 0x0044;

pub const DMA_BUS_MODE: usize = 0x1000;
pub const DMA_TX_POLL_DEMAND: usize = 0x1004;
pub const DMA_RX_POLL_DEMAND: usize = 0x1008;
pub const DMA_RX_BASE_ADDR: usize = 0x100c;
pub const DMA_TX_BASE_ADDR: usize = 0x1010;
pub const DMA_STATUS: usize = 0x1014;
pub const DMA_CONTROL: usize = 0x1018;
pub const DMA_INTR_ENA: usize = 0x101c;
pub const DMA_MISSED_FRAME_CTR: usize = 0x1020;
pub const DMA_AXI_BUS_MODE: usize = 0x1028;
pub const DMA_CUR_RX_BUF_ADDR: usize = 0x1054;
pub const DMA_HW_FEATURE: usize = 0x1058;

pub const DMA_BUS_MODE_SFT_RESET: u32 = 1;
pub const DMA_BUS_MODE_PBL_SHIFT: u32 = 8;
pub const DMA_BUS_MODE_RPBL_SHIFT: u32 = 17;
pub const DMA_BUS_MODE_USP: u32 = 0x80_0000;
pub const DMA_BUS_MODE_AAL: u32 = 0x200_0000;

pub const DMA_AXI_WR_OSR_LMT_MASK: u32 = 0xf0_0000;
pub const DMA_AXI_WR_OSR_LMT_SHIFT: u32 = 20;
pub const DMA_AXI_RD_OSR_LMT_MASK: u32 = 0xf_0000;
pub const DMA_AXI_RD_OSR_LMT_SHIFT: u32 = 16;
pub const DMA_AXI_BURST_LEN_MASK: u32 = 0x0000_00fe;
pub const DMA_AXI_BLEN16: u32 = 0x8;
pub const DMA_AXI_BLEN8: u32 = 0x4;
pub const DMA_AXI_BLEN4: u32 = 0x2;

pub const DMA_CONTROL_SR: u32 = 0x2;
pub const DMA_CONTROL_ST: u32 = 0x2000;
pub const DMA_CONTROL_OSF: u32 = 0x4;
pub const DMA_CONTROL_TSF: u32 = 0x20_0000;
pub const DMA_CONTROL_RSF: u32 = 0x200_0000;

pub const DMA_STATUS_TI: u32 = 0x1;
pub const DMA_STATUS_TPS: u32 = 0x2;
pub const DMA_STATUS_TU: u32 = 0x4;
pub const DMA_STATUS_RI: u32 = 0x40;
pub const DMA_STATUS_RU: u32 = 0x80;
pub const DMA_STATUS_RPS: u32 = 0x100;
pub const DMA_STATUS_FBI: u32 = 0x2000;
pub const DMA_STATUS_NIS: u32 = 0x1_0000;
pub const DMA_STATUS_AIS: u32 = 0x8000;
/// The status bits acknowledged by writing them back.
pub const DMA_STATUS_ACK_MASK: u32 = 0x1_a1c7;

pub const DMA_INTR_ENA_NIE: u32 = 0x1_0000;
pub const DMA_INTR_ENA_AIE: u32 = 0x8000;
pub const DMA_INTR_ENA_FBE: u32 = 0x2000;
pub const DMA_INTR_ENA_RIE: u32 = 0x40;
pub const DMA_INTR_ENA_TIE: u32 = 0x1;
/// Normal and abnormal summaries, fatal bus error, receive and transmit.
pub const DMA_INTR_DEFAULT_MASK: u32 = 0x1_a041;

pub const GMAC_CONTROL_JD: u32 = 0x40_0000;
pub const GMAC_CONTROL_BE: u32 = 0x20_0000;
pub const GMAC_CONTROL_DCRS: u32 = 0x1_0000;
pub const GMAC_CONTROL_PS: u32 = 0x8000;
pub const GMAC_CONTROL_FES: u32 = 0x4000;
pub const GMAC_CONTROL_DM: u32 = 0x800;
pub const GMAC_CONTROL_IPC: u32 = 0x400;
pub const GMAC_CONTROL_ACS: u32 = 0x80;
pub const GMAC_CONTROL_TE: u32 = 0x8;
pub const GMAC_CONTROL_RE: u32 = 0x4;
/// Jabber and babble off, carrier sense ignored, MII 100 Mbit/s full
/// duplex, checksum offload, pad stripping, transmitter and receiver on.
pub const GMAC_CONTROL_INIT: u32 = 0x61_cc8c;

pub const GMAC_FRAME_FILTER_HPF: u32 = 0x400;
pub const GMAC_INT_DEFAULT_MASK: u32 = 0x207;
pub const GMAC_ADDR_HIGH_AE: u32 = 0x8000_0000;

/// Access to a window of 32-bit device registers. What a read returns is up
/// to the device.
pub trait RegisterIo: Copy {
    fn read32(&self, offset: usize) -> u32;

    fn write32(&self, offset: usize, value: u32);
}

/// The smaller of two bytes.
pub open spec fn min_u8(a: u8, b: u8) -> u8 {
    if a < b {
        a
    } else {
        b
    }
}

/// The DMA bus mode: `old` with the unaligned-PBL and address-aligned-beats
/// bits set and the transmit and receive burst lengths replaced by the given
/// ones, capped at 32.
pub fn dma_bus_mode_value(old: u32, txpbl: u8, rxpbl: u8) -> (r: u32)
    ensures
        (r >> 8u32) & 0x3f == min_u8(txpbl, 32) as u32,
        (r >> 17u32) & 0x3f == min_u8(rxpbl, 32) as u32,
        r & DMA_BUS_MODE_USP != 0,
        r & DMA_BUS_MODE_AAL != 0,
        r & !0x7e_3f00u32 == (old | DMA_BUS_MODE_USP | DMA_BUS_MODE_AAL) & !0x7e_3f00u32,
{
    let v0 = old | DMA_BUS_MODE_USP | DMA_BUS_MODE_AAL;
    let v = v0 & !((0x3f << DMA_BUS_MODE_PBL_SHIFT) | (0x3f << DMA_BUS_MODE_RPBL_SHIFT));
    let tx = (if txpbl < 32 { txpbl } else { 32 }) as u32;
    let rx = (if rxpbl < 32 { rxpbl } else { 32 }) as u32;
    let value = v | (tx << DMA_BUS_MODE_PBL_SHIFT) | (rx << DMA_BUS_MODE_RPBL_SHIFT);
    assert(v & 0x7e_3f00u32 == 0 && v & 0x80_0000u32 != 0 && v & 0x200_0000u32 != 0 && v
        & !0x7e_3f00u32 == v0 & !0x7e_3f00u32) by (bit_vector)
        requires
            v0 == old | 0x80_0000u32 | 0x200_0000u32,
            v == v0 & !((0x3fu32 << 8u32) | (0x3fu32 << 17u32)),
    ;
    assert({
        let r = v | (tx << 8u32) | (rx << 17u32);
        &&& (r >> 8u32) & 0x3f == tx
        &&& (r >> 17u32) & 0x3f == rx
        &&& r & 0x80_0000u32 != 0
        &&& r & 0x200_0000u32 != 0
        &&& r & !0x7e_3f00u32 == v & !0x7e_3f00u32
    }) by (bit_vector)
        requires
            tx <= 32,
            rx <= 32,
            v & 0x7e_3f00u32 == 0,
            v & 0x80_0000u32 != 0,
            v & 0x200_0000u32 != 0,
    ;
    value
}

/// The AXI bus mode: `old` with one outstanding write, two outstanding reads
/// and bursts of 4, 8 and 16 beats.
pub fn axi_bus_mode_value(old: u32) -> (r: u32)
    ensures
        (r >> 20u32) & 0xf == 1,
        (r >> 16u32) & 0xf == 2,
        r & DMA_AXI_BURST_LEN_MASK == DMA_AXI_BLEN16 | DMA_AXI_BLEN8 | DMA_AXI_BLEN4,
        r & !0xff_00feu32 == old & !0xff_00feu32,
{
    let mut value = old;
    value = value & !(DMA_AXI_WR_OSR_LMT_MASK | DMA_AXI_RD_OSR_LMT_MASK | DMA_AXI_BURST_LEN_MASK);
    value = value | (1 << DMA_AXI_WR_OSR_LMT_SHIFT) | (2 << DMA_AXI_RD_OSR_LMT_SHIFT) | DMA_AXI_BLEN16
        | DMA_AXI_BLEN8 | DMA_AXI_BLEN4;
    assert(((old & !(0xf0_0000u32 | 0xf_0000u32 | 0xfeu32)) | (1u32 << 20u32) | (2u32 << 16u32) | 0x8u32
        | 0x4u32 | 0x2u32) == ((old & !0xff_00feu32) | 0x12_000eu32)) by (bit_vector);
    assert({
        let r = (old & !0xff_00feu32) | 0x12_000eu32;
        &&& (r >> 20u32) & 0xf == 1
        &&& (r >> 16u32) & 0xf == 2
        &&& r & 0xfeu32 == 0xeu32
        &&& r & !0xff_00feu32 == old & !0xff_00feu32
    }) by (bit_vector);
    assert(0x8u32 | 0x4u32 | 0x2u32 == 0xeu32) by (bit_vector);
    value
}

/// The DMA control value with store-and-forward for both directions and
/// operate-on-second-frame set.
pub fn store_forward_value(old: u32) -> (r: u32)
    ensures
        r == old | DMA_CONTROL_TSF | DMA_CONTROL_RSF | DMA_CONTROL_OSF,
{
    old | DMA_CONTROL_TSF | DMA_CONTROL_RSF | DMA_CONTROL_OSF
}

/// The bus mode value that requests a DMA soft reset: `old` with the reset
/// bit set.
pub fn reset_request_value(old: u32) -> (r: u32)
    ensures
        r == old | DMA_BUS_MODE_SFT_RESET,
{
    old | DMA_BUS_MODE_SFT_RESET
}

/// Whether a DMA soft reset is over, judged by the bus mode value read: the
/// device clears the reset bit when it is done.
pub fn reset_complete(bus_mode: u32) -> (r: bool)
    ensures
        r == (bus_mode & DMA_BUS_MODE_SFT_RESET == 0),
{
    bus_mode & DMA_BUS_MODE_SFT_RESET == 0
}

/// The bits of `status` that are acknowledged by writing them back.
pub fn dma_status_ack(status: u32) -> (r: u32)
    ensures
        r == status & DMA_STATUS_ACK_MASK,
{
    assert(0x1u32 | 0x2u32 | 0x4u32 | 0x40u32 | 0x80u32 | 0x100u32 | 0x2000u32 | 0x1_0000u32
        | 0x8000u32 == 0x1_a1c7u32) by (bit_vector);
    status & (DMA_STATUS_TI | DMA_STATUS_TPS | DMA_STATUS_TU | DMA_STATUS_RI | DMA_STATUS_RU
        | DMA_STATUS_RPS | DMA_STATUS_FBI | DMA_STATUS_NIS | DMA_STATUS_AIS)
}

/// The address registers for `mac`: bytes 0..4 little-endian in the low
/// register, bytes 4 and 5 and the address-enable bit in the high one.
pub open spec fn mac_registers_spec(mac: [u8; 6]) -> (u32, u32) {
    (
        (mac[0] as u32) | ((mac[1] as u32) << 8u32) | ((mac[2] as u32) << 16u32) | ((mac[3] as u32)
            << 24u32),
        (mac[4] as u32) | ((mac[5] as u32) << 8u32) | GMAC_ADDR_HIGH_AE,
    )
}

/// The MAC address held by the address registers.
pub open spec fn mac_from_registers_spec(low: u32, high: u32) -> [u8; 6] {
    [
        (low & 0xff) as u8,
        ((low >> 8u32) & 0xff) as u8,
        ((low >> 16u32) & 0xff) as u8,
        ((low >> 24u32) & 0xff) as u8,
        (high & 0xff) as u8,
        ((high >> 8u32) & 0xff) as u8,
    ]
}

/// The address register values for `mac`.
pub fn mac_address_registers(mac: [u8; 6]) -> (r: (u32, u32))
    ensures
        r == mac_registers_spec(mac),
{
    let low = (mac[0] as u32) | ((mac[1] as u32) << 8) | ((mac[2] as u32) << 16) | ((mac[3] as u32)
        << 24);
    let high = (mac[4] as u32) | ((mac[5] as u32) << 8) | GMAC_ADDR_HIGH_AE;
    (low, high)
}

/// The MAC address held by the address registers.
pub fn mac_from_registers(low: u32, high: u32) -> (r: [u8; 6])
    ensures
        r == mac_from_registers_spec(low, high),
{
    [
        (low & 0xff) as u8,
        ((low >> 8) & 0xff) as u8,
        ((low >> 16) & 0xff) as u8,
        ((low >> 24) & 0xff) as u8,
        (high & 0xff) as u8,
        ((high >> 8) & 0xff) as u8,
    ]
}

/// Reading back the address registers written for a MAC address gives that
/// address.
pub proof fn lemma_mac_registers_roundtrip(mac: [u8; 6])
    ensures
        mac_from_registers_spec(mac_registers_spec(mac).0, mac_registers_spec(mac).1) == mac,
{
    let (a, b, c, d, e, f) = (mac[0], mac[1], mac[2], mac[3], mac[4], mac[5]);
    let low = mac_registers_spec(mac).0;
    let high = mac_registers_spec(mac).1;
    assert(((low & 0xff) as u8) == a && (((low >> 8u32) & 0xff) as u8) == b && (((low >> 16u32)
        & 0xff) as u8) == c && (((low >> 24u32) & 0xff) as u8) == d) by (bit_vector)
        requires
            low == (a as u32) | ((b as u32) << 8u32) | ((c as u32) << 16u32) | ((d as u32) << 24u32),
    ;
    assert(((high & 0xff) as u8) == e && (((high >> 8u32) & 0xff) as u8) == f) by (bit_vector)
        requires
            high == (e as u32) | ((f as u32) << 8u32) | 0x8000_0000u32,
    ;
    assert(mac_from_registers_spec(low, high) =~= mac);
}

/// The register window of one controller.
#[derive(Clone, Copy)]
pub struct Regs<B> {
    io: B,
}

impl<B: RegisterIo> Regs<B> {
    /// Wraps a register window.
    pub fn new(io: B) -> (r: Self)
        ensures
            r.io() == io,
    {
        Regs { io }
    }

    /// The register window.
    pub closed spec fn io(&self) -> B {
        self.io
    }

    pub fn read(self, offset: usize) -> u32 {
        self.io.read32(offset)
    }

    pub fn write(self, offset: usize, value: u32) {
        self.io.write32(offset, value)
    }

    /// Starts a DMA soft reset and waits for it to complete; `false` when it
    /// is still running after 200000 polls. Each poll is judged by
    /// `reset_complete` on the bus mode value read.
    pub fn reset_dma(self) -> bool {
        self.write(DMA_BUS_MODE, reset_request_value(self.read(DMA_BUS_MODE)));
        let mut i: u32 = 0;
        while i < 200_000
            decreases 200_000 - i,
        {
            if reset_complete(self.read(DMA_BUS_MODE)) {
                return true;
            }
            spin_loop_hint();
            i = i + 1;
        }
        false
    }

    /// Programs the DMA bus mode with the given burst lengths.
    pub fn init_dma_bus(self, txpbl: u8, rxpbl: u8) {
        let value = dma_bus_mode_value(self.read(DMA_BUS_MODE), txpbl, rxpbl);
        self.write(DMA_BUS_MODE, value);
    }

    /// Programs the AXI bus mode.
    pub fn init_axi_bus(self) {
        let value = axi_bus_mode_value(self.read(DMA_AXI_BUS_MODE));
        self.write(DMA_AXI_BUS_MODE, value);
    }

    /// Masks interrupts, sets the frame filter, the MAC address and the MAC
    /// configuration.
    pub fn init_mac(self, mac: [u8; 6]) {
        self.write(DMA_INTR_ENA, 0);
        self.write(GMAC_INT_MASK, GMAC_INT_DEFAULT_MASK);
        self.write(GMAC_FLOW_CTRL, 0);
        self.write(GMAC_FRAME_FILTER, GMAC_FRAME_FILTER_HPF);
        self.write_mac_address(mac);
        self.write(GMAC_CONTROL, GMAC_CONTROL_INIT);
    }

    /// The MAC address in the address registers.
    pub fn read_mac_address(self) -> [u8; 6] {
        let low = self.read(GMAC_ADDR0_LOW);
        let high = self.read(GMAC_ADDR0_HIGH);
        mac_from_registers(low, high)
    }

    /// Enables store-and-forward mode.
    pub fn configure_store_forward(self) {
        let value = store_forward_value(self.read(DMA_CONTROL));
        self.write(DMA_CONTROL, value);
    }

    /// Sets the receive descriptor ring base (low 32 bits).
    pub fn write_rx_desc_base(self, addr: u64) {
        self.write(DMA_RX_BASE_ADDR, addr as u32);
    }

    /// Sets the transmit descriptor ring base (low 32 bits).
    pub fn write_tx_desc_base(self, addr: u64) {
        self.write(DMA_TX_BASE_ADDR, addr as u32);
    }

    /// Starts the transmit DMA and the transmitter.
    pub fn start_tx(self) {
        self.write(DMA_CONTROL, self.read(DMA_CONTROL) | DMA_CONTROL_ST);
        self.write(GMAC_CONTROL, self.read(GMAC_CONTROL) | GMAC_CONTROL_TE);
    }

    /// Starts the receive DMA and the receiver.
    pub fn start_rx(self) {
        self.write(DMA_CONTROL, self.read(DMA_CONTROL) | DMA_CONTROL_SR);
        self.write(GMAC_CONTROL, self.read(GMAC_CONTROL) | GMAC_CONTROL_RE);
    }

    /// Stops both DMA directions, the transmitter and the receiver.
    pub fn stop_tx_rx(self) {
        self.write(DMA_CONTROL, self.read(DMA_CONTROL) & !(DMA_CONTROL_ST | DMA_CONTROL_SR));
        self.write(GMAC_CONTROL, self.read(GMAC_CONTROL) & !(GMAC_CONTROL_TE | GMAC_CONTROL_RE));
    }

    /// Acknowledges pending status and enables the default interrupts.
    pub fn enable_irq(self) {
        self.write(DMA_STATUS, DMA_STATUS_ACK_MASK);
        self.write(DMA_INTR_ENA, DMA_INTR_DEFAULT_MASK);
    }

    /// Disables all DMA interrupts.
    pub fn disable_irq(self) {
        self.write(DMA_INTR_ENA, 0);
    }

    /// Whether any DMA interrupt is enabled.
    pub fn irq_enabled(self) -> bool {
        self.read(DMA_INTR_ENA) != 0
    }

    /// Reads the DMA status and acknowledges its acknowledgeable bits.
    pub fn take_dma_status(self) -> u32 {
        let status = self.read(DMA_STATUS);
        let ack = dma_status_ack(status);
        if ack != 0 {
            self.write(DMA_STATUS, ack);
        }
        status
    }

    pub fn dma_status(self) -> u32 {
        self.read(DMA_STATUS)
    }

    /// Asks the transmit DMA to poll its ring.
    pub fn poll_tx(self) {
        self.write(DMA_TX_POLL_DEMAND, 0);
    }

    /// Asks the receive DMA to poll its ring.
    pub fn poll_rx(self) {
        self.write(DMA_RX_POLL_DEMAND, 0);
    }

    pub fn hw_feature(self) -> u32 {
        self.read(DMA_HW_FEATURE)
    }

    pub fn axi_bus_mode(self) -> u32 {
        self.read(DMA_AXI_BUS_MODE)
    }

    pub fn current_rx_buffer(self) -> u32 {
        self.read(DMA_CUR_RX_BUF_ADDR)
    }

    pub fn gmac_debug(self) -> u32 {
        self.read(GMAC_DEBUG)
    }

    pub fn missed_frame_counter(self) -> u32 {
        self.read(DMA_MISSED_FRAME_CTR)
    }

    pub fn mii_addr(self) -> u32 {
        self.read(GMAC_MII_ADDR)
    }

    pub fn write_mii_addr(self, value: u32) {
        self.write(GMAC_MII_ADDR, value);
    }

    pub fn mii_data(self) -> u32 {
        self.read(GMAC_MII_DATA)
    }

    pub fn write_mii_data(self, value: u32) {
        self.write(GMAC_MII_DATA, value);
    }

    /// Writes `mac` into the address registers, low register first.
    pub fn write_mac_address(self, mac: [u8; 6]) {
        let (low, high) = mac_address_registers(mac);
        self.write(GMAC_ADDR0_LOW, low);
        self.write(GMAC_ADDR0_HIGH, high);
    }
}

/// core's `hint::spin_loop`: tells the processor that it is in a busy-wait
/// loop. Nothing is stated of it.
#[verifier::external_body]
pub(crate) fn spin_loop_hint() {
    core::hint::spin_loop()
}

} // verus!
