use std::collections::HashMap;
use std::sync::Mutex;

use kernel_kit::dwmac::descriptor::{
    DmaDesc, ETH_FCS_LEN, RDES0_FIRST_DESCRIPTOR, RDES0_FRAME_LEN_SHIFT, RDES0_LAST_DESCRIPTOR,
    RDES1_END_RING, TDES1_BUFFER1_SIZE_MASK, TDES1_END_RING,
};
use kernel_kit::dwmac::driver::{irq_event, select_mac, CvitekDwmac};
use kernel_kit::dwmac::ephy::{fallback_init_sequence, init_plan, EphyStep, EphyTuning, EphyWindow};
use kernel_kit::dwmac::error::{is_usable_mac, CvitekDwmacConfig, Error, PhyMode};
use kernel_kit::dwmac::mdio::{Mdio, MII_BUSY, MII_WRITE, PHY_ADDR_MASK, PHY_ADDR_SHIFT, PHY_REG_MASK, PHY_REG_SHIFT};
use kernel_kit::dwmac::phy::{phy_id, status_from_bmsr};
use std::cell::RefCell;
use std::rc::Rc;

use kernel_kit::dwmac::descriptor::{RDES0_OWN, TDES0_OWN};
use kernel_kit::dwmac::queue::{DescRing, DmaBuffer, QueueError, RxQueue, TxQueue, RX_QUEUE_ID, TX_QUEUE_ID};
use kernel_kit::dwmac::error::QueueConfig;
use kernel_kit::dwmac::regs::{
    dma_status_ack, mac_address_registers, mac_from_registers, reset_complete, RegisterIo, Regs, DMA_STATUS_RI,
    DMA_STATUS_TI,
};

/// A register window backed by a map, unwritten registers reading as zero,
/// with PHYs behind its MDIO registers that complete each operation at once.
#[derive(Clone, Copy)]
struct FakeRegs {
    cells: &'static Mutex<HashMap<usize, u32>>,
    phy_regs: &'static Mutex<HashMap<(u32, u32), u32>>,
}

impl FakeRegs {
    fn new() -> Self {
        Self {
            cells: Box::leak(Box::new(Mutex::new(HashMap::new()))),
            phy_regs: Box::leak(Box::new(Mutex::new(HashMap::new()))),
        }
    }
}

impl RegisterIo for FakeRegs {
    fn read32(&self, offset: usize) -> u32 {
        *self.cells.lock().unwrap().get(&offset).unwrap_or(&0)
    }

    fn write32(&self, offset: usize, value: u32) {
        let mut cells = self.cells.lock().unwrap();
        if offset == 0x0010 && value & MII_BUSY != 0 {
            let key = ((value & PHY_ADDR_MASK) >> PHY_ADDR_SHIFT, (value & PHY_REG_MASK) >> PHY_REG_SHIFT);
            let mut phy_regs = self.phy_regs.lock().unwrap();
            if value & MII_WRITE != 0 {
                phy_regs.insert(key, *cells.get(&0x0014).unwrap_or(&0));
            } else {
                cells.insert(0x0014, *phy_regs.get(&key).unwrap_or(&0xffff));
            }
            cells.insert(offset, value & !MII_BUSY);
        } else if offset == 0x1000 {
            // The DMA soft reset completes at once.
            cells.insert(offset, value & !1);
        } else {
            cells.insert(offset, value);
        }
    }
}

#[test]
fn fallback_sequence_contains_final_page0_restore() {
    let seq = fallback_init_sequence(EphyTuning::default());
    assert!(seq.len() > 80);
    assert_eq!(seq.last(), Some(&(0x7c, 0x0000)));
}

#[test]
fn fallback_sequence_contains_sg2002_cv181x_tail_tuning() {
    let seq = fallback_init_sequence(EphyTuning::default());
    assert!(seq.windows(2).any(|window| window == [(0x7c, 0x1300), (0x58, 0x0012)]));
    assert!(seq
        .windows(3)
        .any(|window| window == [(0x7c, 0x1200), (0x48, 0x0808), (0x4c, 0x0808)]));
}

#[test]
fn tx_descriptor_ownership_and_length_bits() {
    let desc = DmaDesc::tx(0x8000_1000, 1500, true).unwrap();
    assert!(!desc.tx_owned_by_hw());
    assert_eq!(desc.des1 & TDES1_BUFFER1_SIZE_MASK, 1500);
    assert_ne!(desc.des1 & TDES1_END_RING, 0);

    let hw = desc.release_tx_to_hw();
    assert!(hw.tx_owned_by_hw());
}

#[test]
fn tx_descriptor_rejects_unaddressable_buffer() {
    assert!(DmaDesc::tx(0x1_0000_0000, 64, false).is_none());
}

#[test]
fn rx_descriptor_ownership_and_frame_len() {
    let desc = DmaDesc::rx(0x8000_2000, 2048, true).unwrap();
    assert!(desc.rx_owned_by_hw());
    assert_ne!(desc.des1 & RDES1_END_RING, 0);

    let done = DmaDesc {
        des0: RDES0_FIRST_DESCRIPTOR
            | RDES0_LAST_DESCRIPTOR
            | ((96 + ETH_FCS_LEN as u32) << RDES0_FRAME_LEN_SHIFT),
        ..desc
    };
    assert!(!done.rx_owned_by_hw());
    assert!(done.rx_complete_single_frame());
    assert_eq!(done.rx_frame_len(), 96);
}

#[test]
fn rx_frame_len_saturates_when_hardware_reports_short_frame() {
    let done = DmaDesc {
        des0: RDES0_FIRST_DESCRIPTOR | RDES0_LAST_DESCRIPTOR | (2 << RDES0_FRAME_LEN_SHIFT),
        ..DmaDesc::default()
    };
    assert_eq!(done.rx_frame_len(), 0);
}

#[test]
fn config_defaults_match_sg2002_constraints() {
    let cfg = CvitekDwmacConfig::new([2, 0, 0, 0x20, 0x02, 0]);
    assert_eq!(cfg.dma_mask, (1_u64 << 40) - 1);
    assert_eq!(cfg.phy_mode, PhyMode::Rmii);
    assert!(!cfg.preserve_firmware_mac);
    assert!(cfg.validate().is_ok());
}

#[test]
fn mac_validation_rejects_empty_broadcast_and_multicast() {
    assert!(!is_usable_mac([0; 6]));
    assert!(!is_usable_mac([0xff; 6]));
    assert!(!is_usable_mac([0x01, 0, 0, 0, 0, 0]));
    assert!(is_usable_mac([0x96, 0xce, 0xb6, 0xce, 0xe1, 0x20]));
}

#[test]
fn irq_status_fans_out_to_queue_events() {
    let ev = irq_event(DMA_STATUS_TI | DMA_STATUS_RI);
    assert!(ev.tx_queue.contains(TX_QUEUE_ID));
    assert!(ev.rx_queue.contains(RX_QUEUE_ID));
}

#[test]
fn mdio_op_value_uses_gmac1000_layout() {
    let regs = Regs::new(FakeRegs::new());
    let mdio = Mdio::new(regs);
    let value = mdio.op_value(3, 4, true);
    assert_eq!((value & PHY_ADDR_MASK) >> PHY_ADDR_SHIFT, 3);
    assert_eq!((value & PHY_REG_MASK) >> PHY_REG_SHIFT, 4);
    assert_ne!(value & MII_WRITE, 0);
    assert_ne!(value & MII_BUSY, 0);
}

#[test]
fn irq_status_without_queue_bits_wakes_nothing() {
    let ev = irq_event(0);
    assert!(!ev.tx_queue.contains(TX_QUEUE_ID));
    assert!(!ev.rx_queue.contains(RX_QUEUE_ID));
}

#[test]
fn config_rejects_small_ring_and_bad_mac() {
    let mut cfg = CvitekDwmacConfig::new([2, 0, 0, 0x20, 0x02, 0]);
    cfg.ring_size = 2;
    assert_eq!(cfg.validate(), Err(Error::InvalidConfig));
    let cfg = CvitekDwmacConfig::new([0xff; 6]);
    assert_eq!(cfg.validate(), Err(Error::InvalidConfig));
}

#[test]
fn mac_registers_round_trip() {
    let mac = [0x96, 0xce, 0xb6, 0xce, 0xe1, 0x20];
    let (low, high) = mac_address_registers(mac);
    assert_eq!(mac_from_registers(low, high), mac);
}

#[test]
fn select_mac_prefers_usable_firmware_address_only_when_asked() {
    let configured = [2, 0, 0, 0x20, 2, 0];
    let firmware = [0x96, 0xce, 0xb6, 0xce, 0xe1, 0x20];
    assert_eq!(select_mac(configured, firmware, true), firmware);
    assert_eq!(select_mac(configured, firmware, false), configured);
    assert_eq!(select_mac(configured, [0; 6], true), configured);
}

#[test]
fn mdio_read_returns_data_register() {
    let mdio = Mdio::new(Regs::new(FakeRegs::new()));
    assert_eq!(mdio.write(1, 2, 0xbeef), Ok(()));
    assert_eq!(mdio.read(1, 2), Ok(0xbeef));
    assert_eq!(mdio.read(1, 3), Ok(0xffff));
}

#[test]
fn phy_id_and_status_decoding() {
    assert_eq!(phy_id(0xffff, 0xffff), None);
    assert_eq!(phy_id(0, 0), None);
    assert_eq!(phy_id(0x0243, 0x0c54), Some(0x0243_0c54));
    let status = status_from_bmsr(1, 0x0243_0c54, 0, 0x0004);
    println!("{:?}", status);
}

#[test]
fn dma_status_ack_keeps_only_acknowledgeable_bits() {
    let ack = dma_status_ack(DMA_STATUS_TI | DMA_STATUS_RI);
    assert_eq!(ack & (DMA_STATUS_TI | DMA_STATUS_RI), DMA_STATUS_TI | DMA_STATUS_RI);
}

/// A descriptor ring that the test can also reach, playing the device.
#[derive(Clone)]
struct SharedRing {
    descs: Rc<RefCell<Vec<DmaDesc>>>,
}

impl SharedRing {
    fn new(n: usize) -> Self {
        Self { descs: Rc::new(RefCell::new(vec![DmaDesc::default(); n])) }
    }

    /// The device finishes descriptor `idx`, setting `des0` to `status`.
    fn complete(&self, idx: usize, status: u32) {
        self.descs.borrow_mut()[idx].des0 = status;
    }

    fn owned(&self, idx: usize) -> bool {
        self.descs.borrow()[idx].des0 & TDES0_OWN != 0
    }
}

impl DescRing for SharedRing {
    fn len(&self) -> usize {
        self.descs.borrow().len()
    }

    fn dma_addr(&self) -> u64 {
        0x8000_0000
    }

    fn set_cpu(&mut self, idx: usize, desc: DmaDesc) {
        self.descs.borrow_mut()[idx] = desc;
    }

    fn read_cpu(&self, idx: usize) -> Option<DmaDesc> {
        self.descs.borrow().get(idx).copied()
    }
}

fn queue_config() -> QueueConfig {
    QueueConfig { dma_mask: (1u64 << 40) - 1, align: 32, buf_size: 1536, ring_size: 4 }
}

#[test]
fn tx_queue_reclaims_frames_in_submit_order() {
    let ring = SharedRing::new(4);
    let mut q = TxQueue::new(Regs::new(FakeRegs::new()), ring.clone(), queue_config()).unwrap();
    for addr in [0x1000u64, 0x2000, 0x3000] {
        assert_eq!(q.submit(DmaBuffer { bus_addr: addr, len: 64 }), Ok(()));
    }
    assert!(ring.owned(0) && ring.owned(1) && ring.owned(2));
    assert_eq!(q.reclaim(), None);
    ring.complete(0, 0);
    ring.complete(1, 0);
    assert_eq!(q.reclaim(), Some(0x1000));
    assert_eq!(q.reclaim(), Some(0x2000));
    assert_eq!(q.reclaim(), None);
}

#[test]
fn tx_queue_full_ring_asks_to_retry_and_oversize_is_refused() {
    let ring = SharedRing::new(4);
    let mut q = TxQueue::new(Regs::new(FakeRegs::new()), ring, queue_config()).unwrap();
    assert_eq!(q.submit(DmaBuffer { bus_addr: 0x1000, len: 2000 }), Err(QueueError::NotSupported));
    for i in 0..4u64 {
        assert_eq!(q.submit(DmaBuffer { bus_addr: 0x1000 * (i + 1), len: 64 }), Ok(()));
    }
    assert_eq!(q.submit(DmaBuffer { bus_addr: 0x9000, len: 64 }), Err(QueueError::Retry));
}

#[test]
fn rx_queue_returns_received_frames_in_order() {
    let ring = SharedRing::new(4);
    let mut q = RxQueue::new(Regs::new(FakeRegs::new()), ring.clone(), queue_config()).unwrap();
    assert_eq!(q.submit(DmaBuffer { bus_addr: 0x1000, len: 100 }), Err(QueueError::NotSupported));
    assert_eq!(q.submit(DmaBuffer { bus_addr: 0x1000, len: 1536 }), Ok(()));
    assert_eq!(q.submit(DmaBuffer { bus_addr: 0x2000, len: 1536 }), Ok(()));
    assert_ne!(ring.descs.borrow()[0].des0 & RDES0_OWN, 0);
    assert_eq!(q.reclaim(), None);
    ring.complete(0, RDES0_FIRST_DESCRIPTOR | RDES0_LAST_DESCRIPTOR | ((64 + 4) << RDES0_FRAME_LEN_SHIFT));
    assert_eq!(q.reclaim(), Some((0x1000, 64)));
    assert_eq!(q.reclaim(), None);
}

/// A ring the device would see above 4 GiB.
struct HighRing;

impl DescRing for HighRing {
    fn len(&self) -> usize {
        4
    }

    fn dma_addr(&self) -> u64 {
        0x1_0000_0000
    }

    fn set_cpu(&mut self, _idx: usize, _desc: DmaDesc) {}

    fn read_cpu(&self, _idx: usize) -> Option<DmaDesc> {
        None
    }
}

#[test]
fn queue_on_a_ring_above_4g_is_refused() {
    assert!(matches!(
        TxQueue::new(Regs::new(FakeRegs::new()), HighRing, queue_config()),
        Err(Error::DmaAddressTooWide)
    ));
}

const MAC: [u8; 6] = [2, 0, 0, 0x20, 0x02, 0];

#[test]
fn controller_irq_reports_queues_of_the_device_status() {
    let io = FakeRegs::new();
    let mut cfg = CvitekDwmacConfig::new(MAC);
    cfg.configure_phy = false;
    let mut dev = CvitekDwmac::new(io, cfg).ok().unwrap();
    assert_eq!(dev.phy_status(), Ok(None));
    io.write32(0x1014, DMA_STATUS_TI);
    let ev = dev.handle_irq();
    assert!(ev.tx_queue.contains(TX_QUEUE_ID));
    assert!(!ev.rx_queue.contains(RX_QUEUE_ID));
    let mut handler = dev.take_irq_handler().unwrap();
    io.write32(0x1014, DMA_STATUS_RI);
    let ev = handler.handle_irq();
    assert!(!ev.tx_queue.contains(TX_QUEUE_ID));
    assert!(ev.rx_queue.contains(RX_QUEUE_ID));
    dev.enable_irq();
    assert!(dev.is_irq_enabled());
    dev.disable_irq();
    assert!(!dev.is_irq_enabled());
}

#[test]
fn controller_with_phy_reports_its_status() {
    let io = FakeRegs::new();
    {
        let mut phys = io.phy_regs.lock().unwrap();
        phys.insert((1, 2), 0x0243);
        phys.insert((1, 3), 0x0c54);
        phys.insert((1, 1), 0x0024);
    }
    let dev = CvitekDwmac::new(io, CvitekDwmacConfig::new(MAC)).ok().unwrap();
    let status = dev.phy_status().unwrap().unwrap();
    assert_eq!(status.addr, 1);
    assert_eq!(status.id, 0x0243_0c54);
    assert!(status.link_up);
    assert!(status.autoneg_complete);
}

#[test]
fn tx_reclaim_follows_the_own_bit_of_the_descriptor_read() {
    let ring = SharedRing::new(4);
    let mut q = TxQueue::new(Regs::new(FakeRegs::new()), ring.clone(), queue_config()).unwrap();
    let still_owned = DmaDesc { des0: TDES0_OWN, ..DmaDesc::default() };
    let released = DmaDesc::default();
    assert_eq!(q.reclaim_desc(released), None);
    assert_eq!(q.submit(DmaBuffer { bus_addr: 0x1000, len: 64 }), Ok(()));
    assert_eq!(q.reclaim_desc(still_owned), None);
    // A frame that reported an error is reclaimed and its slot cleared.
    assert_eq!(q.reclaim_desc(DmaDesc { des0: 0x8000, ..DmaDesc::default() }), Some(0x1000));
    assert_eq!(ring.descs.borrow()[0], DmaDesc::empty_tx(false));
    assert_eq!(q.reclaim_desc(released), None);
}

#[test]
fn rx_reclaim_reports_the_length_of_the_descriptor_read() {
    let ring = SharedRing::new(4);
    let mut q = RxQueue::new(Regs::new(FakeRegs::new()), ring.clone(), queue_config()).unwrap();
    assert_eq!(q.submit(DmaBuffer { bus_addr: 0x1000, len: 1536 }), Ok(()));
    assert_eq!(q.submit(DmaBuffer { bus_addr: 0x2000, len: 1536 }), Ok(()));
    assert_eq!(q.submit(DmaBuffer { bus_addr: 0x3000, len: 1536 }), Ok(()));
    assert_eq!(q.reclaim_desc(DmaDesc { des0: RDES0_OWN, ..DmaDesc::default() }), None);
    let good = RDES0_FIRST_DESCRIPTOR | RDES0_LAST_DESCRIPTOR | ((100 + 4) << RDES0_FRAME_LEN_SHIFT);
    assert_eq!(q.reclaim_desc(DmaDesc { des0: good, ..DmaDesc::default() }), Some((0x1000, 100)));
    // A frame with an error, or spread over several descriptors, has length 0.
    assert_eq!(q.reclaim_desc(DmaDesc { des0: good | 0x8000, ..DmaDesc::default() }), Some((0x2000, 0)));
    assert_eq!(
        q.reclaim_desc(DmaDesc { des0: RDES0_FIRST_DESCRIPTOR | (100 << RDES0_FRAME_LEN_SHIFT), ..DmaDesc::default() }),
        Some((0x3000, 0))
    );
}

#[test]
fn submitted_descriptors_are_handed_to_the_device() {
    let ring = SharedRing::new(4);
    let mut tx = TxQueue::new(Regs::new(FakeRegs::new()), ring.clone(), queue_config()).unwrap();
    assert_eq!(ring.descs.borrow()[3], DmaDesc::empty_tx(true));
    assert_eq!(tx.submit(DmaBuffer { bus_addr: 0x1000, len: 64 }), Ok(()));
    assert_eq!(ring.descs.borrow()[0], DmaDesc::tx(0x1000, 64, false).unwrap().release_tx_to_hw());

    let rx_ring = SharedRing::new(2);
    let io = FakeRegs::new();
    let mut rx = RxQueue::new(Regs::new(io), rx_ring.clone(), queue_config()).unwrap();
    assert_eq!(rx.submit(DmaBuffer { bus_addr: 0x2000, len: 1536 }), Ok(()));
    assert_eq!(rx_ring.descs.borrow()[0], DmaDesc::rx(0x2000, 1536, false).unwrap());
    // The receive DMA and the receiver are started.
    assert_ne!(io.read32(0x1018) & 0x2, 0);
    assert_ne!(io.read32(0x0000) & 0x4, 0);
}

#[test]
fn dma_reset_is_over_when_the_reset_bit_clears() {
    assert!(reset_complete(0x0002_0000));
    assert!(!reset_complete(0x0002_0001));
}

#[test]
fn phy_bring_up_plan_runs_the_fallback_sequence_between_reset_and_enable() {
    let tuning = EphyTuning::default();
    let plan = init_plan(tuning);
    assert_eq!(plan[0], EphyStep::Write { window: EphyWindow::TopWrap, offset: 0x04, value: 0x0001 });
    assert_eq!(plan[1], EphyStep::ClearBits { window: EphyWindow::Analog, offset: 0x00, bits: 0x0003 });
    assert_eq!(plan[2], EphyStep::SettleDelay);
    assert_eq!(plan[4], EphyStep::Write { window: EphyWindow::Analog, offset: 0x64, value: 0x5a5a });
    let n = plan.len();
    assert_eq!(plan[n - 1], EphyStep::Write { window: EphyWindow::TopWrap, offset: 0x04, value: 0x0000 });
    assert_eq!(plan[n - 2], EphyStep::SetBits { window: EphyWindow::Analog, offset: 0x00, bits: 0x0100 });
    // Page 5 is followed by its two extra settings, page 1 by its clear.
    let page5 = plan
        .iter()
        .position(|s| *s == EphyStep::Write { window: EphyWindow::Analog, offset: 0x7c, value: 0x0500 })
        .unwrap();
    assert_eq!(plan[page5 + 1], EphyStep::SetBits { window: EphyWindow::Analog, offset: 0x40, bits: 0x0001 });
    assert_eq!(plan[page5 + 2], EphyStep::SetBits { window: EphyWindow::Analog, offset: 0x4c, bits: 0x0820 });
    let page1 = plan
        .iter()
        .position(|s| *s == EphyStep::Write { window: EphyWindow::Analog, offset: 0x7c, value: 0x0100 })
        .unwrap();
    assert_eq!(plan[page1 + 1], EphyStep::ClearBits { window: EphyWindow::Analog, offset: 0x68, bits: 0x0f00 });
    // Every fallback entry is written, plus seven steps before, three after
    // and the three extra steps.
    assert_eq!(n, fallback_init_sequence(tuning).len() + 7 + 3 + 3);
}

#[test]
fn buffer_above_4g_is_refused_not_retried() {
    let ring = SharedRing::new(4);
    let mut rx = RxQueue::new(Regs::new(FakeRegs::new()), ring.clone(), queue_config()).unwrap();
    assert_eq!(rx.submit(DmaBuffer { bus_addr: 0x1_0000_0000, len: 1536 }), Err(QueueError::NotSupported));
    let mut tx = TxQueue::new(Regs::new(FakeRegs::new()), SharedRing::new(4), queue_config()).unwrap();
    assert_eq!(tx.submit(DmaBuffer { bus_addr: 0x1_0000_0000, len: 64 }), Err(QueueError::NotSupported));
}
