//! The controller: bring-up, PHY, interrupts and queue creation.

use vstd::prelude::*;

use super::error::{is_usable_mac, usable_mac_spec, CvitekDwmacConfig, Error, DRIVER_NAME};
use super::mdio::Mdio;
use super::phy::{Phy, PhyStatus};
use super::queue::{DescRing, RxQueue, TxQueue, RX_QUEUE_ID, TX_QUEUE_ID};
use super::regs::{
    RegisterIo, Regs, DMA_STATUS_FBI, DMA_STATUS_RI, DMA_STATUS_RPS, DMA_STATUS_RU, DMA_STATUS_TI,
    DMA_STATUS_TPS, DMA_STATUS_TU,
};

verus! {

/// Status bits that mean progress on the transmit ring.
pub const TX_EVENT_MASK: u32 = 0x2007;

/// Status bits that mean progress on the receive ring.
pub const RX_EVENT_MASK: u32 = 0x21c0;

/// A set of queue identifiers below 64.
#[derive(Clone, Copy, Debug, Eq, PartialEq, Structural)]
pub struct QueueSet {
    bits: u64,
}

impl QueueSet {
    /// Whether queue `id` is in the set.
    pub closed spec fn has(&self, id: usize) -> bool {
        id < 64 && (self.bits >> (id as u64)) & 1 == 1
    }

    /// The empty set.
    pub fn empty() -> (r: Self)
        ensures
            forall|id: usize| !r.has(id),
    {
        let r = QueueSet { bits: 0 };
        assert forall|id: usize| !r.has(id) by {
            let i = id as u64;
            assert((0u64 >> i) & 1 == 0) by (bit_vector);
        }
        r
    }

    /// Adds queue `id`.
    pub fn insert(&mut self, id: usize)
        requires
            id < 64,
        ensures
            forall|j: usize| final(self).has(j) == (old(self).has(j) || j == id),
    {
        let b = self.bits;
        let i = id as u64;
        self.bits = b | (1u64 << i);
        assert forall|j: usize| final(self).has(j) == (old(self).has(j) || j == id) by {
            let k = j as u64;
            if j < 64 {
                assert(((b | (1u64 << i)) >> k) & 1 == 1 <==> ((b >> k) & 1 == 1 || k == i)) by (bit_vector)
                    requires
                        i < 64,
                        k < 64,
                ;
            }
        }
    }

    /// Whether queue `id` is in the set.
    pub fn contains(&self, id: usize) -> (r: bool)
        ensures
            r == self.has(id),
    {
        if id >= 64 {
            return false;
        }
        (self.bits >> (id as u64)) & 1 == 1
    }
}

/// Queues that have work after an interrupt.
#[derive(Clone, Copy, Debug, Eq, PartialEq, Structural)]
pub struct Event {
    pub tx_queue: QueueSet,
    pub rx_queue: QueueSet,
}

impl Event {
    /// No queue has work.
    pub fn none() -> (r: Self)
        ensures
            forall|id: usize| !r.tx_queue.has(id) && !r.rx_queue.has(id),
    {
        Event { tx_queue: QueueSet::empty(), rx_queue: QueueSet::empty() }
    }
}

/// The queues woken by a DMA status: the transmit queue on transmit
/// interrupt, stop or unavailable buffer, the receive queue on receive
/// interrupt, unavailable buffer or stop, and both on a fatal bus error.
pub fn irq_event(status: u32) -> (r: Event)
    ensures
        forall|id: usize|
            #[trigger] r.tx_queue.has(id) == (id == TX_QUEUE_ID && status & TX_EVENT_MASK != 0),
        forall|id: usize|
            #[trigger] r.rx_queue.has(id) == (id == RX_QUEUE_ID && status & RX_EVENT_MASK != 0),
{
    assert(0x1u32 | 0x2u32 | 0x4u32 | 0x2000u32 == 0x2007u32) by (bit_vector);
    assert(0x40u32 | 0x80u32 | 0x100u32 | 0x2000u32 == 0x21c0u32) by (bit_vector);
    let mut event = Event::none();
    if status & (DMA_STATUS_TI | DMA_STATUS_TPS | DMA_STATUS_TU | DMA_STATUS_FBI) != 0 {
        event.tx_queue.insert(TX_QUEUE_ID);
    }
    if status & (DMA_STATUS_RI | DMA_STATUS_RU | DMA_STATUS_RPS | DMA_STATUS_FBI) != 0 {
        event.rx_queue.insert(RX_QUEUE_ID);
    }
    event
}

/// Whether `e` is the event `irq_event` gives for `status`.
pub open spec fn is_status_event(status: u32, e: Event) -> bool {
    &&& forall|id: usize|
        #[trigger] e.tx_queue.has(id) == (id == TX_QUEUE_ID && status & TX_EVENT_MASK != 0)
    &&& forall|id: usize|
        #[trigger] e.rx_queue.has(id) == (id == RX_QUEUE_ID && status & RX_EVENT_MASK != 0)
}

/// The station address to use: the firmware's when asked to preserve it and
/// it is usable, else the configured one.
pub open spec fn select_mac_spec(configured: [u8; 6], firmware: [u8; 6], preserve: bool) -> [u8; 6] {
    if preserve && usable_mac_spec(firmware) {
        firmware
    } else {
        configured
    }
}

/// The station address to use.
pub fn select_mac(configured: [u8; 6], firmware: [u8; 6], preserve: bool) -> (r: [u8; 6])
    ensures
        r == select_mac_spec(configured, firmware, preserve),
{
    if preserve && is_usable_mac(firmware) {
        firmware
    } else {
        configured
    }
}

/// A CVitek DWMAC controller on the register window `B`.
pub struct CvitekDwmac<B> {
    regs: Regs<B>,
    config: CvitekDwmacConfig,
    phy: Option<Phy<B>>,
    tx_created: bool,
    rx_created: bool,
}

impl<B: RegisterIo> CvitekDwmac<B> {
    /// The configuration in use (with the station address finally chosen).
    pub closed spec fn config_spec(&self) -> CvitekDwmacConfig {
        self.config
    }

    /// The PHY, when one was configured.
    pub closed spec fn phy_spec(&self) -> Option<Phy<B>> {
        self.phy
    }

    /// Whether the transmit queue was created.
    pub closed spec fn tx_created(&self) -> bool {
        self.tx_created
    }

    /// Whether the receive queue was created.
    pub closed spec fn rx_created(&self) -> bool {
        self.rx_created
    }

    /// The register window of the controller.
    pub closed spec fn io(&self) -> B {
        self.regs.io()
    }

    /// Checks the configuration, picks the station address, stops and
    /// resets the DMA, programs bus, MAC and store-and-forward mode, then
    /// finds and configures the PHY when asked.
    pub fn new(io: B, config: CvitekDwmacConfig) -> (r: Result<Self, Error>)
        ensures
            !config.valid_spec() ==> r == Err::<Self, Error>(Error::InvalidConfig),
            config.valid_spec() ==> r != Err::<Self, Error>(Error::InvalidConfig),
            match r {
                Ok(d) => {
                    &&& config.valid_spec()
                    &&& d.config_spec() == (CvitekDwmacConfig {
                        mac_address: d.config_spec().mac_address,
                        ..config
                    })
                    &&& (d.config_spec().mac_address == config.mac_address || (
                    config.preserve_firmware_mac && usable_mac_spec(d.config_spec().mac_address)))
                    &&& (d.phy_spec() is Some <==> config.configure_phy)
                    &&& (config.configure_phy && config.phy_addr is Some) ==> d.phy_spec()->0.addr()
                        == config.phy_addr->0
                    &&& !d.tx_created() && !d.rx_created()
                    &&& d.io() == io
                },
                Err(e) => e == Error::InvalidConfig || e == Error::ResetTimeout || e
                    == Error::PhyNotFound || e == Error::MdioTimeout,
            },
    {
        match config.validate() {
            Ok(_) => {},
            Err(e) => return Err(e),
        }
        let mut config = config;
        let regs = Regs::new(io);
        let firmware_mac = regs.read_mac_address();
        config.mac_address = select_mac(config.mac_address, firmware_mac, config.preserve_firmware_mac);
        regs.stop_tx_rx();
        regs.disable_irq();
        if !regs.reset_dma() {
            return Err(Error::ResetTimeout);
        }
        regs.init_dma_bus(config.txpbl, config.rxpbl);
        regs.init_axi_bus();
        regs.init_mac(config.mac_address);
        regs.configure_store_forward();
        let mdio = Mdio::new(regs);
        let phy = if config.configure_phy {
            let phy = match Phy::discover(mdio, config.phy_addr) {
                Ok(p) => p,
                Err(e) => return Err(e),
            };
            match phy.configure() {
                Ok(_) => {},
                Err(e) => return Err(e),
            }
            Some(phy)
        } else {
            None
        };
        Ok(CvitekDwmac { regs, config, phy, tx_created: false, rx_created: false })
    }

    /// The link status of the PHY, or `None` without a PHY.
    pub fn phy_status(&self) -> (r: Result<Option<PhyStatus>, Error>)
        ensures
            self.phy_spec() is None ==> r == Ok::<Option<PhyStatus>, Error>(None),
            self.phy_spec() is Some ==> !(r matches Ok(None)),
            r matches Ok(Some(s)) ==> self.phy_spec() is Some && s.addr == self.phy_spec()->0.addr()
                && s.id == self.phy_spec()->0.id(),
            r is Err ==> r == Err::<Option<PhyStatus>, Error>(Error::MdioTimeout),
    {
        match self.phy {
            None => Ok(None),
            Some(phy) => match phy.status() {
                Ok(s) => Ok(Some(s)),
                Err(e) => Err(e),
            },
        }
    }

    /// The hardware feature register.
    pub fn hw_feature(&self) -> u32 {
        self.regs.hw_feature()
    }

    /// The missed frame counter.
    pub fn missed_frame_counter(&self) -> u32 {
        self.regs.missed_frame_counter()
    }

    /// The name of the driver.
    pub fn name(&self) -> (r: &'static str)
        ensures
            r == DRIVER_NAME,
    {
        DRIVER_NAME
    }

    /// The station address in use.
    pub fn mac_address(&self) -> (r: [u8; 6])
        ensures
            r == self.config_spec().mac_address,
    {
        self.config.mac_address
    }

    /// Creates the transmit queue on `desc`; only once.
    pub fn create_tx_queue<R: DescRing>(&mut self, desc: R) -> (r: Option<TxQueue<R, B>>)
        ensures
            final(self).config_spec() == old(self).config_spec(),
            final(self).rx_created() == old(self).rx_created(),
            old(self).tx_created() ==> r is None && final(self).tx_created(),
            r is Some ==> final(self).tx_created() && r->0.wf() && r->0.pending().len() == 0
                && r->0.config_spec() == old(self).config_spec().queue_config_spec(),
            r is None ==> final(self).tx_created() == old(self).tx_created(),
    {
        if self.tx_created {
            return None;
        }
        let queue = match TxQueue::new(self.regs, desc, self.config.queue_config()) {
            Ok(q) => q,
            Err(_) => return None,
        };
        self.tx_created = true;
        Some(queue)
    }

    /// Creates the receive queue on `desc`; only once.
    pub fn create_rx_queue<R: DescRing>(&mut self, desc: R) -> (r: Option<RxQueue<R, B>>)
        ensures
            final(self).config_spec() == old(self).config_spec(),
            final(self).tx_created() == old(self).tx_created(),
            old(self).rx_created() ==> r is None && final(self).rx_created(),
            r is Some ==> final(self).rx_created() && r->0.wf() && r->0.pending().len() == 0
                && r->0.config_spec() == old(self).config_spec().queue_config_spec(),
            r is None ==> final(self).rx_created() == old(self).rx_created(),
    {
        if self.rx_created {
            return None;
        }
        let queue = match RxQueue::new(self.regs, desc, self.config.queue_config()) {
            Ok(q) => q,
            Err(_) => return None,
        };
        self.rx_created = true;
        Some(queue)
    }

    /// Acknowledges pending DMA status and enables the default interrupts;
    /// the controller's state is unchanged, only device registers are
    /// written.
    pub fn enable_irq(&mut self)
        ensures
            *final(self) == *old(self),
    {
        self.regs.enable_irq();
    }

    /// Disables the DMA interrupts; only a device register is written.
    pub fn disable_irq(&mut self)
        ensures
            *final(self) == *old(self),
    {
        self.regs.disable_irq();
    }

    pub fn is_irq_enabled(&self) -> bool {
        self.regs.irq_enabled()
    }

    /// Acknowledges the DMA status and reports the queues to wake: the event
    /// `irq_event` gives for the status the device reported.
    pub fn handle_irq(&mut self) -> (r: Event)
        ensures
            *final(self) == *old(self),
            exists|status: u32| #[trigger] is_status_event(status, r),
    {
        let status = self.regs.take_dma_status();
        let event = irq_event(status);
        assert(is_status_event(status, event));
        event
    }

    /// A handler that can serve the interrupt on its own, on the same
    /// register window.
    pub fn take_irq_handler(&mut self) -> (r: Option<DwmacIrqHandler<B>>)
        ensures
            *final(self) == *old(self),
            r matches Some(h) && h.io() == old(self).io(),
    {
        Some(DwmacIrqHandler { regs: self.regs })
    }
}

/// Serves the controller interrupt apart from the controller.
pub struct DwmacIrqHandler<B> {
    regs: Regs<B>,
}

impl<B: RegisterIo> DwmacIrqHandler<B> {
    /// The register window the handler serves.
    pub closed spec fn io(&self) -> B {
        self.regs.io()
    }

    /// Acknowledges the DMA status and reports the queues to wake: the event
    /// `irq_event` gives for the status the device reported.
    pub fn handle_irq(&mut self) -> (r: Event)
        ensures
            *final(self) == *old(self),
            exists|status: u32| #[trigger] is_status_event(status, r),
    {
        let status = self.regs.take_dma_status();
        let event = irq_event(status);
        assert(is_status_event(status, event));
        event
    }
}

} // verus!
