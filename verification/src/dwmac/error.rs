//! Driver configuration and errors.

use vstd::prelude::*;

verus! {

/// The name of the driver.
pub const DRIVER_NAME: &'static str = "cvitek-dwmac";
pub const DEFAULT_RING_SIZE: usize = 64;
pub const DEFAULT_BUFFER_SIZE: usize = 1536;
pub const DEFAULT_DMA_ALIGN: usize = 32;
/// The DMA reaches 40 address bits.
pub const DEFAULT_DMA_MASK: u64 = 0xff_ffff_ffff;

/// The ways the driver can fail.
#[derive(Clone, Copy, Debug, Eq, PartialEq, Structural)]
pub enum Error {
    InvalidConfig,
    UnsupportedPhyMode,
    Dma,
    DmaAddressTooWide,
    ResetTimeout,
    MdioTimeout,
    PhyNotFound,
}

impl Error {
    /// A sentence describing the error.
    pub fn message(&self) -> (r: &'static str)
        ensures
            r@ == match self {
                Error::InvalidConfig => "invalid CVitek DWMAC configuration"@,
                Error::UnsupportedPhyMode => "unsupported CVitek DWMAC PHY mode"@,
                Error::Dma => "CVitek DWMAC DMA allocation failed"@,
                Error::DmaAddressTooWide => "CVitek DWMAC DMA address exceeds descriptor width"@,
                Error::ResetTimeout => "CVitek DWMAC DMA reset timed out"@,
                Error::MdioTimeout => "CVitek DWMAC MDIO transaction timed out"@,
                Error::PhyNotFound => "CVitek DWMAC PHY was not found"@,
            },
    {
        match self {
            Error::InvalidConfig => "invalid CVitek DWMAC configuration",
            Error::UnsupportedPhyMode => "unsupported CVitek DWMAC PHY mode",
            Error::Dma => "CVitek DWMAC DMA allocation failed",
            Error::DmaAddressTooWide => "CVitek DWMAC DMA address exceeds descriptor width",
            Error::ResetTimeout => "CVitek DWMAC DMA reset timed out",
            Error::MdioTimeout => "CVitek DWMAC MDIO transaction timed out",
            Error::PhyNotFound => "CVitek DWMAC PHY was not found",
        }
    }
}

/// The interface between MAC and PHY.
#[derive(Clone, Copy, Debug, Eq, PartialEq, Structural)]
pub enum PhyMode {
    Rmii,
    Mii,
}

/// A MAC address that can be used as a station address: not all zeros, not
/// broadcast, and not multicast.
pub open spec fn usable_mac_spec(mac: [u8; 6]) -> bool {
    mac@ != seq![0u8, 0u8, 0u8, 0u8, 0u8, 0u8] && mac@ != seq![
        0xffu8,
        0xffu8,
        0xffu8,
        0xffu8,
        0xffu8,
        0xffu8,
    ] && mac[0] & 1 == 0
}

/// Whether `mac` can be used as a station address.
pub fn is_usable_mac(mac: [u8; 6]) -> (r: bool)
    ensures
        r == usable_mac_spec(mac),
{
    let zero = mac[0] == 0 && mac[1] == 0 && mac[2] == 0 && mac[3] == 0 && mac[4] == 0 && mac[5]
        == 0;
    let bcast = mac[0] == 0xff && mac[1] == 0xff && mac[2] == 0xff && mac[3] == 0xff && mac[4]
        == 0xff && mac[5] == 0xff;
    proof {
        if !zero {
            assert(mac@ != seq![0u8, 0u8, 0u8, 0u8, 0u8, 0u8]) by {
                if mac@ == seq![0u8, 0u8, 0u8, 0u8, 0u8, 0u8] {
                    assert(mac@[0] == 0 && mac@[1] == 0 && mac@[2] == 0 && mac@[3] == 0 && mac@[4]
                        == 0 && mac@[5] == 0);
                }
            }
        } else {
            assert(mac@ =~= seq![0u8, 0u8, 0u8, 0u8, 0u8, 0u8]);
        }
        if !bcast {
            assert(mac@ != seq![0xffu8, 0xffu8, 0xffu8, 0xffu8, 0xffu8, 0xffu8]) by {
                if mac@ == seq![0xffu8, 0xffu8, 0xffu8, 0xffu8, 0xffu8, 0xffu8] {
                    assert(mac@[0] == 0xff && mac@[1] == 0xff && mac@[2] == 0xff && mac@[3] == 0xff
                        && mac@[4] == 0xff && mac@[5] == 0xff);
                }
            }
        } else {
            assert(mac@ =~= seq![0xffu8, 0xffu8, 0xffu8, 0xffu8, 0xffu8, 0xffu8]);
        }
    }
    !zero && !bcast && mac[0] & 0x01 == 0
}

/// Ring and buffer geometry of a queue.
#[derive(Clone, Copy, Debug, Eq, PartialEq, Structural)]
pub struct QueueConfig {
    pub dma_mask: u64,
    pub align: usize,
    pub buf_size: usize,
    pub ring_size: usize,
}

/// Configuration of one controller.
#[derive(Clone, Copy, Debug, Eq, PartialEq)]
pub struct CvitekDwmacConfig {
    pub mac_address: [u8; 6],
    pub dma_mask: u64,
    pub ring_size: usize,
    pub buffer_size: usize,
    pub dma_align: usize,
    pub txpbl: u8,
    pub rxpbl: u8,
    pub phy_mode: PhyMode,
    pub phy_addr: Option<u8>,
    pub configure_phy: bool,
    pub preserve_firmware_mac: bool,
}

impl CvitekDwmacConfig {
    /// The default configuration for a controller with station address
    /// `mac_address`: 40-bit DMA, 64-entry rings of 1536-byte buffers aligned
    /// to 32 bytes, bursts of 8, RMII, PHY found by scanning and configured,
    /// and the given address used even if the firmware set one.
    pub fn new(mac_address: [u8; 6]) -> (r: Self)
        ensures
            r == (CvitekDwmacConfig {
                mac_address,
                dma_mask: DEFAULT_DMA_MASK,
                ring_size: DEFAULT_RING_SIZE,
                buffer_size: DEFAULT_BUFFER_SIZE,
                dma_align: DEFAULT_DMA_ALIGN,
                txpbl: 8,
                rxpbl: 8,
                phy_mode: PhyMode::Rmii,
                phy_addr: None,
                configure_phy: true,
                preserve_firmware_mac: false,
            }),
    {
        CvitekDwmacConfig {
            mac_address,
            dma_mask: DEFAULT_DMA_MASK,
            ring_size: DEFAULT_RING_SIZE,
            buffer_size: DEFAULT_BUFFER_SIZE,
            dma_align: DEFAULT_DMA_ALIGN,
            txpbl: 8,
            rxpbl: 8,
            phy_mode: PhyMode::Rmii,
            phy_addr: None,
            configure_phy: true,
            preserve_firmware_mac: false,
        }
    }

    /// The queue geometry of this configuration.
    pub open spec fn queue_config_spec(self) -> QueueConfig {
        QueueConfig {
            dma_mask: self.dma_mask,
            align: self.dma_align,
            buf_size: self.buffer_size,
            ring_size: self.ring_size,
        }
    }

    /// The queue geometry of this configuration.
    pub fn queue_config(self) -> (r: QueueConfig)
        ensures
            r == self.queue_config_spec(),
    {
        QueueConfig {
            dma_mask: self.dma_mask,
            align: self.dma_align,
            buf_size: self.buffer_size,
            ring_size: self.ring_size,
        }
    }

    /// Whether the configuration is acceptable: rings of at least 4 entries,
    /// buffers of at least 1536 bytes, a nonzero alignment and a usable MAC
    /// address.
    pub open spec fn valid_spec(self) -> bool {
        self.ring_size >= 4 && self.buffer_size >= 1536 && self.dma_align != 0 && usable_mac_spec(
            self.mac_address,
        )
    }

    /// Checks the configuration.
    pub fn validate(self) -> (r: Result<(), Error>)
        ensures
            r is Ok <==> self.valid_spec(),
            r is Err ==> r == Err::<(), Error>(Error::InvalidConfig),
    {
        if self.ring_size < 4 || self.buffer_size < 1536 || self.dma_align == 0 || !is_usable_mac(
            self.mac_address,
        ) {
            return Err(Error::InvalidConfig);
        }
        match self.phy_mode {
            PhyMode::Rmii | PhyMode::Mii => {},
        }
        Ok(())
    }
}

} // verus!
