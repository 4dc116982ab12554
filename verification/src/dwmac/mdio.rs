//! The MDIO bus of the GMAC, used to reach the PHY registers.

use vstd::prelude::*;

use super::error::Error;
use super::regs::{spin_loop_hint, RegisterIo, Regs};

verus! {

pub const MII_BUSY: u32 = 1;
pub const MII_WRITE: u32 = 2;
pub const MII_DATA_MASK: u32 = 0xffff;
pub const PHY_ADDR_SHIFT: u32 = 11;
pub const PHY_REG_SHIFT: u32 = 6;
pub const PHY_ADDR_MASK: u32 = 0xf800;
pub const PHY_REG_MASK: u32 = 0x7c0;
pub const CLK_CSR_SHIFT: u32 = 2;
pub const CLK_CSR_MASK: u32 = 0x3c;
pub const DEFAULT_CLK_CSR: u32 = 5;

/// The MII address register value of an MDIO operation (GMAC 1000 layout):
/// busy, the PHY address in bits 11..16, the register in bits 6..11, the
/// clock range in bits 2..6, and the write bit for a write.
pub open spec fn op_value_spec(phy: u8, reg: u8, clk_csr: u32, write: bool) -> u32 {
    let base = MII_BUSY | (((phy as u32) << 11u32) & PHY_ADDR_MASK) | (((reg as u32) << 6u32)
        & PHY_REG_MASK) | ((clk_csr << 2u32) & CLK_CSR_MASK);
    if write {
        base | MII_WRITE
    } else {
        base
    }
}

/// An MDIO master on the MII address and data registers.
#[derive(Clone, Copy)]
pub struct Mdio<B> {
    regs: Regs<B>,
    clk_csr: u32,
}

impl<B: RegisterIo> Mdio<B> {
    /// The clock range field of this bus.
    pub closed spec fn clk_csr(&self) -> u32 {
        self.clk_csr
    }

    /// An MDIO master with the default clock range.
    pub fn new(regs: Regs<B>) -> (r: Self)
        ensures
            r.clk_csr() == DEFAULT_CLK_CSR,
    {
        Mdio { regs, clk_csr: DEFAULT_CLK_CSR }
    }

    /// Reads register `reg` of PHY `phy`.
    pub fn read(self, phy: u8, reg: u8) -> (r: Result<u16, Error>)
        ensures
            r is Err ==> r == Err::<u16, Error>(Error::MdioTimeout),
    {
        match self.wait_idle() {
            Ok(_) => {},
            Err(e) => return Err(e),
        }
        let value = self.op_value(phy, reg, false);
        self.regs.write_mii_data(0);
        self.regs.write_mii_addr(value);
        match self.wait_idle() {
            Ok(_) => {},
            Err(e) => return Err(e),
        }
        Ok((self.regs.mii_data() & MII_DATA_MASK) as u16)
    }

    /// Writes `data` into register `reg` of PHY `phy`.
    pub fn write(self, phy: u8, reg: u8, data: u16) -> (r: Result<(), Error>)
        ensures
            r is Err ==> r == Err::<(), Error>(Error::MdioTimeout),
    {
        match self.wait_idle() {
            Ok(_) => {},
            Err(e) => return Err(e),
        }
        self.regs.write_mii_data(data as u32);
        self.regs.write_mii_addr(self.op_value(phy, reg, true));
        self.wait_idle()
    }

    /// The MII address register value for an operation on `reg` of `phy`.
    pub fn op_value(self, phy: u8, reg: u8, write: bool) -> (r: u32)
        ensures
            r == op_value_spec(phy, reg, self.clk_csr(), write),
            (r & PHY_ADDR_MASK) >> PHY_ADDR_SHIFT == (phy as u32) & 0x1f,
            (r & PHY_REG_MASK) >> PHY_REG_SHIFT == (reg as u32) & 0x1f,
            (r & MII_WRITE != 0) == write,
            r & MII_BUSY != 0,
    {
        let p = phy as u32;
        let g = reg as u32;
        let c = self.clk_csr;
        let base = MII_BUSY | ((p << PHY_ADDR_SHIFT) & PHY_ADDR_MASK) | ((g << PHY_REG_SHIFT)
            & PHY_REG_MASK) | ((c << CLK_CSR_SHIFT) & CLK_CSR_MASK);
        let value = if write {
            base | MII_WRITE
        } else {
            base
        };
        assert({
            let b = 1u32 | ((p << 11u32) & 0xf800u32) | ((g << 6u32) & 0x7c0u32) | ((c << 2u32)
                & 0x3cu32);
            &&& (b & 0xf800u32) >> 11u32 == p & 0x1f
            &&& (b & 0x7c0u32) >> 6u32 == g & 0x1f
            &&& b & 2 == 0
            &&& b & 1 != 0
            &&& ((b | 2) & 0xf800u32) >> 11u32 == p & 0x1f
            &&& ((b | 2) & 0x7c0u32) >> 6u32 == g & 0x1f
            &&& (b | 2) & 2 != 0
            &&& (b | 2) & 1 != 0
        }) by (bit_vector)
            requires
                p <= 0xff,
                g <= 0xff,
        ;
        value
    }

    /// Waits up to 10000 polls for the bus to become idle.
    pub fn wait_idle(self) -> (r: Result<(), Error>)
        ensures
            r is Err ==> r == Err::<(), Error>(Error::MdioTimeout),
    {
        let mut i: u32 = 0;
        while i < 10_000
            decreases 10_000 - i,
        {
            if self.regs.mii_addr() & MII_BUSY == 0 {
                return Ok(());
            }
            spin_loop_hint();
            i = i + 1;
        }
        Err(Error::MdioTimeout)
    }
}

} // verus!
