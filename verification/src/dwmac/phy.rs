//! Discovery, configuration and status of the Ethernet PHY.

use vstd::prelude::*;

use super::error::Error;
use super::mdio::Mdio;
use super::regs::RegisterIo;

verus! {

pub const MII_BMCR: u8 = 0;
pub const MII_BMSR: u8 = 1;
pub const MII_PHYSID1: u8 = 2;
pub const MII_PHYSID2: u8 = 3;
pub const MII_ADVERTISE: u8 = 4;

pub const BMCR_FULLDPLX: u16 = 0x100;
pub const BMCR_ANRESTART: u16 = 0x200;
pub const BMCR_ANENABLE: u16 = 0x1000;
pub const BMCR_SPEED100: u16 = 0x2000;

pub const BMSR_LSTATUS: u16 = 0x4;
pub const BMSR_ANEGCOMPLETE: u16 = 0x20;

pub const ADVERTISE_10HALF: u16 = 0x20;
pub const ADVERTISE_10FULL: u16 = 0x40;
pub const ADVERTISE_100HALF: u16 = 0x80;
pub const ADVERTISE_100FULL: u16 = 0x100;
pub const ADVERTISE_CSMA: u16 = 1;

/// Advertise CSMA and 10/100 Mbit/s in both duplex modes.
pub const ADVERTISE_ALL: u16 = 0x1e1;

/// Autonegotiation on and restarted, 100 Mbit/s, full duplex.
pub const BMCR_AUTONEG_100_FULL: u16 = 0x3300;

/// What the PHY reports about the link.
#[derive(Clone, Copy, Debug, Eq, PartialEq, Structural)]
pub struct PhyStatus {
    pub addr: u8,
    pub id: u32,
    pub link_up: bool,
    pub autoneg_complete: bool,
}

/// The identifier of a PHY from its two identifier registers, or `None`
/// when either reads as all zeros or all ones (no PHY answers).
pub open spec fn phy_id_spec(id1: u16, id2: u16) -> Option<u32> {
    if id1 == 0 || id1 == 0xffff || id2 == 0 || id2 == 0xffff {
        None
    } else {
        Some(((id1 as u32) << 16u32) | (id2 as u32))
    }
}

/// The identifier of a PHY from its two identifier registers.
pub fn phy_id(id1: u16, id2: u16) -> (r: Option<u32>)
    ensures
        r == phy_id_spec(id1, id2),
        r is Some ==> (r->0 >> 16u32) as u16 == id1 && (r->0 & 0xffff) as u16 == id2,
{
    if id1 == 0 || id1 == 0xffff || id2 == 0 || id2 == 0xffff {
        return None;
    }
    let a = id1 as u32;
    let b = id2 as u32;
    assert((((a << 16u32) | b) >> 16u32) as u16 == a as u16 && (((a << 16u32) | b) & 0xffff) as u16
        == b as u16) by (bit_vector)
        requires
            a <= 0xffff,
            b <= 0xffff,
    ;
    Some((a << 16) | b)
}

/// The status from two successive reads of the basic status register: the
/// link and autonegotiation bits of either read count, since the link bit
/// latches low.
pub fn status_from_bmsr(addr: u8, id: u32, first: u16, second: u16) -> (r: PhyStatus)
    ensures
        r == (PhyStatus {
            addr,
            id,
            link_up: (first | second) & BMSR_LSTATUS != 0,
            autoneg_complete: (first | second) & BMSR_ANEGCOMPLETE != 0,
        }),
{
    let bmsr = first | second;
    PhyStatus {
        addr,
        id,
        link_up: bmsr & BMSR_LSTATUS != 0,
        autoneg_complete: bmsr & BMSR_ANEGCOMPLETE != 0,
    }
}

/// A PHY found on the MDIO bus.
#[derive(Clone, Copy)]
pub struct Phy<B> {
    mdio: Mdio<B>,
    addr: u8,
    id: u32,
}

impl<B: RegisterIo> Phy<B> {
    /// The bus address of the PHY.
    pub closed spec fn addr(&self) -> u8 {
        self.addr
    }

    /// The identifier of the PHY.
    pub closed spec fn id(&self) -> u32 {
        self.id
    }

    /// Probes `preferred` when given, otherwise addresses 0 to 31 in order,
    /// and returns the first PHY that answers with a valid identifier.
    pub fn discover(mdio: Mdio<B>, preferred: Option<u8>) -> (r: Result<Self, Error>)
        ensures
            match r {
                Ok(phy) => {
                    &&& phy.id() >> 16u32 != 0 && phy.id() >> 16u32 != 0xffff
                    &&& phy.id() & 0xffff != 0 && phy.id() & 0xffff != 0xffff
                    &&& match preferred {
                        Some(a) => phy.addr() == a,
                        None => phy.addr() < 32,
                    }
                },
                Err(e) => e == Error::PhyNotFound || e == Error::MdioTimeout,
            },
    {
        if let Some(addr) = preferred {
            return Self::probe_addr(mdio, addr);
        }
        let mut addr: u8 = 0;
        while addr < 32
            invariant
                addr <= 32,
                preferred is None,
            decreases 32 - addr,
        {
            match Self::probe_addr(mdio, addr) {
                Ok(phy) => return Ok(phy),
                Err(_) => {},
            }
            addr = addr + 1;
        }
        Err(Error::PhyNotFound)
    }

    /// Advertises 10/100 Mbit/s and restarts autonegotiation.
    pub fn configure(self) -> (r: Result<(), Error>)
        ensures
            r is Err ==> r == Err::<(), Error>(Error::MdioTimeout),
    {
        assert(0x1u16 | 0x20u16 | 0x40u16 | 0x80u16 | 0x100u16 == 0x1e1u16) by (bit_vector);
        assert(0x1000u16 | 0x200u16 | 0x2000u16 | 0x100u16 == 0x3300u16) by (bit_vector);
        match self.mdio.write(
            self.addr,
            MII_ADVERTISE,
            ADVERTISE_CSMA | ADVERTISE_10HALF | ADVERTISE_10FULL | ADVERTISE_100HALF
                | ADVERTISE_100FULL,
        ) {
            Ok(_) => {},
            Err(e) => return Err(e),
        }
        self.mdio.write(
            self.addr,
            MII_BMCR,
            BMCR_ANENABLE | BMCR_ANRESTART | BMCR_SPEED100 | BMCR_FULLDPLX,
        )
    }

    /// Reads the link status twice and reports it.
    pub fn status(self) -> (r: Result<PhyStatus, Error>)
        ensures
            match r {
                Ok(s) => s.addr == self.addr() && s.id == self.id(),
                Err(e) => e == Error::MdioTimeout,
            },
    {
        let first = match self.mdio.read(self.addr, MII_BMSR) {
            Ok(v) => v,
            Err(e) => return Err(e),
        };
        let second = match self.mdio.read(self.addr, MII_BMSR) {
            Ok(v) => v,
            Err(e) => return Err(e),
        };
        Ok(status_from_bmsr(self.addr, self.id, first, second))
    }

    /// Reads the identifier registers of `addr`; a PHY answers when both are
    /// neither all zeros nor all ones.
    pub fn probe_addr(mdio: Mdio<B>, addr: u8) -> (r: Result<Self, Error>)
        ensures
            match r {
                Ok(phy) => {
                    &&& phy.addr() == addr
                    &&& phy.id() >> 16u32 != 0 && phy.id() >> 16u32 != 0xffff
                    &&& phy.id() & 0xffff != 0 && phy.id() & 0xffff != 0xffff
                },
                Err(e) => e == Error::PhyNotFound || e == Error::MdioTimeout,
            },
    {
        let id1 = match mdio.read(addr, MII_PHYSID1) {
            Ok(v) => v,
            Err(e) => return Err(e),
        };
        let id2 = match mdio.read(addr, MII_PHYSID2) {
            Ok(v) => v,
            Err(e) => return Err(e),
        };
        match phy_id(id1, id2) {
            Some(id) => {
                assert((id >> 16u32) as u16 == id1 ==> id >> 16u32 == id1 as u32) by (bit_vector);
                assert((id & 0xffff) as u16 == id2 ==> id & 0xffff == id2 as u32) by (bit_vector);
                Ok(Phy { mdio, addr, id })
            },
            None => Err(Error::PhyNotFound),
        }
    }
}

} // verus!
