//! The configuration of a controller from its device-tree node.
//!
//! The caller reads the node's properties; this module decides what they
//! mean: which station address to use, the PHY interface, the DMA burst
//! lengths and the PHY address.

use vstd::prelude::*;

use super::error::{
    CvitekDwmacConfig, PhyMode, DEFAULT_BUFFER_SIZE, DEFAULT_DMA_ALIGN, DEFAULT_DMA_MASK,
    DEFAULT_RING_SIZE,
};

verus! {

/// The properties of a controller's node that its configuration reads.
/// A property is none when the node lacks it or it does not have the
/// expected form (a string, a 32-bit cell).
#[derive(Clone, Debug, PartialEq, Eq)]
pub struct FdtNodeProps {
    pub local_mac_address: Option<Vec<u8>>,
    pub mac_address: Option<Vec<u8>>,
    pub phy_mode: Option<String>,
    pub txpbl: Option<u32>,
    pub rxpbl: Option<u32>,
    pub phy_address: Option<u32>,
    pub phy_addr: Option<u32>,
}

/// Why a node cannot configure a controller.
#[derive(Clone, Debug, PartialEq, Eq)]
pub enum ProbeError {
    /// `phy-mode` names an interface the controller cannot drive.
    UnsupportedPhyMode(String),
    /// A burst-length property does not fit in a byte.
    PblTooLarge { name: String, value: u32 },
}

/// The station address a node gives: `local-mac-address`, else
/// `mac-address`, each only where it has six bytes.
pub open spec fn fdt_mac_spec(local: Option<Seq<u8>>, mac: Option<Seq<u8>>) -> Option<Seq<u8>> {
    if local matches Some(l) && l.len() == 6 {
        local
    } else if mac matches Some(m) && m.len() == 6 {
        mac
    } else {
        None
    }
}

pub open spec fn opt_bytes(v: Option<Vec<u8>>) -> Option<Seq<u8>> {
    match v {
        Some(b) => Some(b@),
        None => None,
    }
}

/// Six bytes of a property, if it has exactly six.
fn six_bytes(data: &Vec<u8>) -> (r: Option<[u8; 6]>)
    ensures
        data@.len() == 6 ==> (r matches Some(a) && a@ == data@),
        data@.len() != 6 ==> r is None,
{
    if data.len() != 6 {
        return None;
    }
    let mac: [u8; 6] = [data[0], data[1], data[2], data[3], data[4], data[5]];
    assert(mac@ =~= data@);
    Some(mac)
}

/// The station address the node gives, if it gives one.
pub fn mac_address_from_fdt(props: &FdtNodeProps) -> (r: Option<[u8; 6]>)
    ensures
        match fdt_mac_spec(opt_bytes(props.local_mac_address), opt_bytes(props.mac_address)) {
            Some(m) => r matches Some(a) && a@ == m,
            None => r is None,
        },
{
    if let Some(data) = &props.local_mac_address {
        if let Some(mac) = six_bytes(data) {
            return Some(mac);
        }
    }
    if let Some(data) = &props.mac_address {
        if let Some(mac) = six_bytes(data) {
            return Some(mac);
        }
    }
    None
}

/// The locally administered address used when the node gives none.
pub fn default_mac_address() -> (r: [u8; 6])
    ensures
        r@ == seq![0x02u8, 0x00u8, 0x00u8, 0x20u8, 0x02u8, 0x00u8],
{
    let r: [u8; 6] = [0x02, 0x00, 0x00, 0x20, 0x02, 0x00];
    assert(r@ =~= seq![0x02u8, 0x00u8, 0x00u8, 0x20u8, 0x02u8, 0x00u8]);
    r
}

/// A burst length read from property `name`, which must fit in a byte.
pub fn pbl_u8(name: &str, value: u32) -> (r: Result<u8, ProbeError>)
    ensures
        value <= 0xff ==> r == Ok::<u8, ProbeError>(value as u8),
        value > 0xff ==> (r matches Err(ProbeError::PblTooLarge { name: n, value: v }) && n@
            == name@ && v == value),
{
    if value <= 0xff {
        Ok(value as u8)
    } else {
        Err(ProbeError::PblTooLarge { name: name.to_owned(), value })
    }
}

/// `rmii` and `mii` name the interfaces the controller drives; a node
/// without `phy-mode` means RMII.
pub open spec fn phy_mode_spec(mode: Option<Seq<char>>) -> Option<PhyMode> {
    match mode {
        None => Some(PhyMode::Rmii),
        Some(m) => if m == seq!['r', 'm', 'i', 'i'] {
            Some(PhyMode::Rmii)
        } else if m == seq!['m', 'i', 'i'] {
            Some(PhyMode::Mii)
        } else {
            None
        },
    }
}

pub open spec fn opt_chars(v: Option<String>) -> Option<Seq<char>> {
    match v {
        Some(s) => Some(s@),
        None => None,
    }
}

/// The configuration a node gives a controller with station address
/// `mac_address`: the defaults, with the node's interface, burst lengths
/// and PHY address (`phy-address`, else `phy-addr`, its low byte).
pub open spec fn fdt_config_spec(
    props: FdtNodeProps,
    mac_address: [u8; 6],
    preserve_firmware_mac: bool,
    base: CvitekDwmacConfig,
) -> bool {
    let mode = phy_mode_spec(opt_chars(props.phy_mode));
    &&& mode is Some
    &&& props.txpbl matches Some(t) ==> t <= 0xff
    &&& props.rxpbl matches Some(t) ==> t <= 0xff
    &&& base.mac_address == mac_address
    &&& base.preserve_firmware_mac == preserve_firmware_mac
    &&& base.phy_mode == mode.unwrap()
    &&& base.txpbl == (match props.txpbl {
        Some(t) => t as u8,
        None => 8u8,
    })
    &&& base.rxpbl == (match props.rxpbl {
        Some(t) => t as u8,
        None => 8u8,
    })
    &&& base.phy_addr == (match (props.phy_address, props.phy_addr) {
        (Some(a), _) => Some(a as u8),
        (None, Some(a)) => Some(a as u8),
        (None, None) => None::<u8>,
    })
}

/// Builds the configuration from the node's properties. The interface is
/// checked first, then `snps,txpbl`, then `snps,rxpbl`.
pub fn config_from_fdt(props: &FdtNodeProps, mac_address: [u8; 6], preserve_firmware_mac: bool) -> (r:
    Result<CvitekDwmacConfig, ProbeError>)
    ensures
        match r {
            Ok(c) => {
                &&& fdt_config_spec(*props, mac_address, preserve_firmware_mac, c)
                &&& c.dma_mask == DEFAULT_DMA_MASK
                &&& c.ring_size == DEFAULT_RING_SIZE
                &&& c.buffer_size == DEFAULT_BUFFER_SIZE
                &&& c.dma_align == DEFAULT_DMA_ALIGN
                &&& c.configure_phy
            },
            Err(ProbeError::UnsupportedPhyMode(m)) => {
                &&& phy_mode_spec(opt_chars(props.phy_mode)) is None
                &&& props.phy_mode matches Some(p) && m@ == p@
            },
            Err(ProbeError::PblTooLarge { name, value }) => {
                &&& phy_mode_spec(opt_chars(props.phy_mode)) is Some
                &&& if props.txpbl is Some && props.txpbl.unwrap() > 0xff {
                    name@ == "snps,txpbl"@ && value == props.txpbl.unwrap()
                } else {
                    &&& props.rxpbl is Some
                    &&& props.rxpbl.unwrap() > 0xff
                    &&& name@ == "snps,rxpbl"@
                    &&& value == props.rxpbl.unwrap()
                }
            },
        },
        r is Ok <==> (phy_mode_spec(opt_chars(props.phy_mode)) is Some && (props.txpbl matches Some(
            t,
        ) ==> t <= 0xff) && (props.rxpbl matches Some(t) ==> t <= 0xff)),
{
    let mut config = CvitekDwmacConfig::new(mac_address);
    config.preserve_firmware_mac = preserve_firmware_mac;
    proof {
        reveal_strlit("rmii");
        reveal_strlit("mii");
    }
    config.phy_mode = match &props.phy_mode {
        None => PhyMode::Rmii,
        Some(mode) => {
            let rmii = "rmii".to_owned();
            let mii = "mii".to_owned();
            assert(rmii@ =~= seq!['r', 'm', 'i', 'i']);
            assert(mii@ =~= seq!['m', 'i', 'i']);
            if *mode == rmii {
                PhyMode::Rmii
            } else if *mode == mii {
                PhyMode::Mii
            } else {
                return Err(ProbeError::UnsupportedPhyMode(mode.clone()));
            }
        },
    };
    if let Some(txpbl) = props.txpbl {
        config.txpbl = match pbl_u8("snps,txpbl", txpbl) {
            Ok(v) => v,
            Err(e) => return Err(e),
        };
    }
    if let Some(rxpbl) = props.rxpbl {
        config.rxpbl = match pbl_u8("snps,rxpbl", rxpbl) {
            Ok(v) => v,
            Err(e) => return Err(e),
        };
    }
    let phy_addr = match props.phy_address {
        Some(a) => Some(a),
        None => props.phy_addr,
    };
    if let Some(phy_addr) = phy_addr {
        config.phy_addr = Some(phy_addr as u8);
    }
    Ok(config)
}

/// The configuration of a controller whose node has `props`: the node's
/// station address if it gives one, else the default address, in which
/// case the address the firmware programmed is kept.
pub fn probe_config(props: &FdtNodeProps) -> (r: Result<CvitekDwmacConfig, ProbeError>)
    ensures
        r is Ok <==> (phy_mode_spec(opt_chars(props.phy_mode)) is Some && (props.txpbl matches Some(
            t,
        ) ==> t <= 0xff) && (props.rxpbl matches Some(t) ==> t <= 0xff)),
        r matches Ok(c) ==> match fdt_mac_spec(
            opt_bytes(props.local_mac_address),
            opt_bytes(props.mac_address),
        ) {
            Some(m) => c.mac_address@ == m && !c.preserve_firmware_mac,
            None => c.mac_address@ == seq![0x02u8, 0x00u8, 0x00u8, 0x20u8, 0x02u8, 0x00u8]
                && c.preserve_firmware_mac,
        },
        r matches Ok(c) ==> fdt_config_spec(*props, c.mac_address, c.preserve_firmware_mac, c),
{
    let fdt_mac = mac_address_from_fdt(props);
    let mac_address = match fdt_mac {
        Some(mac) => mac,
        None => default_mac_address(),
    };
    config_from_fdt(props, mac_address, fdt_mac.is_none())
}

} // verus!
