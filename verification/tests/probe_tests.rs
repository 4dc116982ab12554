use kernel_kit::dwmac::error::PhyMode;
use kernel_kit::dwmac::probe::{
    config_from_fdt, default_mac_address, mac_address_from_fdt, pbl_u8, probe_config, FdtNodeProps, ProbeError,
};

fn empty_props() -> FdtNodeProps {
    FdtNodeProps {
        local_mac_address: None,
        mac_address: None,
        phy_mode: None,
        txpbl: None,
        rxpbl: None,
        phy_address: None,
        phy_addr: None,
    }
}

#[test]
fn node_without_address_uses_default_and_keeps_firmware_mac() {
    let cfg = probe_config(&empty_props()).unwrap();
    assert_eq!(cfg.mac_address, [0x02, 0x00, 0x00, 0x20, 0x02, 0x00]);
    assert_eq!(default_mac_address(), [0x02, 0x00, 0x00, 0x20, 0x02, 0x00]);
    assert!(cfg.preserve_firmware_mac);
    assert_eq!(cfg.phy_mode, PhyMode::Rmii);
    assert_eq!(cfg.txpbl, 8);
    assert_eq!(cfg.phy_addr, None);
}

#[test]
fn local_mac_address_wins_when_six_bytes() {
    let mut props = empty_props();
    props.local_mac_address = Some(vec![1, 2, 3]);
    props.mac_address = Some(vec![0x96, 0xce, 0xb6, 0xce, 0xe1, 0x20]);
    assert_eq!(mac_address_from_fdt(&props), Some([0x96, 0xce, 0xb6, 0xce, 0xe1, 0x20]));
    props.local_mac_address = Some(vec![0x02, 1, 2, 3, 4, 5]);
    assert_eq!(mac_address_from_fdt(&props), Some([0x02, 1, 2, 3, 4, 5]));
    let cfg = probe_config(&props).unwrap();
    assert!(!cfg.preserve_firmware_mac);
    assert_eq!(cfg.mac_address, [0x02, 1, 2, 3, 4, 5]);
}

#[test]
fn node_properties_set_mode_bursts_and_phy_address() {
    let mut props = empty_props();
    props.phy_mode = Some(String::from("mii"));
    props.txpbl = Some(16);
    props.rxpbl = Some(4);
    props.phy_addr = Some(0x105);
    let cfg = config_from_fdt(&props, [2, 0, 0, 0, 0, 1], false).unwrap();
    assert_eq!(cfg.phy_mode, PhyMode::Mii);
    assert_eq!(cfg.txpbl, 16);
    assert_eq!(cfg.rxpbl, 4);
    assert_eq!(cfg.phy_addr, Some(5));
    props.phy_address = Some(7);
    let cfg = config_from_fdt(&props, [2, 0, 0, 0, 0, 1], false).unwrap();
    assert_eq!(cfg.phy_addr, Some(7));
}

#[test]
fn unsupported_phy_mode_is_refused() {
    let mut props = empty_props();
    props.phy_mode = Some(String::from("rgmii"));
    props.txpbl = Some(1000);
    assert_eq!(
        config_from_fdt(&props, [2, 0, 0, 0, 0, 1], false),
        Err(ProbeError::UnsupportedPhyMode(String::from("rgmii")))
    );
}

#[test]
fn burst_length_must_fit_a_byte() {
    assert_eq!(pbl_u8("snps,txpbl", 255), Ok(255));
    assert_eq!(pbl_u8("snps,txpbl", 256), Err(ProbeError::PblTooLarge { name: String::from("snps,txpbl"), value: 256 }));
    let mut props = empty_props();
    props.rxpbl = Some(300);
    assert_eq!(
        probe_config(&props),
        Err(ProbeError::PblTooLarge { name: String::from("snps,rxpbl"), value: 300 })
    );
}
