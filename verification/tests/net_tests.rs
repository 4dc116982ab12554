use kernel_kit::net::ethernet::{EthernetDevice, TxFrame};
use kernel_kit::net::irq::{
    ethernet_irq_outcome, exposes_readiness, irq_setup, should_take_irq_handler, EthernetIrqAction,
    EthernetIrqOutcome, IrqSetup, NetIrqEvents,
};
use kernel_kit::net::wire::{
    arp_packet, ethernet_frame, ethernet_payload_protocol, ArpRepr, IpAddress, Ipv4Cidr,
    ETHERTYPE_8021AD, ETHERTYPE_8021Q, ETHERTYPE_ARP, ETHERTYPE_IPV4,
};

const OUR_MAC: [u8; 6] = [0x02, 0x00, 0x00, 0x00, 0x00, 0x01];
const PEER_MAC: [u8; 6] = [0x02, 0x00, 0x00, 0x00, 0x00, 0x02];
const OUR_IP: u32 = 0x0a00_0002;
const PEER_IP: u32 = 0x0a00_0001;
const SECOND: i64 = 1_000_000;

fn device() -> EthernetDevice {
    EthernetDevice::new(String::from("eth0"), Some(Ipv4Cidr::new(OUR_IP, 24)), 4, 1500)
}

fn arp_bytes(operation: u16, sha: [u8; 6], spa: u32, tha: [u8; 6], tpa: u32) -> Vec<u8> {
    arp_packet(&ArpRepr {
        operation,
        source_hardware_addr: sha,
        source_protocol_addr: spa,
        target_hardware_addr: tha,
        target_protocol_addr: tpa,
    })
}

fn frame_to(dst: [u8; 6], ethertype: u16, payload: &[u8]) -> Vec<u8> {
    ethernet_frame(dst, PEER_MAC, ethertype, payload)
}

#[test]
fn ethernet_payload_protocol_strips_8021q_ipv4() {
    let payload = [0x12, 0x34, 0x08, 0x00, 0x45, 0x00];

    let (protocol, inner) =
        ethernet_payload_protocol(ETHERTYPE_8021Q, &payload).expect("vlan payload should be accepted");

    assert_eq!(protocol, ETHERTYPE_IPV4);
    assert_eq!(inner, &[0x45, 0x00]);
}

#[test]
fn ethernet_payload_protocol_rejects_short_vlan() {
    let payload = [0x12, 0x34, 0x08];

    assert_eq!(ethernet_payload_protocol(ETHERTYPE_8021Q, &payload), None);
}

#[test]
fn ethernet_payload_protocol_passes_untagged_and_strips_qinq() {
    let payload = [0xaa, 0xbb];
    assert_eq!(ethernet_payload_protocol(ETHERTYPE_ARP, &payload), Some((ETHERTYPE_ARP, &payload[..])));
    let tagged = [0x00, 0x01, 0x08, 0x06, 0x01];
    assert_eq!(ethernet_payload_protocol(ETHERTYPE_8021AD, &tagged), Some((ETHERTYPE_ARP, &tagged[4..])));
}

#[test]
fn arp_packet_layout_is_ethernet_ipv4() {
    let bytes = arp_bytes(1, OUR_MAC, OUR_IP, [0; 6], PEER_IP);
    assert_eq!(bytes.len(), 28);
    assert_eq!(&bytes[..8], &[0, 1, 8, 0, 6, 4, 0, 1]);
    assert_eq!(&bytes[8..14], &OUR_MAC);
    assert_eq!(&bytes[14..18], &[10, 0, 0, 2]);
    assert_eq!(&bytes[18..24], &[0; 6]);
    assert_eq!(&bytes[24..28], &[10, 0, 0, 1]);
}

#[test]
fn frame_bytes_are_header_then_payload() {
    let frame = TxFrame { dst: PEER_MAC, ethertype: ETHERTYPE_IPV4, payload: vec![1, 2, 3] };
    let bytes = frame.to_bytes(OUR_MAC);
    assert_eq!(&bytes[..6], &PEER_MAC);
    assert_eq!(&bytes[6..12], &OUR_MAC);
    assert_eq!(&bytes[12..14], &[0x08, 0x00]);
    assert_eq!(&bytes[14..], &[1, 2, 3]);
}

#[test]
fn send_to_broadcast_goes_out_at_once() {
    let mut dev = device();
    let mut tx = Vec::new();
    assert!(!dev.send(IpAddress::Ipv4(0xffff_ffff), &[1, 2], &OUR_MAC, 0, &mut tx));
    assert_eq!(tx, vec![TxFrame { dst: [0xff; 6], ethertype: ETHERTYPE_IPV4, payload: vec![1, 2] }]);

    let mut tx = Vec::new();
    dev.send(IpAddress::Ipv4(0x0a00_00ff), &[3], &OUR_MAC, 0, &mut tx);
    assert_eq!(tx, vec![TxFrame { dst: [0xff; 6], ethertype: ETHERTYPE_IPV4, payload: vec![3] }]);
}

#[test]
fn send_to_unresolved_hop_asks_once_per_second() {
    let mut dev = device();
    let mut tx = Vec::new();
    dev.send(IpAddress::Ipv4(PEER_IP), &[1], &OUR_MAC, 0, &mut tx);
    assert_eq!(
        tx,
        vec![TxFrame { dst: [0xff; 6], ethertype: ETHERTYPE_ARP, payload: arp_bytes(1, OUR_MAC, OUR_IP, [0; 6], PEER_IP) }]
    );

    let mut tx = Vec::new();
    dev.send(IpAddress::Ipv4(PEER_IP), &[2], &OUR_MAC, SECOND / 2, &mut tx);
    assert!(tx.is_empty());

    let mut tx = Vec::new();
    dev.send(IpAddress::Ipv4(PEER_IP), &[3], &OUR_MAC, SECOND, &mut tx);
    assert_eq!(tx.len(), 1);
    assert_eq!(tx[0].ethertype, ETHERTYPE_ARP);
}

#[test]
fn send_without_address_or_to_ipv6_sends_nothing() {
    let mut dev = EthernetDevice::new(String::from("eth0"), None, 4, 1500);
    let mut tx = Vec::new();
    dev.send(IpAddress::Ipv4(PEER_IP), &[1], &OUR_MAC, 0, &mut tx);
    assert!(tx.is_empty());
    let mut dev = device();
    dev.send(IpAddress::Ipv6(1), &[1], &OUR_MAC, 0, &mut tx);
    assert!(tx.is_empty());
}

#[test]
fn arp_reply_resolves_and_flushes_queue_in_order() {
    let mut dev = device();
    let mut tx = Vec::new();
    dev.send(IpAddress::Ipv4(PEER_IP), &[1], &OUR_MAC, 0, &mut tx);
    dev.send(IpAddress::Ipv4(PEER_IP), &[2], &OUR_MAC, 10, &mut tx);
    dev.send(IpAddress::Ipv4(PEER_IP), &[3], &OUR_MAC, 20, &mut tx);

    let reply = frame_to(OUR_MAC, ETHERTYPE_ARP, &arp_bytes(2, PEER_MAC, PEER_IP, OUR_MAC, OUR_IP));
    let mut tx = Vec::new();
    assert_eq!(dev.handle_frame(&reply, &OUR_MAC, 30, &mut tx), None);
    assert_eq!(
        tx,
        vec![
            TxFrame { dst: PEER_MAC, ethertype: ETHERTYPE_IPV4, payload: vec![1] },
            TxFrame { dst: PEER_MAC, ethertype: ETHERTYPE_IPV4, payload: vec![2] },
            TxFrame { dst: PEER_MAC, ethertype: ETHERTYPE_IPV4, payload: vec![3] },
        ]
    );

    let mut tx = Vec::new();
    dev.send(IpAddress::Ipv4(PEER_IP), &[4], &OUR_MAC, 40, &mut tx);
    assert_eq!(tx, vec![TxFrame { dst: PEER_MAC, ethertype: ETHERTYPE_IPV4, payload: vec![4] }]);
}

#[test]
fn arp_request_for_us_is_answered_and_learned() {
    let mut dev = device();
    let request = frame_to([0xff; 6], ETHERTYPE_ARP, &arp_bytes(1, PEER_MAC, PEER_IP, [0; 6], OUR_IP));
    let mut tx = Vec::new();
    assert_eq!(dev.handle_frame(&request, &OUR_MAC, 0, &mut tx), None);
    assert_eq!(
        tx,
        vec![TxFrame { dst: PEER_MAC, ethertype: ETHERTYPE_ARP, payload: arp_bytes(2, OUR_MAC, OUR_IP, PEER_MAC, PEER_IP) }]
    );
    let entries = dev.arp_entries(1);
    assert_eq!(entries.len(), 1);
    assert_eq!(entries[0].ip_addr, [10, 0, 0, 1]);
    assert_eq!(entries[0].hw_addr, PEER_MAC);
    assert_eq!(entries[0].hw_type, 1);
    assert_eq!(entries[0].flags, 2);
    assert_eq!(entries[0].device, "eth0");
}

#[test]
fn arp_for_another_station_or_address_is_ignored() {
    let mut dev = device();
    let mut tx = Vec::new();
    let other = frame_to(OUR_MAC, ETHERTYPE_ARP, &arp_bytes(2, PEER_MAC, PEER_IP, [0x02, 0, 0, 0, 0, 9], OUR_IP));
    dev.handle_frame(&other, &OUR_MAC, 0, &mut tx);
    let wrong_ip = frame_to(OUR_MAC, ETHERTYPE_ARP, &arp_bytes(2, PEER_MAC, PEER_IP, OUR_MAC, 0x0a00_0063));
    dev.handle_frame(&wrong_ip, &OUR_MAC, 0, &mut tx);
    let multicast_sender = frame_to(OUR_MAC, ETHERTYPE_ARP, &arp_bytes(2, [0x01, 0, 0, 0, 0, 1], PEER_IP, OUR_MAC, OUR_IP));
    dev.handle_frame(&multicast_sender, &OUR_MAC, 0, &mut tx);
    assert!(tx.is_empty());
    assert!(dev.arp_entries(0).is_empty());
}

#[test]
fn neighbour_expires_after_five_minutes() {
    let mut dev = device();
    let reply = frame_to(OUR_MAC, ETHERTYPE_ARP, &arp_bytes(2, PEER_MAC, PEER_IP, OUR_MAC, OUR_IP));
    let mut tx = Vec::new();
    dev.handle_frame(&reply, &OUR_MAC, 0, &mut tx);
    assert_eq!(dev.arp_entries(300 * SECOND - 1).len(), 1);
    assert!(dev.arp_entries(300 * SECOND).is_empty());

    let mut tx = Vec::new();
    dev.send(IpAddress::Ipv4(PEER_IP), &[7], &OUR_MAC, 300 * SECOND, &mut tx);
    assert_eq!(tx.len(), 1);
    assert_eq!(tx[0].ethertype, ETHERTYPE_ARP);
    assert_eq!(tx[0].dst, [0xff; 6]);
}

#[test]
fn ipv4_frames_for_us_are_delivered() {
    let mut dev = device();
    let mut tx = Vec::new();
    let frame = frame_to(OUR_MAC, ETHERTYPE_IPV4, &[0x45, 0, 0, 20]);
    assert_eq!(dev.handle_frame(&frame, &OUR_MAC, 0, &mut tx), Some(&[0x45u8, 0, 0, 20][..]));
    let broadcast = frame_to([0xff; 6], ETHERTYPE_IPV4, &[9]);
    assert_eq!(dev.handle_frame(&broadcast, &OUR_MAC, 0, &mut tx), Some(&[9u8][..]));
    let other = frame_to(PEER_MAC, ETHERTYPE_IPV4, &[9]);
    assert_eq!(dev.handle_frame(&other, &OUR_MAC, 0, &mut tx), None);
    assert_eq!(dev.handle_frame(&[0u8; 10], &OUR_MAC, 0, &mut tx), None);
    let vlan = frame_to(OUR_MAC, ETHERTYPE_8021Q, &[0, 5, 0x08, 0x00, 0x45]);
    assert_eq!(dev.handle_frame(&vlan, &OUR_MAC, 0, &mut tx), Some(&[0x45u8][..]));
    assert!(tx.is_empty());
}

#[test]
fn new_address_forgets_neighbours() {
    let mut dev = device();
    let reply = frame_to(OUR_MAC, ETHERTYPE_ARP, &arp_bytes(2, PEER_MAC, PEER_IP, OUR_MAC, OUR_IP));
    let mut tx = Vec::new();
    dev.handle_frame(&reply, &OUR_MAC, 0, &mut tx);
    assert_eq!(dev.arp_entries(0).len(), 1);
    dev.set_ipv4_addr(Some(Ipv4Cidr::new(0x0a00_0005, 24)));
    assert!(dev.arp_entries(0).is_empty());
}

#[test]
fn cidr_broadcast_addresses() {
    assert_eq!(Ipv4Cidr::new(0x0a00_0002, 24).broadcast(), Some(0x0a00_00ff));
    assert_eq!(Ipv4Cidr::new(0x0a00_0002, 0).broadcast(), Some(0xffff_ffff));
    assert_eq!(Ipv4Cidr::new(0x0a00_0002, 31).broadcast(), None);
    assert_eq!(Ipv4Cidr::new(0x0a00_0002, 32).broadcast(), None);
}

#[test]
fn irq_outcome_wakes_on_progress_only() {
    let none = NetIrqEvents { rx_ready: false, rx_error: false, tx_done: false };
    assert_eq!(ethernet_irq_outcome(none), EthernetIrqOutcome::Handled);
    assert_eq!(ethernet_irq_outcome(NetIrqEvents { rx_ready: true, ..none }), EthernetIrqOutcome::Wake);
    assert_eq!(ethernet_irq_outcome(NetIrqEvents { rx_error: true, ..none }), EthernetIrqOutcome::Wake);
    assert_eq!(ethernet_irq_outcome(NetIrqEvents { tx_done: true, ..none }), EthernetIrqOutcome::Wake);
}

#[test]
fn irq_action_runs_its_handler() {
    let mut count = 0;
    let mut action = EthernetIrqAction::new(move || {
        count += 1;
        if count > 1 { EthernetIrqOutcome::Wake } else { EthernetIrqOutcome::Handled }
    });
    assert_eq!(action.run(), EthernetIrqOutcome::Handled);
    assert_eq!(action.run(), EthernetIrqOutcome::Wake);
}

#[test]
fn irq_handler_is_taken_only_when_it_can_be_registered() {
    assert!(should_take_irq_handler(true, true));
    assert!(!should_take_irq_handler(true, false));
    assert!(!should_take_irq_handler(false, true));
    assert_eq!(irq_setup(false, true, true, true), IrqSetup::NoIrq);
    assert_eq!(irq_setup(true, false, false, false), IrqSetup::NoRegistrar);
    assert_eq!(irq_setup(true, true, false, false), IrqSetup::NoHandler);
    assert_eq!(irq_setup(true, true, true, false), IrqSetup::Refused);
    assert_eq!(irq_setup(true, true, true, true), IrqSetup::Registered);
    assert!(exposes_readiness(IrqSetup::Registered, false));
    assert!(exposes_readiness(IrqSetup::NoIrq, true));
    assert!(!exposes_readiness(IrqSetup::Refused, false));
}

#[test]
fn pending_queue_holds_at_most_its_capacity() {
    let mut dev = EthernetDevice::new(String::from("eth0"), Some(Ipv4Cidr::new(OUR_IP, 24)), 2, 1500);
    let mut tx = Vec::new();
    for i in 0..4u8 {
        dev.send(IpAddress::Ipv4(PEER_IP), &[i], &OUR_MAC, 10, &mut tx);
    }
    let reply = frame_to(OUR_MAC, ETHERTYPE_ARP, &arp_bytes(2, PEER_MAC, PEER_IP, OUR_MAC, OUR_IP));
    let mut tx = Vec::new();
    dev.handle_frame(&reply, &OUR_MAC, 20, &mut tx);
    assert_eq!(
        tx,
        vec![
            TxFrame { dst: PEER_MAC, ethertype: ETHERTYPE_IPV4, payload: vec![0] },
            TxFrame { dst: PEER_MAC, ethertype: ETHERTYPE_IPV4, payload: vec![1] },
        ]
    );
}

#[test]
fn readiness_is_exposed_only_for_a_registered_handler_or_out_of_band_rx() {
    assert!(exposes_readiness(irq_setup(true, true, true, true), false));
    assert!(!exposes_readiness(irq_setup(true, true, true, false), false));
    assert!(!exposes_readiness(irq_setup(true, false, false, false), false));
    assert!(!exposes_readiness(irq_setup(false, false, false, false), false));
    assert!(exposes_readiness(irq_setup(false, false, false, false), true));
}
