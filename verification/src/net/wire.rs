//! Ethernet II and ARP wire formats, and the addresses they carry.
//!
//! Parsing and emitting headers is done by smoltcp; what it does is short
//! enough to be written down here exactly, and the rest of the adapter is
//! proved against that statement.

use vstd::prelude::*;

use smoltcp::wire as smol;

verus! {

pub const ETHERTYPE_IPV4: u16 = 0x0800;

pub const ETHERTYPE_ARP: u16 = 0x0806;

/// IEEE 802.1Q VLAN tag.
pub const ETHERTYPE_8021Q: u16 = 0x8100;

/// IEEE 802.1ad (QinQ) service tag.
pub const ETHERTYPE_8021AD: u16 = 0x88a8;

pub const VLAN_HEADER_LEN: usize = 4;

pub const ETHERNET_HEADER_LEN: usize = 14;

/// Length of an Ethernet/IPv4 ARP packet.
pub const ARP_PACKET_LEN: usize = 28;

pub const ARP_OP_REQUEST: u16 = 1;

pub const ARP_OP_REPLY: u16 = 2;

/// Big-endian value of two bytes.
pub open spec fn be16(hi: u8, lo: u8) -> u16 {
    ((hi as u16) << 8u16) | (lo as u16)
}

/// Big-endian value of four bytes.
pub open spec fn be32(b0: u8, b1: u8, b2: u8, b3: u8) -> u32 {
    ((b0 as u32) << 24u32) | ((b1 as u32) << 16u32) | ((b2 as u32) << 8u32) | (b3 as u32)
}

/// The four bytes of `x`, most significant first.
pub open spec fn be32_bytes(x: u32) -> Seq<u8> {
    seq![(x >> 24u32) as u8, (x >> 16u32) as u8, (x >> 8u32) as u8, x as u8]
}

/// The two bytes of `x`, most significant first.
pub open spec fn be16_bytes(x: u16) -> Seq<u8> {
    seq![(x >> 8u16) as u8, x as u8]
}

/// The all-ones hardware address.
pub open spec fn broadcast_mac_seq() -> Seq<u8> {
    seq![0xffu8, 0xffu8, 0xffu8, 0xffu8, 0xffu8, 0xffu8]
}

/// The all-zero hardware address.
pub open spec fn zero_mac_seq() -> Seq<u8> {
    seq![0u8, 0u8, 0u8, 0u8, 0u8, 0u8]
}

/// The group bit of the first octet is set.
pub open spec fn is_multicast_mac(m: Seq<u8>) -> bool {
    m[0] & 1 == 1
}

pub open spec fn is_unicast_mac(m: Seq<u8>) -> bool {
    m != broadcast_mac_seq() && !is_multicast_mac(m)
}

pub fn broadcast_mac() -> (r: [u8; 6])
    ensures
        r@ == broadcast_mac_seq(),
{
    let r = [0xffu8; 6];
    assert(r@ =~= broadcast_mac_seq());
    r
}

pub fn zero_mac() -> (r: [u8; 6])
    ensures
        r@ == zero_mac_seq(),
{
    let r = [0u8; 6];
    assert(r@ =~= zero_mac_seq());
    r
}

pub fn mac_is_broadcast(m: &[u8; 6]) -> (r: bool)
    ensures
        r == (m@ == broadcast_mac_seq()),
{
    let r = m[0] == 0xff && m[1] == 0xff && m[2] == 0xff && m[3] == 0xff && m[4] == 0xff && m[5]
        == 0xff;
    proof {
        if r {
            assert(m@ =~= broadcast_mac_seq());
        } else {
            assert(m@ != broadcast_mac_seq()) by {
                if m@ == broadcast_mac_seq() {
                    assert(m@[0] == 0xff && m@[1] == 0xff && m@[2] == 0xff);
                    assert(m@[3] == 0xff && m@[4] == 0xff && m@[5] == 0xff);
                }
            }
        }
    }
    r
}

pub fn mac_is_zero(m: &[u8; 6]) -> (r: bool)
    ensures
        r == (m@ == zero_mac_seq()),
{
    let r = m[0] == 0 && m[1] == 0 && m[2] == 0 && m[3] == 0 && m[4] == 0 && m[5] == 0;
    proof {
        if r {
            assert(m@ =~= zero_mac_seq());
        } else {
            assert(m@ != zero_mac_seq()) by {
                if m@ == zero_mac_seq() {
                    assert(m@[0] == 0 && m@[1] == 0 && m@[2] == 0);
                    assert(m@[3] == 0 && m@[4] == 0 && m@[5] == 0);
                }
            }
        }
    }
    r
}

pub fn mac_is_unicast(m: &[u8; 6]) -> (r: bool)
    ensures
        r == is_unicast_mac(m@),
{
    let bcast = mac_is_broadcast(m);
    let first = m[0];
    let mcast = first & 1 == 1;
    assert(m@[0] == first);
    !bcast && !mcast
}

pub fn mac_eq(a: &[u8; 6], b: &[u8; 6]) -> (r: bool)
    ensures
        r == (a@ == b@),
{
    let r = a[0] == b[0] && a[1] == b[1] && a[2] == b[2] && a[3] == b[3] && a[4] == b[4] && a[5]
        == b[5];
    proof {
        if r {
            assert(a@ =~= b@);
        } else {
            assert(a@ != b@) by {
                if a@ == b@ {
                    assert(a@[0] == b@[0] && a@[1] == b@[1] && a@[2] == b@[2]);
                    assert(a@[3] == b@[3] && a@[4] == b@[4] && a@[5] == b@[5]);
                }
            }
        }
    }
    r
}

/// The limited broadcast address 255.255.255.255.
pub open spec fn is_ipv4_broadcast(a: u32) -> bool {
    a == 0xffff_ffff
}

/// 224.0.0.0/4.
pub open spec fn is_ipv4_multicast(a: u32) -> bool {
    224 <= (a >> 24u32) <= 239
}

/// 0.0.0.0.
pub open spec fn is_ipv4_unspecified(a: u32) -> bool {
    a == 0
}

/// A network-layer address, IPv4 addresses taken as big-endian numbers.
#[derive(Clone, Copy, Debug, PartialEq, Eq, Structural)]
pub enum IpAddress {
    Ipv4(u32),
    Ipv6(u128),
}

impl IpAddress {
    /// Only the IPv4 limited broadcast address is a broadcast address.
    pub fn is_broadcast(&self) -> (r: bool)
        ensures
            r == (*self matches IpAddress::Ipv4(a) && is_ipv4_broadcast(a)),
    {
        match self {
            IpAddress::Ipv4(a) => *a == 0xffff_ffff,
            IpAddress::Ipv6(_) => false,
        }
    }
}

/// An IPv4 address with the length of its network prefix.
#[derive(Clone, Copy, Debug, PartialEq, Eq, Structural)]
pub struct Ipv4Cidr {
    address: u32,
    prefix_len: u8,
}

/// Mask of the first `prefix_len` bits.
pub open spec fn netmask_spec(prefix_len: u8) -> u32 {
    if prefix_len == 0 {
        0
    } else {
        0xffff_ffffu32 << ((32 - prefix_len) as u32)
    }
}

impl Ipv4Cidr {
    #[verifier::type_invariant]
    spec fn prefix_fits(self) -> bool {
        self.prefix_len <= 32
    }

    pub closed spec fn address_spec(self) -> u32 {
        self.address
    }

    pub closed spec fn prefix_len_spec(self) -> u8 {
        self.prefix_len
    }

    /// The block of `address` with a `prefix_len`-bit prefix.
    pub fn new(address: u32, prefix_len: u8) -> (r: Self)
        requires
            prefix_len <= 32,
        ensures
            r.address_spec() == address,
            r.prefix_len_spec() == prefix_len,
    {
        Ipv4Cidr { address, prefix_len }
    }

    pub fn address(&self) -> (r: u32)
        ensures
            r == self.address_spec(),
    {
        self.address
    }

    pub fn prefix_len(&self) -> (r: u8)
        ensures
            r == self.prefix_len_spec(),
            r <= 32,
    {
        proof {
            use_type_invariant(self);
        }
        self.prefix_len
    }

    /// The directed broadcast address of the block; none for /31 and /32.
    pub open spec fn broadcast_spec(self) -> Option<u32> {
        let p = self.prefix_len_spec();
        if p == 31 || p == 32 {
            None
        } else {
            Some((self.address_spec() & netmask_spec(p)) | (0xffff_ffffu32 >> (p as u32)))
        }
    }

    pub fn broadcast(&self) -> (r: Option<u32>)
        ensures
            r == self.broadcast_spec(),
    {
        proof {
            use_type_invariant(self);
        }
        let p = self.prefix_len;
        if p == 31 || p == 32 {
            return None;
        }
        let mask: u32 = if p == 0 {
            0
        } else {
            0xffff_ffffu32 << ((32 - p) as u32)
        };
        Some((self.address & mask) | (0xffff_ffffu32 >> (p as u32)))
    }
}

/// The header of an Ethernet II frame.
#[derive(Clone, Copy, Debug, PartialEq, Eq)]
pub struct EthernetHeader {
    pub dst_addr: [u8; 6],
    pub src_addr: [u8; 6],
    pub ethertype: u16,
}

/// `h` is what the first fourteen bytes of `bytes` say.
pub open spec fn ethernet_header_of(bytes: Seq<u8>, h: EthernetHeader) -> bool {
    &&& h.dst_addr@ == bytes.subrange(0, 6)
    &&& h.src_addr@ == bytes.subrange(6, 12)
    &&& h.ethertype == be16(bytes[12], bytes[13])
}

/// The fourteen header bytes of a frame from `src` to `dst`.
pub open spec fn ethernet_header_bytes(dst: [u8; 6], src: [u8; 6], ethertype: u16) -> Seq<u8> {
    dst@ + src@ + be16_bytes(ethertype)
}

/// smoltcp's `EthernetRepr::parse` on `EthernetFrame::new_unchecked(frame)`:
/// it refuses a frame shorter than the fourteen-byte header, and otherwise
/// reads the destination, the source and the big-endian EtherType.
#[verifier::external_body]
pub(crate) fn parse_ethernet_header(frame: &[u8]) -> (r: Option<EthernetHeader>)
    ensures
        r is None <==> frame@.len() < 14,
        r matches Some(h) ==> ethernet_header_of(frame@, h),
{
    match smol::EthernetRepr::parse(&smol::EthernetFrame::new_unchecked(frame)) {
        Ok(repr) => Some(
            EthernetHeader {
                dst_addr: repr.dst_addr.0,
                src_addr: repr.src_addr.0,
                ethertype: u16::from(repr.ethertype),
            },
        ),
        Err(_) => None,
    }
}

/// smoltcp's `EthernetRepr::emit` into a fourteen-byte buffer: destination,
/// source, then the EtherType big-endian.
#[verifier::external_body]
pub(crate) fn emit_ethernet_header(dst: [u8; 6], src: [u8; 6], ethertype: u16) -> (r: [u8; 14])
    ensures
        r@ == ethernet_header_bytes(dst, src, ethertype),
{
    let mut buf = [0u8; 14];
    let repr = smol::EthernetRepr {
        src_addr: smol::EthernetAddress(src),
        dst_addr: smol::EthernetAddress(dst),
        ethertype: smol::EthernetProtocol::from(ethertype),
    };
    repr.emit(&mut smol::EthernetFrame::new_unchecked(&mut buf[..]));
    buf
}

/// A whole frame: the header, then `payload`.
pub fn ethernet_frame(dst: [u8; 6], src: [u8; 6], ethertype: u16, payload: &[u8]) -> (r: Vec<u8>)
    ensures
        r@ == ethernet_header_bytes(dst, src, ethertype) + payload@,
{
    let header = emit_ethernet_header(dst, src, ethertype);
    let mut out: Vec<u8> = Vec::new();
    let mut i: usize = 0;
    while i < 14
        invariant
            i <= 14,
            header@.len() == 14,
            out@ == header@.subrange(0, i as int),
        decreases 14 - i,
    {
        out.push(header[i]);
        i = i + 1;
        assert(out@ =~= header@.subrange(0, i as int));
    }
    let mut j: usize = 0;
    while j < payload.len()
        invariant
            j <= payload@.len(),
            header@.len() == 14,
            out@ == header@ + payload@.subrange(0, j as int),
        decreases payload@.len() - j,
    {
        out.push(payload[j]);
        j = j + 1;
        assert(out@ =~= header@ + payload@.subrange(0, j as int));
    }
    assert(payload@.subrange(0, payload@.len() as int) =~= payload@);
    out
}

/// Strips one 802.1Q or 802.1ad tag: the protocol of the payload and the
/// payload itself, or none for a tagged payload shorter than the tag.
pub open spec fn payload_protocol_spec(ethertype: u16, payload: Seq<u8>) -> Option<(u16, Seq<u8>)> {
    if ethertype == ETHERTYPE_8021Q || ethertype == ETHERTYPE_8021AD {
        if payload.len() < VLAN_HEADER_LEN {
            None
        } else {
            Some((be16(payload[2], payload[3]), payload.subrange(4, payload.len() as int)))
        }
    } else {
        Some((ethertype, payload))
    }
}

/// The protocol of a frame's payload, looking through one VLAN tag.
pub fn ethernet_payload_protocol(ethertype: u16, payload: &[u8]) -> (r: Option<(u16, &[u8])>)
    ensures
        match payload_protocol_spec(ethertype, payload@) {
            None => r is None,
            Some((t, p)) => r matches Some((rt, rp)) && rt == t && rp@ == p,
        },
{
    if ethertype == ETHERTYPE_8021Q || ethertype == ETHERTYPE_8021AD {
        if payload.len() < VLAN_HEADER_LEN {
            return None;
        }
        let inner: u16 = ((payload[2] as u16) << 8u16) | (payload[3] as u16);
        let (_, rest) = payload.split_at(VLAN_HEADER_LEN);
        Some((inner, rest))
    } else {
        Some((ethertype, payload))
    }
}

/// An Ethernet/IPv4 ARP packet.
#[derive(Clone, Copy, Debug, PartialEq, Eq)]
pub struct ArpRepr {
    pub operation: u16,
    pub source_hardware_addr: [u8; 6],
    pub source_protocol_addr: u32,
    pub target_hardware_addr: [u8; 6],
    pub target_protocol_addr: u32,
}

/// smoltcp reads `b` as an Ethernet/IPv4 ARP packet: it is long enough for
/// its own address lengths, and says Ethernet hardware, IPv4, six and four.
pub open spec fn arp_parses(b: Seq<u8>) -> bool {
    &&& b.len() >= 8
    &&& b.len() >= 8 + 2 * (b[4] + b[5])
    &&& be16(b[0], b[1]) == 1
    &&& be16(b[2], b[3]) == ETHERTYPE_IPV4
    &&& b[4] == 6
    &&& b[5] == 4
}

pub open spec fn arp_op(b: Seq<u8>) -> u16 {
    be16(b[6], b[7])
}

pub open spec fn arp_sha(b: Seq<u8>) -> Seq<u8> {
    b.subrange(8, 14)
}

pub open spec fn arp_spa(b: Seq<u8>) -> u32 {
    be32(b[14], b[15], b[16], b[17])
}

pub open spec fn arp_tha(b: Seq<u8>) -> Seq<u8> {
    b.subrange(18, 24)
}

pub open spec fn arp_tpa(b: Seq<u8>) -> u32 {
    be32(b[24], b[25], b[26], b[27])
}

/// The fields of an ARP packet `b`.
pub open spec fn arp_fields_of(b: Seq<u8>, r: ArpRepr) -> bool {
    &&& r.operation == arp_op(b)
    &&& r.source_hardware_addr@ == arp_sha(b)
    &&& r.source_protocol_addr == arp_spa(b)
    &&& r.target_hardware_addr@ == arp_tha(b)
    &&& r.target_protocol_addr == arp_tpa(b)
}

/// The bytes of an Ethernet/IPv4 ARP packet with the given fields.
pub open spec fn arp_packet_bytes(op: u16, sha: Seq<u8>, spa: u32, tha: Seq<u8>, tpa: u32) -> Seq<
    u8,
> {
    seq![0u8, 1u8, 8u8, 0u8, 6u8, 4u8] + be16_bytes(op) + sha + be32_bytes(spa) + tha + be32_bytes(
        tpa,
    )
}

/// The bytes of an ARP packet.
pub open spec fn arp_bytes(r: ArpRepr) -> Seq<u8> {
    arp_packet_bytes(
        r.operation,
        r.source_hardware_addr@,
        r.source_protocol_addr,
        r.target_hardware_addr@,
        r.target_protocol_addr,
    )
}

/// smoltcp's `ArpRepr::parse` of the packet: it checks the length the
/// packet's own address lengths call for, as `ArpPacket::new_checked` does,
/// then gives an Ethernet/IPv4 packet whose fields are read big-endian, or
/// refuses.
#[verifier::external_body]
pub(crate) fn parse_arp(payload: &[u8]) -> (r: Option<ArpRepr>)
    ensures
        r is Some <==> arp_parses(payload@),
        r matches Some(a) ==> arp_fields_of(payload@, a),
{
    match smol::ArpRepr::parse(&smol::ArpPacket::new_unchecked(payload)) {
        Ok(smol::ArpRepr::EthernetIpv4 { operation, source_hardware_addr: sha, source_protocol_addr: spa, target_hardware_addr: tha, target_protocol_addr: tpa }) => Some(ArpRepr {
            operation: u16::from(operation),
            source_hardware_addr: sha.0,
            source_protocol_addr: u32::from(spa),
            target_hardware_addr: tha.0,
            target_protocol_addr: u32::from(tpa),
        }),
        _ => None,
    }
}

/// smoltcp's `ArpRepr::emit` of an Ethernet/IPv4 packet into 28 bytes.
#[verifier::external_body]
pub(crate) fn emit_arp(r: &ArpRepr) -> (out: [u8; 28])
    ensures
        out@ == arp_bytes(*r),
{
    let mut buf = [0u8; 28];
    let repr = smol::ArpRepr::EthernetIpv4 {
        operation: smol::ArpOperation::from(r.operation),
        source_hardware_addr: smol::EthernetAddress(r.source_hardware_addr),
        source_protocol_addr: smol::Ipv4Address::from(r.source_protocol_addr),
        target_hardware_addr: smol::EthernetAddress(r.target_hardware_addr),
        target_protocol_addr: smol::Ipv4Address::from(r.target_protocol_addr),
    };
    repr.emit(&mut smol::ArpPacket::new_unchecked(&mut buf[..]));
    buf
}

/// What an ARP packet is read back as is what it was written from.
pub proof fn lemma_arp_roundtrip(r: ArpRepr)
    ensures
        arp_parses(arp_bytes(r)),
        arp_fields_of(arp_bytes(r), r),
{
    let b = arp_bytes(r);
    let op = r.operation;
    let spa = r.source_protocol_addr;
    let tpa = r.target_protocol_addr;
    assert(b.len() == 28);
    assert(b[0] == 0 && b[1] == 1 && b[2] == 8 && b[3] == 0 && b[4] == 6 && b[5] == 4);
    assert(be16(0, 1) == 1) by (bit_vector);
    assert(be16(8, 0) == 0x0800) by (bit_vector);
    assert(be16((op >> 8u16) as u8, op as u8) == op) by (bit_vector);
    assert(be32((spa >> 24u32) as u8, (spa >> 16u32) as u8, (spa >> 8u32) as u8, spa as u8) == spa)
        by (bit_vector);
    assert(be32((tpa >> 24u32) as u8, (tpa >> 16u32) as u8, (tpa >> 8u32) as u8, tpa as u8) == tpa)
        by (bit_vector);
    assert(b.subrange(8, 14) =~= r.source_hardware_addr@);
    assert(b.subrange(18, 24) =~= r.target_hardware_addr@);
}

/// Copies an ARP packet into a vector.
pub fn arp_packet(r: &ArpRepr) -> (out: Vec<u8>)
    ensures
        out@ == arp_bytes(*r),
{
    let bytes = emit_arp(r);
    let mut out: Vec<u8> = Vec::new();
    let mut i: usize = 0;
    while i < 28
        invariant
            i <= 28,
            bytes@ == arp_bytes(*r),
            bytes@.len() == 28,
            out@ == bytes@.subrange(0, i as int),
        decreases 28 - i,
    {
        out.push(bytes[i]);
        i = i + 1;
        assert(out@ =~= bytes@.subrange(0, i as int));
    }
    assert(bytes@.subrange(0, 28) =~= bytes@);
    out
}

} // verus!
