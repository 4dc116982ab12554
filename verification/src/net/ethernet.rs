//! The Ethernet adapter: neighbour discovery, the queue of packets waiting
//! for a next hop, and the filtering of received frames.
//!
//! The adapter does not talk to the driver itself. Each operation is handed
//! the station's hardware address and the time, appends the frames to send
//! to `tx`, and says what a received frame delivers; the caller does the
//! transmitting and the delivering.

use vstd::prelude::*;

use smoltcp::storage::PacketBuffer;

use super::model::{
    arp_accepts, arp_learn, arp_spec, drain_spec, drain_step, frame_arp, frame_delivers,
    request_spec, send_spec, Drain, FrameView, NetState, ARP_REQUEST_RETRY_MICROS,
    MAX_TIMESTAMP, NEIGHBOR_TTL_MICROS,
};
use super::tables::{
    dequeue_packet, enqueue_packet, neighbor_entries, new_packet_buffer, packet_buffer_is_full,
    packet_accepted, packet_capacity, peek_packet, pending_arp_entries, queued_packets, NeighborMap,
    PendingArpMap, PendingView,
};
use super::wire::{
    arp_packet, be32, be32_bytes, broadcast_mac, ethernet_frame, ethernet_header_bytes,
    ethernet_payload_protocol, mac_eq, mac_is_broadcast, mac_is_unicast, mac_is_zero,
    parse_arp, parse_ethernet_header, zero_mac, ArpRepr, IpAddress, Ipv4Cidr, ARP_OP_REPLY,
    ARP_OP_REQUEST, ETHERNET_HEADER_LEN, ETHERTYPE_ARP, ETHERTYPE_IPV4,
};

verus! {

/// A frame for the driver to send from this station.
#[derive(Clone, Debug, PartialEq, Eq)]
pub struct TxFrame {
    pub dst: [u8; 6],
    pub ethertype: u16,
    pub payload: Vec<u8>,
}

impl View for TxFrame {
    type V = FrameView;

    open spec fn view(&self) -> FrameView {
        (self.dst@, self.ethertype, self.payload@)
    }
}

impl TxFrame {
    /// The frame's bytes when sent by the station with address `src`.
    pub fn to_bytes(&self, src: [u8; 6]) -> (r: Vec<u8>)
        ensures
            r@ == ethernet_header_bytes(self.dst, src, self.ethertype) + self.payload@,
    {
        ethernet_frame(self.dst, src, self.ethertype, self.payload.as_slice())
    }
}

/// The frames of a transmit list.
pub open spec fn frames_view(v: Seq<TxFrame>) -> Seq<FrameView> {
    v.map_values(|f: TxFrame| f@)
}

/// One line of the neighbour table as the system reports it.
#[derive(Clone, Debug, PartialEq, Eq)]
pub struct ArpEntry {
    pub ip_addr: [u8; 4],
    pub hw_type: u32,
    pub flags: u32,
    pub hw_addr: [u8; 6],
    pub device: String,
}

/// The IPv4 address of an entry.
pub open spec fn entry_ip(e: ArpEntry) -> u32 {
    be32(e.ip_addr@[0], e.ip_addr@[1], e.ip_addr@[2], e.ip_addr@[3])
}

/// The Ethernet adapter of one network interface.
pub struct EthernetDevice {
    name: String,
    neighbors: NeighborMap,
    pending_neighbors: PendingArpMap,
    ip: Option<Ipv4Cidr>,
    pending_packets: PacketBuffer<'static, u32>,
    max_pending: usize,
}

impl View for EthernetDevice {
    type V = NetState;

    closed spec fn view(&self) -> NetState {
        NetState {
            neighbors: neighbor_entries(self.neighbors),
            pending_arp: pending_arp_entries(self.pending_neighbors),
            ip: self.ip,
            pending: queued_packets(self.pending_packets),
        }
    }
}

/// Frames pushed onto a transmit list are its old frames then `frames`.
pub open spec fn appended(old_tx: Seq<TxFrame>, new_tx: Seq<TxFrame>, frames: Seq<FrameView>) -> bool {
    frames_view(new_tx) == frames_view(old_tx) + frames
}

proof fn lemma_push_frame(tx: Seq<TxFrame>, f: TxFrame)
    ensures
        frames_view(tx.push(f)) == frames_view(tx).push(f@),
{
    assert(frames_view(tx.push(f)) =~= frames_view(tx).push(f@));
}

/// The packets of a list of kept packets.
pub open spec fn kept_view(v: Seq<(u32, Vec<u8>)>) -> PendingView {
    v.map_values(|e: (u32, Vec<u8>)| (e.0, e.1@))
}

impl EthernetDevice {
    /// The device's name.
    pub closed spec fn name_view(&self) -> Seq<char> {
        self.name@
    }

    /// How many packets may wait for their next hop.
    /// Whether the pending queue would take a packet of `size` bytes now.
    pub closed spec fn accepts_packet(&self, size: nat) -> bool {
        packet_accepted(self.pending_packets, size)
    }

    /// After putting back the packets `kept`, in order: if not all of them
    /// are queued, the queue refuses the first one left out.
    pub open spec fn restored_until_refused(&self, kept: PendingView) -> bool {
        self@.pending.len() < kept.len() ==> !self.accepts_packet(
            kept[self@.pending.len() as int].1.len(),
        )
    }

    pub closed spec fn max_pending(&self) -> nat {
        self.max_pending as nat
    }

    /// The queue holds at most its capacity, and every outstanding request
    /// was made at a time the adapter takes.
    pub closed spec fn wf(&self) -> bool {
        &&& packet_capacity(self.pending_packets) == self.max_pending
        &&& queued_packets(self.pending_packets).len() <= self.max_pending
        &&& forall|a: u32| #[trigger]
            pending_arp_entries(self.pending_neighbors).contains_key(a)
                ==> pending_arp_entries(self.pending_neighbors)[a] <= MAX_TIMESTAMP
    }

    /// An adapter named `name` with address `ip`, with room for `max_pending`
    /// packets of up to `mtu` bytes waiting for their next hop.
    pub fn new(name: String, ip: Option<Ipv4Cidr>, max_pending: usize, mtu: usize) -> (r: Self)
        requires
            mtu + ETHERNET_HEADER_LEN <= usize::MAX,
            (mtu + ETHERNET_HEADER_LEN) * max_pending <= usize::MAX,
        ensures
            r.wf(),
            r.name_view() == name@,
            r.max_pending() == max_pending,
            r@.neighbors.is_empty(),
            r@.pending_arp.is_empty(),
            r@.ip == ip,
            r@.pending.len() == 0,
    {
        let bytes = (mtu + ETHERNET_HEADER_LEN) * max_pending;
        EthernetDevice {
            name,
            neighbors: NeighborMap::new(),
            pending_neighbors: PendingArpMap::new(),
            ip,
            pending_packets: new_packet_buffer(max_pending, bytes),
            max_pending,
        }
    }

    /// The device's name.
    pub fn name(&self) -> (r: &str)
        ensures
            r@ == self.name_view(),
    {
        self.name.as_str()
    }

    /// Broadcasts a request for the hardware address of `target`, from this
    /// station's configured address; refused for IPv6 and while no IPv4
    /// address is configured.
    fn request_arp(&mut self, target: IpAddress, mac: &[u8; 6], now: i64, tx: &mut Vec<TxFrame>) -> (ok: bool)
        requires
            old(self).wf(),
            now <= MAX_TIMESTAMP,
        ensures
            final(self).wf(),
            final(self).name_view() == old(self).name_view(),
            final(self).max_pending() == old(self).max_pending(),
            final(self)@ == request_spec(old(self)@, target, now, mac@).0,
            appended(old(tx)@, final(tx)@, request_spec(old(self)@, target, now, mac@).1),
            ok == request_spec(old(self)@, target, now, mac@).2,
            final(self).pending_packets == old(self).pending_packets,
    {
        let a = match target {
            IpAddress::Ipv4(a) => a,
            IpAddress::Ipv6(_) => {
                assert(frames_view(tx@) =~= frames_view(tx@) + Seq::<FrameView>::empty());
                return false;
            },
        };
        let ip = match self.ip {
            Some(ip) => ip,
            None => {
                assert(frames_view(tx@) =~= frames_view(tx@) + Seq::<FrameView>::empty());
                return false;
            },
        };
        let request = ArpRepr {
            operation: ARP_OP_REQUEST,
            source_hardware_addr: *mac,
            source_protocol_addr: ip.address(),
            target_hardware_addr: zero_mac(),
            target_protocol_addr: a,
        };
        let frame = TxFrame {
            dst: broadcast_mac(),
            ethertype: ETHERTYPE_ARP,
            payload: arp_packet(&request),
        };
        proof {
            lemma_push_frame(tx@, frame);
        }
        tx.push(frame);
        self.pending_neighbors.insert(a, now);
        assert(frames_view(tx@) =~= frames_view(old(tx)@) + request_spec(
            old(self)@,
            target,
            now,
            mac@,
        ).1);
        true
    }

    /// Sends `packet` to `next_hop`: at once to a broadcast hop or to a
    /// resolved neighbour; otherwise it asks for the hop where it should and
    /// offers the packet to the pending queue, which may refuse it. The
    /// frames to send are appended to `tx`; nothing is delivered back.
    pub fn send(
        &mut self,
        next_hop: IpAddress,
        packet: &[u8],
        mac: &[u8; 6],
        now: i64,
        tx: &mut Vec<TxFrame>,
    ) -> (r: bool)
        requires
            old(self).wf(),
            now <= MAX_TIMESTAMP,
        ensures
            !r,
            final(self).wf(),
            final(self).name_view() == old(self).name_view(),
            final(self).max_pending() == old(self).max_pending(),
            final(self)@.neighbors == send_spec(old(self)@, next_hop, packet@, now, mac@).0.neighbors,
            final(self)@.pending_arp == send_spec(old(self)@, next_hop, packet@, now, mac@).0.pending_arp,
            final(self)@.ip == old(self)@.ip,
            appended(old(tx)@, final(tx)@, send_spec(old(self)@, next_hop, packet@, now, mac@).1),
            send_spec(old(self)@, next_hop, packet@, now, mac@).2 is None ==> final(self)@.pending
                == old(self)@.pending,
            send_spec(old(self)@, next_hop, packet@, now, mac@).2 matches Some(a) ==> (if old(
                self,
            ).accepts_packet(packet@.len()) {
                final(self)@.pending == old(self)@.pending.push((a, packet@))
            } else {
                final(self)@.pending == old(self)@.pending
            }),
    {
        let ghost s = self@;
        let is_subnet_broadcast = match (self.ip, next_hop) {
            (Some(ip), IpAddress::Ipv4(a)) => match ip.broadcast() {
                Some(b) => b == a,
                None => false,
            },
            _ => false,
        };
        if next_hop.is_broadcast() || is_subnet_broadcast {
            let frame = TxFrame {
                dst: broadcast_mac(),
                ethertype: ETHERTYPE_IPV4,
                payload: vstd::slice::slice_to_vec(packet),
            };
            proof {
                lemma_push_frame(tx@, frame);
                assert(frames_view(tx@).push(frame@) =~= frames_view(tx@) + seq![frame@]);
            }
            tx.push(frame);
            return false;
        }
        let a = match next_hop {
            IpAddress::Ipv4(a) => a,
            IpAddress::Ipv6(_) => {
                // No neighbour or request is ever kept for an IPv6 hop, and
                // ARP cannot ask for one.
                assert(frames_view(tx@) =~= frames_view(tx@) + Seq::<FrameView>::empty());
                return false;
            },
        };
        let need_request = match self.neighbors.get(a) {
            Some((hw, expires_at)) => {
                if expires_at > now {
                    let frame = TxFrame {
                        dst: hw,
                        ethertype: ETHERTYPE_IPV4,
                        payload: vstd::slice::slice_to_vec(packet),
                    };
                    proof {
                        lemma_push_frame(tx@, frame);
                        assert(frames_view(tx@).push(frame@) =~= frames_view(tx@) + seq![frame@]);
                    }
                    tx.push(frame);
                    return false;
                }
                self.neighbors.remove(a);
                true
            },
            None => {
                assert(neighbor_entries(self.neighbors).remove(a) =~= neighbor_entries(
                    self.neighbors,
                ));
                match self.pending_neighbors.get(a) {
                    None => true,
                    Some(requested_at) => now >= requested_at + ARP_REQUEST_RETRY_MICROS,
                }
            },
        };
        assert(need_request == super::model::needs_request(s, a, now));
        if need_request {
            if !self.request_arp(next_hop, mac, now, tx) {
                return false;
            }
        } else {
            assert(frames_view(tx@) =~= frames_view(old(tx)@) + Seq::<FrameView>::empty());
        }
        if packet_buffer_is_full(&self.pending_packets) {
            return false;
        }
        let _ = enqueue_packet(&mut self.pending_packets, a, packet);
        false
    }

    /// Takes a received frame. An IPv4 packet addressed to this station (or
    /// broadcast) is handed back for the router; an ARP packet updates the
    /// neighbour cache, may be answered, and flushes the pending queue; any
    /// other frame is dropped.
    pub fn handle_frame<'a>(
        &mut self,
        frame: &'a [u8],
        mac: &[u8; 6],
        now: i64,
        tx: &mut Vec<TxFrame>,
    ) -> (r: Option<&'a [u8]>)
        requires
            old(self).wf(),
            now <= MAX_TIMESTAMP,
        ensures
            final(self).wf(),
            final(self).name_view() == old(self).name_view(),
            final(self).max_pending() == old(self).max_pending(),
            match frame_delivers(frame@, mac@) {
                Some(p) => r matches Some(q) && q@ == p,
                None => r is None,
            },
            match frame_arp(frame@, mac@) {
                Some(b) => arp_done(old(self)@, final(self)@, b, now, mac@, old(tx)@, final(tx)@),
                None => final(self)@ == old(self)@ && final(tx)@ == old(tx)@,
            },
            match frame_arp(frame@, mac@) {
                Some(b) => arp_accepts(b, mac@, old(self)@.ip) ==> final(self).restored_until_refused(
                    arp_spec(old(self)@, b, now, mac@).0.pending,
                ),
                None => true,
            },
    {
        let header = match parse_ethernet_header(frame) {
            Some(h) => h,
            None => return None,
        };
        if !mac_is_broadcast(&header.dst_addr) && !mac_is_zero(&header.dst_addr) && !mac_eq(
            &header.dst_addr,
            mac,
        ) {
            return None;
        }
        let (_, payload) = frame.split_at(ETHERNET_HEADER_LEN);
        let (ethertype, inner) = match ethernet_payload_protocol(header.ethertype, payload) {
            Some(p) => p,
            None => return None,
        };
        if ethertype == ETHERTYPE_IPV4 {
            return Some(inner);
        }
        if ethertype == ETHERTYPE_ARP {
            self.process_arp(inner, mac, now, tx);
        }
        None
    }

    /// Learns from an ARP packet, answers a request for this station's
    /// address, and passes once over the pending queue.
    fn process_arp(&mut self, payload: &[u8], mac: &[u8; 6], now: i64, tx: &mut Vec<TxFrame>)
        requires
            old(self).wf(),
            now <= MAX_TIMESTAMP,
        ensures
            final(self).wf(),
            final(self).name_view() == old(self).name_view(),
            final(self).max_pending() == old(self).max_pending(),
            arp_done(old(self)@, final(self)@, payload@, now, mac@, old(tx)@, final(tx)@),
            arp_accepts(payload@, mac@, old(self)@.ip) ==> final(self).restored_until_refused(
                arp_spec(old(self)@, payload@, now, mac@).0.pending,
            ),
    {
        let repr = match parse_arp(payload) {
            Some(r) => r,
            None => return ,
        };
        let tha = repr.target_hardware_addr;
        let is_unicast_target = !mac_is_zero(&tha) && !mac_is_broadcast(&tha);
        if is_unicast_target && !mac_eq(mac, &tha) {
            return ;
        }
        if repr.operation != ARP_OP_REQUEST && repr.operation != ARP_OP_REPLY {
            return ;
        }
        let sha = repr.source_hardware_addr;
        let spa = repr.source_protocol_addr;
        let spa_multicast = 224 <= (spa >> 24u32) && (spa >> 24u32) <= 239;
        if !mac_is_unicast(&sha) || spa == 0xffff_ffff || spa_multicast || spa == 0 {
            return ;
        }
        let ip = match self.ip {
            Some(ip) => ip,
            None => return ,
        };
        if ip.address() != repr.target_protocol_addr {
            return ;
        }
        assert(arp_accepts(payload@, mac@, old(self)@.ip));
        self.pending_neighbors.remove(spa);
        self.neighbors.insert(spa, sha, now + NEIGHBOR_TTL_MICROS);
        if repr.operation == ARP_OP_REQUEST {
            let response = ArpRepr {
                operation: ARP_OP_REPLY,
                source_hardware_addr: *mac,
                source_protocol_addr: ip.address(),
                target_hardware_addr: sha,
                target_protocol_addr: spa,
            };
            let frame = TxFrame { dst: sha, ethertype: ETHERTYPE_ARP, payload: arp_packet(&response) };
            proof {
                lemma_push_frame(tx@, frame);
            }
            tx.push(frame);
        }
        let ghost d0 = arp_learn(old(self)@, payload@, now, mac@);
        assert(frames_view(tx@) =~= frames_view(old(tx)@) + d0.frames);
        let kept = self.drain_pending(ip.address(), mac, now, tx, Ghost(d0), Ghost(old(tx)@));
        self.restore_pending(&kept);
    }

    /// The pass over the pending queue: packets whose next hop is resolved
    /// are sent, the others are taken out and returned in order.
    fn drain_pending(
        &mut self,
        ip_addr: u32,
        mac: &[u8; 6],
        now: i64,
        tx: &mut Vec<TxFrame>,
        Ghost(d0): Ghost<Drain>,
        Ghost(tx0): Ghost<Seq<TxFrame>>,
    ) -> (kept: Vec<(u32, Vec<u8>)>)
        requires
            old(self).wf(),
            now <= MAX_TIMESTAMP,
            old(self)@.ip matches Some(c) && c.address_spec() == ip_addr,
            d0.neighbors == old(self)@.neighbors,
            d0.pending_arp == old(self)@.pending_arp,
            d0.kept.len() == 0,
            appended(tx0, old(tx)@, d0.frames),
        ensures
            final(self).wf(),
            final(self).name_view() == old(self).name_view(),
            final(self).max_pending() == old(self).max_pending(),
            final(self)@.ip == old(self)@.ip,
            final(self)@.pending.len() == 0,
            final(self)@.neighbors == drain_spec(d0, old(self)@.pending, now, mac@, ip_addr).neighbors,
            final(self)@.pending_arp == drain_spec(
                d0,
                old(self)@.pending,
                now,
                mac@,
                ip_addr,
            ).pending_arp,
            appended(tx0, final(tx)@, drain_spec(d0, old(self)@.pending, now, mac@, ip_addr).frames),
            kept_view(kept@) == drain_spec(d0, old(self)@.pending, now, mac@, ip_addr).kept,
    {
        let ghost target = drain_spec(d0, old(self)@.pending, now, mac@, ip_addr);
        let ghost mut cur = d0;
        let mut kept: Vec<(u32, Vec<u8>)> = Vec::new();
        let mut i: usize = 0;
        assert(kept_view(kept@) =~= d0.kept);
        while i < self.max_pending
            invariant_except_break
                i <= self.max_pending,
                queued_packets(self.pending_packets).len() <= self.max_pending - i,
            invariant
                self.wf(),
                self.name@ == old(self).name@,
                self.max_pending == old(self).max_pending,
                self.ip == old(self).ip,
                now <= MAX_TIMESTAMP,
                self.ip matches Some(c) && c.address_spec() == ip_addr,
                cur.neighbors == self@.neighbors,
                cur.pending_arp == self@.pending_arp,
                appended(tx0, tx@, cur.frames),
                kept_view(kept@) == cur.kept,
                drain_spec(cur, self@.pending, now, mac@, ip_addr) == target,
            ensures
                self@.pending.len() == 0,
            decreases self.max_pending - i,
        {
            let (hop, data) = match peek_packet(&mut self.pending_packets) {
                Some(p) => p,
                None => break,
            };
            let ghost q = self@.pending;
            let ghost next = drain_step(cur, hop, data@, now, mac@, ip_addr);
            assert(drain_spec(cur, q, now, mac@, ip_addr) == drain_spec(next, q.drop_first(), now, mac@, ip_addr));
            let found = self.neighbors.get(hop);
            dequeue_packet(&mut self.pending_packets);
            match found {
                Some((hw, expires_at)) => {
                    if expires_at > now {
                        let frame = TxFrame { dst: hw, ethertype: ETHERTYPE_IPV4, payload: data };
                        proof {
                            lemma_push_frame(tx@, frame);
                            assert(frames_view(tx0) + cur.frames.push(frame@) =~= (frames_view(tx0) + cur.frames).push(frame@));
                        }
                        tx.push(frame);
                    } else {
                        self.neighbors.remove(hop);
                        let ghost before = tx@;
                        let _ = self.request_arp(IpAddress::Ipv4(hop), mac, now, tx);
                        proof {
                            assert(frames_view(tx0) + next.frames =~= frames_view(before) + request_spec(self@, IpAddress::Ipv4(hop), now, mac@).1) by {
                                assert(frames_view(tx0) + next.frames =~= frames_view(tx0) + cur.frames + next.frames.subrange(cur.frames.len() as int, next.frames.len() as int));
                            }
                        }
                        proof {
                            assert(kept_view(kept@.push((hop, data))) =~= kept_view(kept@).push((hop, data@)));
                        }
                        kept.push((hop, data));
                    }
                },
                None => {
                    proof {
                        assert(kept_view(kept@.push((hop, data))) =~= kept_view(kept@).push((hop, data@)));
                    }
                    kept.push((hop, data));
                },
            }
            proof {
                cur = next;
            }
            i = i + 1;
        }
        kept
    }

    /// Puts the kept packets back, in order, until the queue refuses one.
    fn restore_pending(&mut self, kept: &Vec<(u32, Vec<u8>)>)
        requires
            old(self).wf(),
            old(self)@.pending.len() == 0,
        ensures
            final(self).wf(),
            final(self).name_view() == old(self).name_view(),
            final(self).max_pending() == old(self).max_pending(),
            final(self)@.neighbors == old(self)@.neighbors,
            final(self)@.pending_arp == old(self)@.pending_arp,
            final(self)@.ip == old(self)@.ip,
            final(self)@.pending.len() <= kept@.len(),
            final(self)@.pending == kept_view(kept@).take(final(self)@.pending.len() as int),
            final(self)@.pending.len() < kept@.len() ==> !final(self).accepts_packet(
                kept@[final(self)@.pending.len() as int].1@.len(),
            ),
    {
        let mut j: usize = 0;
        assert(self@.pending =~= kept_view(kept@).take(0));
        while j < kept.len()
            invariant
                j <= kept@.len(),
                self.wf(),
                self.name@ == old(self).name@,
                self.max_pending == old(self).max_pending,
                self@.neighbors == old(self)@.neighbors,
                self@.pending_arp == old(self)@.pending_arp,
                self@.ip == old(self)@.ip,
                self@.pending == kept_view(kept@).take(j as int),
            ensures
                j < kept@.len() ==> !self.accepts_packet(kept@[j as int].1@.len()),
            decreases kept@.len() - j,
        {
            let ok = enqueue_packet(&mut self.pending_packets, kept[j].0, kept[j].1.as_slice());
            if !ok {
                break;
            }
            assert(self@.pending =~= kept_view(kept@).take(j + 1));
            j = j + 1;
        }
    }

    /// Sets the interface address; every neighbour and outstanding request
    /// is forgotten, since they belong to the old address.
    pub fn set_ipv4_addr(&mut self, addr: Option<Ipv4Cidr>)
        requires
            old(self).wf(),
        ensures
            final(self).wf(),
            final(self).name_view() == old(self).name_view(),
            final(self).max_pending() == old(self).max_pending(),
            final(self)@.ip == addr,
            final(self)@.neighbors.is_empty(),
            final(self)@.pending_arp.is_empty(),
            final(self)@.pending == old(self)@.pending,
    {
        self.ip = addr;
        self.neighbors.clear();
        self.pending_neighbors.clear();
    }

    /// The neighbours that are still valid at `now`, each once, in the
    /// order the table gives them.
    pub fn arp_entries(&self, now: i64) -> (r: Vec<ArpEntry>)
        ensures
            forall|i: int|
                0 <= i < r@.len() ==> {
                    let e = #[trigger] r@[i];
                    &&& self@.neighbors.contains_key(entry_ip(e))
                    &&& self@.neighbors[entry_ip(e)].0 == e.hw_addr@
                    &&& self@.neighbors[entry_ip(e)].1 > now
                    &&& e.hw_type == 1
                    &&& e.flags == 2
                    &&& e.device@ == self.name_view()
                },
            forall|a: u32|
                #[trigger] self@.neighbors.contains_key(a) && self@.neighbors[a].1 > now ==> exists|
                    i: int,
                | 0 <= i < r@.len() && entry_ip(r@[i]) == a,
            forall|i: int, j: int| 0 <= i < j < r@.len() ==> entry_ip(r@[i]) != entry_ip(r@[j]),
    {
        let all = self.neighbors.entries();
        let mut out: Vec<ArpEntry> = Vec::new();
        let mut k: usize = 0;
        while k < all.len()
            invariant
                k <= all@.len(),
                forall|i: int|
                    0 <= i < all@.len() ==> #[trigger] neighbor_entries(self.neighbors).contains_key(all@[i].0),
                forall|i: int|
                    0 <= i < all@.len() ==> #[trigger] neighbor_entries(self.neighbors)[all@[i].0] == (all@[i].1@, all@[i].2),
                forall|i: int, j: int| 0 <= i < j < all@.len() ==> all@[i].0 != all@[j].0,
                forall|i: int|
                    0 <= i < out@.len() ==> {
                        let e = #[trigger] out@[i];
                        &&& neighbor_entries(self.neighbors).contains_key(entry_ip(e))
                        &&& neighbor_entries(self.neighbors)[entry_ip(e)].0 == e.hw_addr@
                        &&& neighbor_entries(self.neighbors)[entry_ip(e)].1 > now
                        &&& e.hw_type == 1
                        &&& e.flags == 2
                        &&& e.device@ == self.name@
                    },
                forall|i: int|
                    0 <= i < out@.len() ==> exists|m: int| 0 <= m < k && entry_ip(#[trigger] out@[i]) == all@[m].0,
                forall|m: int|
                    0 <= m < k && (#[trigger] all@[m]).2 > now ==> exists|i: int|
                        0 <= i < out@.len() && entry_ip(out@[i]) == all@[m].0,
                forall|i: int, j: int| 0 <= i < j < out@.len() ==> entry_ip(out@[i]) != entry_ip(out@[j]),
            decreases all@.len() - k,
        {
            let (a, hw, expires_at) = all[k];
            if expires_at > now {
                let octets: [u8; 4] = [(a >> 24u32) as u8, (a >> 16u32) as u8, (a >> 8u32) as u8, a as u8];
                let e = ArpEntry { ip_addr: octets, hw_type: 1, flags: 2, hw_addr: hw, device: self.name.clone() };
                proof {
                    assert(be32((a >> 24u32) as u8, (a >> 16u32) as u8, (a >> 8u32) as u8, a as u8) == a) by (bit_vector);
                    assert(entry_ip(e) == a);
                }
                let ghost old_out = out@;
                out.push(e);
                proof {
                    assert forall|m: int|
                        0 <= m < k + 1 && (#[trigger] all@[m]).2 > now implies exists|i: int|
                            0 <= i < out@.len() && entry_ip(out@[i]) == all@[m].0 by {
                        if m == k {
                            assert(entry_ip(out@[old_out.len() as int]) == all@[m].0);
                        } else {
                            let i = choose|i: int| 0 <= i < old_out.len() && entry_ip(old_out[i]) == all@[m].0;
                            assert(out@[i] == old_out[i]);
                        }
                    }
                    assert forall|i: int|
                        0 <= i < out@.len() implies exists|m: int| 0 <= m < k + 1 && entry_ip(#[trigger] out@[i]) == all@[m].0 by {
                        if i < old_out.len() {
                            assert(out@[i] == old_out[i]);
                            let m = choose|m: int| 0 <= m < k && entry_ip(old_out[i]) == all@[m].0;
                        } else {
                            assert(entry_ip(out@[i]) == all@[k as int].0);
                        }
                    }
                    assert forall|i: int, j: int| 0 <= i < j < out@.len() implies entry_ip(out@[i]) != entry_ip(out@[j]) by {
                        if j == old_out.len() {
                            assert(out@[i] == old_out[i]);
                            let m = choose|m: int| 0 <= m < k && entry_ip(old_out[i]) == all@[m].0;
                            assert(all@[m].0 != all@[k as int].0);
                        } else {
                            assert(out@[i] == old_out[i]);
                            assert(out@[j] == old_out[j]);
                        }
                    }
                }
            } else {
                proof {
                    assert forall|m: int|
                        0 <= m < k + 1 && (#[trigger] all@[m]).2 > now implies exists|i: int|
                            0 <= i < out@.len() && entry_ip(out@[i]) == all@[m].0 by {
                        assert(m != k);
                    }
                    assert forall|i: int|
                        0 <= i < out@.len() implies exists|m: int| 0 <= m < k + 1 && entry_ip(#[trigger] out@[i]) == all@[m].0 by {
                        let m = choose|m: int| 0 <= m < k && entry_ip(out@[i]) == all@[m].0;
                    }
                }
            }
            k = k + 1;
        }
        proof {
            assert forall|a: u32|
                #[trigger] self@.neighbors.contains_key(a) && self@.neighbors[a].1 > now implies exists|i: int|
                    0 <= i < out@.len() && entry_ip(out@[i]) == a by {
                let m = choose|m: int| 0 <= m < all@.len() && all@[m].0 == a;
                assert(all@[m].2 > now);
            }
        }
        out
    }
}

/// What an ARP packet `b` does: where it is not accepted, nothing; where it
/// is, the neighbour tables and the frames are those of `arp_spec`, and the
/// packets still waiting go back to the queue in order, as many as it takes.
pub open spec fn arp_done(
    s: NetState,
    t: NetState,
    b: Seq<u8>,
    now: i64,
    mac: Seq<u8>,
    old_tx: Seq<TxFrame>,
    new_tx: Seq<TxFrame>,
) -> bool {
    if arp_accepts(b, mac, s.ip) {
        let (s1, frames) = arp_spec(s, b, now, mac);
        &&& t.neighbors == s1.neighbors
        &&& t.pending_arp == s1.pending_arp
        &&& t.ip == s.ip
        &&& t.pending.len() <= s1.pending.len()
        &&& t.pending == s1.pending.take(t.pending.len() as int)
        &&& appended(old_tx, new_tx, frames)
    } else {
        t == s && new_tx == old_tx
    }
}

} // verus!
