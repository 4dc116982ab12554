//! What the Ethernet adapter does, as functions on its abstract state: the
//! neighbour cache, the outstanding ARP requests, the IPv4 configuration and
//! the packets waiting for their next hop. Frames to transmit are written as
//! destination, EtherType and payload.

use vstd::prelude::*;

use super::tables::{NeighborView, PendingArpView, PendingView};
use super::wire::{
    arp_op, arp_packet_bytes, arp_parses, arp_sha, arp_spa, arp_tha, arp_tpa, be16,
    broadcast_mac_seq, is_ipv4_broadcast, is_ipv4_multicast, is_ipv4_unspecified, is_unicast_mac,
    payload_protocol_spec, zero_mac_seq, IpAddress, Ipv4Cidr, ARP_OP_REPLY, ARP_OP_REQUEST,
    ETHERTYPE_ARP, ETHERTYPE_IPV4,
};

verus! {

/// How long a resolved neighbour stays valid: five minutes, in microseconds.
pub const NEIGHBOR_TTL_MICROS: i64 = 300_000_000;

/// How long a send waits before it asks for the same neighbour again.
pub const ARP_REQUEST_RETRY_MICROS: i64 = 1_000_000;

/// The latest timestamp the adapter takes: an expiry a TTL later still fits.
pub const MAX_TIMESTAMP: i64 = 9_223_372_036_554_775_807;

/// A frame to transmit: destination address, EtherType, payload.
pub type FrameView = (Seq<u8>, u16, Seq<u8>);

/// The adapter's state.
pub struct NetState {
    pub neighbors: NeighborView,
    pub pending_arp: PendingArpView,
    pub ip: Option<Ipv4Cidr>,
    pub pending: PendingView,
}

pub open spec fn ipv4_frame(dst: Seq<u8>, packet: Seq<u8>) -> FrameView {
    (dst, ETHERTYPE_IPV4, packet)
}

/// A broadcast request for the hardware address of `target`.
pub open spec fn arp_request_frame(mac: Seq<u8>, ip_addr: u32, target: u32) -> FrameView {
    (
        broadcast_mac_seq(),
        ETHERTYPE_ARP,
        arp_packet_bytes(ARP_OP_REQUEST, mac, ip_addr, zero_mac_seq(), target),
    )
}

/// The answer to a request from `sha`/`spa`.
pub open spec fn arp_reply_frame(mac: Seq<u8>, ip_addr: u32, sha: Seq<u8>, spa: u32) -> FrameView {
    (sha, ETHERTYPE_ARP, arp_packet_bytes(ARP_OP_REPLY, mac, ip_addr, sha, spa))
}

/// A next hop that is sent to as broadcast: the limited broadcast address,
/// or the directed broadcast address of the configured subnet.
pub open spec fn is_broadcast_hop(ip: Option<Ipv4Cidr>, hop: IpAddress) -> bool {
    match hop {
        IpAddress::Ipv4(a) => is_ipv4_broadcast(a) || (ip matches Some(c) && c.broadcast_spec()
            == Some(a)),
        IpAddress::Ipv6(_) => false,
    }
}

/// The effect of asking for the hardware address of `target`: the new
/// state, the frames sent, and whether the request went out.
pub open spec fn request_spec(s: NetState, target: IpAddress, now: i64, mac: Seq<u8>) -> (
    NetState,
    Seq<FrameView>,
    bool,
) {
    match target {
        IpAddress::Ipv6(_) => (s, Seq::empty(), false),
        IpAddress::Ipv4(a) => match s.ip {
            None => (s, Seq::empty(), false),
            Some(c) => (
                NetState {
                    neighbors: s.neighbors,
                    pending_arp: s.pending_arp.insert(a, now),
                    ip: s.ip,
                    pending: s.pending,
                },
                seq![arp_request_frame(mac, c.address_spec(), a)],
                true,
            ),
        },
    }
}

/// A send to an unresolved IPv4 hop asks for it: when its neighbour entry
/// has just expired, when no request is outstanding, or when the last one
/// went out at least a retry interval ago.
pub open spec fn needs_request(s: NetState, a: u32, now: i64) -> bool {
    ||| s.neighbors.contains_key(a)
    ||| !s.pending_arp.contains_key(a)
    ||| now >= s.pending_arp[a] + ARP_REQUEST_RETRY_MICROS
}

/// The effect of sending `packet` to `hop`: the new state before the packet
/// is offered to the pending queue, the frames sent, and the hop under which
/// the packet is offered to the queue, if it is.
pub open spec fn send_spec(s: NetState, hop: IpAddress, packet: Seq<u8>, now: i64, mac: Seq<u8>) -> (
    NetState,
    Seq<FrameView>,
    Option<u32>,
) {
    if is_broadcast_hop(s.ip, hop) {
        (s, seq![ipv4_frame(broadcast_mac_seq(), packet)], None)
    } else {
        match hop {
            IpAddress::Ipv6(_) => (s, Seq::empty(), None),
            IpAddress::Ipv4(a) => if s.neighbors.contains_key(a) && s.neighbors[a].1 > now {
                (s, seq![ipv4_frame(s.neighbors[a].0, packet)], None)
            } else {
                let s1 = NetState {
                    neighbors: s.neighbors.remove(a),
                    pending_arp: s.pending_arp,
                    ip: s.ip,
                    pending: s.pending,
                };
                if needs_request(s, a, now) {
                    let (s2, frames, sent) = request_spec(s1, hop, now, mac);
                    if sent {
                        (s2, frames, Some(a))
                    } else {
                        (s2, frames, None)
                    }
                } else {
                    (s1, Seq::empty(), Some(a))
                }
            },
        }
    }
}

/// The ARP packets the adapter learns from: an Ethernet/IPv4 request or
/// reply, aimed at no other station, from a unicast station with a unicast
/// address, asking about or answering for the configured address.
pub open spec fn arp_accepts(b: Seq<u8>, mac: Seq<u8>, ip: Option<Ipv4Cidr>) -> bool {
    let tha = arp_tha(b);
    let spa = arp_spa(b);
    &&& arp_parses(b)
    &&& (tha == zero_mac_seq() || tha == broadcast_mac_seq() || tha == mac)
    &&& (arp_op(b) == ARP_OP_REQUEST || arp_op(b) == ARP_OP_REPLY)
    &&& is_unicast_mac(arp_sha(b))
    &&& !is_ipv4_broadcast(spa)
    &&& !is_ipv4_multicast(spa)
    &&& !is_ipv4_unspecified(spa)
    &&& ip matches Some(c) && c.address_spec() == arp_tpa(b)
}

/// The state of a pass over the pending queue.
pub struct Drain {
    pub neighbors: NeighborView,
    pub pending_arp: PendingArpView,
    pub frames: Seq<FrameView>,
    pub kept: PendingView,
}

/// One queued packet: sent if its next hop is resolved, kept otherwise;
/// an expired neighbour is dropped and asked for again.
pub open spec fn drain_step(
    d: Drain,
    hop: u32,
    data: Seq<u8>,
    now: i64,
    mac: Seq<u8>,
    ip_addr: u32,
) -> Drain {
    if d.neighbors.contains_key(hop) {
        if d.neighbors[hop].1 > now {
            Drain {
                neighbors: d.neighbors,
                pending_arp: d.pending_arp,
                frames: d.frames.push(ipv4_frame(d.neighbors[hop].0, data)),
                kept: d.kept,
            }
        } else {
            Drain {
                neighbors: d.neighbors.remove(hop),
                pending_arp: d.pending_arp.insert(hop, now),
                frames: d.frames.push(arp_request_frame(mac, ip_addr, hop)),
                kept: d.kept.push((hop, data)),
            }
        }
    } else {
        Drain {
            neighbors: d.neighbors,
            pending_arp: d.pending_arp,
            frames: d.frames,
            kept: d.kept.push((hop, data)),
        }
    }
}

/// A pass over the queue `q`, oldest packet first.
pub open spec fn drain_spec(d: Drain, q: PendingView, now: i64, mac: Seq<u8>, ip_addr: u32) -> Drain
    decreases q.len(),
{
    if q.len() == 0 {
        d
    } else {
        drain_spec(drain_step(d, q[0].0, q[0].1, now, mac, ip_addr), q.drop_first(), now, mac, ip_addr)
    }
}

/// The effect of an accepted ARP packet before the pass over the queue.
pub open spec fn arp_learn(s: NetState, b: Seq<u8>, now: i64, mac: Seq<u8>) -> Drain {
    let c = s.ip.unwrap();
    let sha = arp_sha(b);
    let spa = arp_spa(b);
    Drain {
        neighbors: s.neighbors.insert(spa, (sha, (now + NEIGHBOR_TTL_MICROS) as i64)),
        pending_arp: s.pending_arp.remove(spa),
        frames: if arp_op(b) == ARP_OP_REQUEST {
            seq![arp_reply_frame(mac, c.address_spec(), sha, spa)]
        } else {
            Seq::empty()
        },
        kept: Seq::empty(),
    }
}

/// The effect of an ARP packet `b`: the new state, with the packets that
/// wait on in `pending`, and the frames sent.
pub open spec fn arp_spec(s: NetState, b: Seq<u8>, now: i64, mac: Seq<u8>) -> (NetState, Seq<
    FrameView,
>) {
    if !arp_accepts(b, mac, s.ip) {
        (s, Seq::empty())
    } else {
        let d = drain_spec(arp_learn(s, b, now, mac), s.pending, now, mac, s.ip.unwrap().address_spec());
        (NetState { neighbors: d.neighbors, pending_arp: d.pending_arp, ip: s.ip, pending: d.kept }, d.frames)
    }
}

/// A frame that the adapter takes: long enough for a header, and sent to
/// the broadcast address, to the zero address or to this station.
pub open spec fn frame_addressed(frame: Seq<u8>, mac: Seq<u8>) -> bool {
    let dst = frame.subrange(0, 6);
    frame.len() >= 14 && (dst == broadcast_mac_seq() || dst == zero_mac_seq() || dst == mac)
}

/// The protocol and payload of a frame that the adapter takes.
pub open spec fn frame_payload(frame: Seq<u8>) -> Option<(u16, Seq<u8>)> {
    payload_protocol_spec(be16(frame[12], frame[13]), frame.subrange(14, frame.len() as int))
}

/// The IPv4 packet a frame delivers to the router, if it delivers one.
pub open spec fn frame_delivers(frame: Seq<u8>, mac: Seq<u8>) -> Option<Seq<u8>> {
    if frame_addressed(frame, mac) {
        match frame_payload(frame) {
            Some((t, p)) => if t == ETHERTYPE_IPV4 {
                Some(p)
            } else {
                None
            },
            None => None,
        }
    } else {
        None
    }
}

/// The ARP packet a frame carries to the adapter, if it carries one.
pub open spec fn frame_arp(frame: Seq<u8>, mac: Seq<u8>) -> Option<Seq<u8>> {
    if frame_addressed(frame, mac) {
        match frame_payload(frame) {
            Some((t, p)) => if t == ETHERTYPE_ARP {
                Some(p)
            } else {
                None
            },
            None => None,
        }
    } else {
        None
    }
}

/// Whether `hop` has a neighbour entry that is still valid at `now`.
pub open spec fn resolved_at(n: NeighborView, hop: u32, now: i64) -> bool {
    n.contains_key(hop) && n[hop].1 > now
}

/// The queued packets whose next hop is not resolved at `now`, in order.
pub open spec fn unresolved_packets(q: PendingView, n: NeighborView, now: i64) -> PendingView {
    q.filter(|e: (u32, Seq<u8>)| !resolved_at(n, e.0, now))
}

/// A pass over the queue keeps exactly the packets whose next hop was not
/// resolved when the pass began, in their order, after those it already
/// kept: a packet leaves the queue only for a live neighbour.
pub proof fn lemma_drain_keeps_unresolved(
    d: Drain,
    q: PendingView,
    now: i64,
    mac: Seq<u8>,
    ip_addr: u32,
)
    ensures
        drain_spec(d, q, now, mac, ip_addr).kept == d.kept + unresolved_packets(q, d.neighbors, now),
    decreases q.len(),
{
    let pred = |e: (u32, Seq<u8>)| !resolved_at(d.neighbors, e.0, now);
    if q.len() == 0 {
        assert(q.filter(pred) =~= Seq::<(u32, Seq<u8>)>::empty());
        assert(d.kept + q.filter(pred) =~= d.kept);
    } else {
        let d1 = drain_step(d, q[0].0, q[0].1, now, mac, ip_addr);
        let rest = q.drop_first();
        lemma_drain_keeps_unresolved(d1, rest, now, mac, ip_addr);
        let pred1 = |e: (u32, Seq<u8>)| !resolved_at(d1.neighbors, e.0, now);
        assert(pred1 =~= pred) by {
            assert forall|e: (u32, Seq<u8>)| #[trigger] pred1(e) == pred(e) by {
                if e.0 != q[0].0 && d.neighbors.contains_key(q[0].0) && d.neighbors[q[0].0].1 <= now {
                    assert(d1.neighbors == d.neighbors.remove(q[0].0));
                }
            }
        }
        assert(q =~= seq![q[0]] + rest);
        Seq::filter_distributes_over_add(seq![q[0]], rest, pred);
        assert(seq![q[0]].filter(pred) =~= if pred(q[0]) {
            seq![q[0]]
        } else {
            Seq::<(u32, Seq<u8>)>::empty()
        }) by {
            reveal_with_fuel(Seq::filter, 2);
            assert(seq![q[0]].drop_last() =~= Seq::<(u32, Seq<u8>)>::empty());
        }
        if pred(q[0]) {
            assert(d1.kept == d.kept.push(q[0]));
            assert(d.kept + q.filter(pred) =~= d1.kept + rest.filter(pred));
        } else {
            assert(d1.kept == d.kept);
            assert(d.kept + q.filter(pred) =~= d1.kept + rest.filter(pred));
        }
    }
}

/// The IPv4 frames among `f`, in order.
pub open spec fn ipv4_frames(f: Seq<FrameView>) -> Seq<FrameView> {
    f.filter(|x: FrameView| x.1 == ETHERTYPE_IPV4)
}

/// The queued packets whose next hop is resolved at `now`, each as the IPv4
/// frame to that neighbour, in order.
pub open spec fn resolved_frames(q: PendingView, n: NeighborView, now: i64) -> Seq<FrameView> {
    q.filter(|e: (u32, Seq<u8>)| resolved_at(n, e.0, now)).map_values(
        |e: (u32, Seq<u8>)| ipv4_frame(n[e.0].0, e.1),
    )
}

proof fn lemma_filter_push<A>(f: Seq<A>, x: A, p: spec_fn(A) -> bool)
    ensures
        f.push(x).filter(p) == if p(x) {
            f.filter(p).push(x)
        } else {
            f.filter(p)
        },
{
    reveal_with_fuel(Seq::filter, 1);
    assert(f.push(x).drop_last() =~= f);
}

/// A pass over the queue sends, as its IPv4 frames, exactly the packets
/// whose next hop was resolved when the pass began, each to that
/// neighbour's address, in their order; the other frames it sends are ARP
/// requests.
pub proof fn lemma_drain_sends_resolved(
    d: Drain,
    q: PendingView,
    now: i64,
    mac: Seq<u8>,
    ip_addr: u32,
)
    ensures
        ipv4_frames(drain_spec(d, q, now, mac, ip_addr).frames) == ipv4_frames(d.frames)
            + resolved_frames(q, d.neighbors, now),
    decreases q.len(),
{
    let isv4 = |x: FrameView| x.1 == ETHERTYPE_IPV4;
    let pred = |e: (u32, Seq<u8>)| resolved_at(d.neighbors, e.0, now);
    let f = |e: (u32, Seq<u8>)| ipv4_frame(d.neighbors[e.0].0, e.1);
    if q.len() == 0 {
        assert(q.filter(pred) =~= Seq::<(u32, Seq<u8>)>::empty());
        assert(resolved_frames(q, d.neighbors, now) =~= Seq::<FrameView>::empty());
        assert(ipv4_frames(d.frames) + resolved_frames(q, d.neighbors, now) =~= ipv4_frames(d.frames));
    } else {
        let hop = q[0].0;
        let d1 = drain_step(d, hop, q[0].1, now, mac, ip_addr);
        let rest = q.drop_first();
        lemma_drain_sends_resolved(d1, rest, now, mac, ip_addr);
        let pred1 = |e: (u32, Seq<u8>)| resolved_at(d1.neighbors, e.0, now);
        let f1 = |e: (u32, Seq<u8>)| ipv4_frame(d1.neighbors[e.0].0, e.1);
        assert(pred1 =~= pred) by {
            assert forall|e: (u32, Seq<u8>)| #[trigger] pred1(e) == pred(e) by {
                if e.0 != hop && d.neighbors.contains_key(hop) && d.neighbors[hop].1 <= now {
                    assert(d1.neighbors == d.neighbors.remove(hop));
                }
            }
        }
        let rf = rest.filter(pred);
        assert(rf.map_values(f1) =~= rf.map_values(f)) by {
            assert forall|i: int| 0 <= i < rf.len() implies #[trigger] rf.map_values(f1)[i]
                == rf.map_values(f)[i] by {
                rest.lemma_filter_pred(pred, i);
                let h = rf[i].0;
                if d.neighbors.contains_key(hop) && d.neighbors[hop].1 <= now {
                    assert(h != hop);
                    assert(d1.neighbors == d.neighbors.remove(hop));
                }
            }
        }
        assert(q =~= seq![q[0]] + rest);
        Seq::filter_distributes_over_add(seq![q[0]], rest, pred);
        assert(seq![q[0]].filter(pred) =~= if pred(q[0]) {
            seq![q[0]]
        } else {
            Seq::<(u32, Seq<u8>)>::empty()
        }) by {
            reveal_with_fuel(Seq::filter, 2);
            assert(seq![q[0]].drop_last() =~= Seq::<(u32, Seq<u8>)>::empty());
        }
        if d.neighbors.contains_key(hop) {
            if d.neighbors[hop].1 > now {
                let fr = ipv4_frame(d.neighbors[hop].0, q[0].1);
                lemma_filter_push(d.frames, fr, isv4);
                assert(q.filter(pred) =~= seq![q[0]] + rf);
                assert(q.filter(pred).map_values(f) =~= seq![fr] + rf.map_values(f));
            } else {
                let fr = arp_request_frame(mac, ip_addr, hop);
                lemma_filter_push(d.frames, fr, isv4);
                assert(q.filter(pred) =~= rf);
            }
        } else {
            assert(q.filter(pred) =~= rf);
        }
        assert(ipv4_frames(d.frames) + resolved_frames(q, d.neighbors, now) =~= ipv4_frames(d1.frames)
            + resolved_frames(rest, d1.neighbors, now));
    }
}

/// After an accepted ARP packet, the packets still waiting are exactly the
/// ones that waited before and whose next hop is not a live neighbour once
/// the sender of the packet has been learned, in their original order; and
/// the IPv4 frames sent are exactly the others, each to its neighbour, in
/// their order.
pub proof fn lemma_arp_keeps_unresolved(s: NetState, b: Seq<u8>, now: i64, mac: Seq<u8>)
    requires
        arp_accepts(b, mac, s.ip),
    ensures
        arp_spec(s, b, now, mac).0.pending == unresolved_packets(
            s.pending,
            s.neighbors.insert(arp_spa(b), (arp_sha(b), (now + NEIGHBOR_TTL_MICROS) as i64)),
            now,
        ),
        ipv4_frames(arp_spec(s, b, now, mac).1) == resolved_frames(
            s.pending,
            s.neighbors.insert(arp_spa(b), (arp_sha(b), (now + NEIGHBOR_TTL_MICROS) as i64)),
            now,
        ),
{
    let d0 = arp_learn(s, b, now, mac);
    lemma_drain_keeps_unresolved(d0, s.pending, now, mac, s.ip.unwrap().address_spec());
    lemma_drain_sends_resolved(d0, s.pending, now, mac, s.ip.unwrap().address_spec());
    reveal_with_fuel(Seq::filter, 2);
    assert(ipv4_frames(d0.frames) =~= Seq::<FrameView>::empty()) by {
        if arp_op(b) == ARP_OP_REQUEST {
            assert(d0.frames.drop_last() =~= Seq::<FrameView>::empty());
        }
    }
    assert(ipv4_frames(d0.frames) + resolved_frames(s.pending, d0.neighbors, now) =~= resolved_frames(
        s.pending,
        d0.neighbors,
        now,
    ));
    assert(d0.kept + unresolved_packets(s.pending, d0.neighbors, now) =~= unresolved_packets(
        s.pending,
        d0.neighbors,
        now,
    ));
}

/// A pass leaves a live neighbour entry as it is.
pub proof fn lemma_drain_keeps_live(
    d: Drain,
    q: PendingView,
    now: i64,
    mac: Seq<u8>,
    ip_addr: u32,
    k: u32,
)
    requires
        d.neighbors.contains_key(k),
        d.neighbors[k].1 > now,
    ensures
        drain_spec(d, q, now, mac, ip_addr).neighbors.contains_key(k),
        drain_spec(d, q, now, mac, ip_addr).neighbors[k] == d.neighbors[k],
    decreases q.len(),
{
    if q.len() > 0 {
        let d1 = drain_step(d, q[0].0, q[0].1, now, mac, ip_addr);
        assert(d1.neighbors.contains_key(k) && d1.neighbors[k] == d.neighbors[k]);
        lemma_drain_keeps_live(d1, q.drop_first(), now, mac, ip_addr, k);
    }
}

/// Once an ARP packet has resolved a neighbour, a send to it within the
/// neighbour's lifetime goes straight to the address it announced, with no
/// request and nothing queued.
pub proof fn lemma_learned_neighbor_resolves(
    s: NetState,
    b: Seq<u8>,
    now: i64,
    mac: Seq<u8>,
    t: NetState,
    later: i64,
    packet: Seq<u8>,
)
    requires
        arp_accepts(b, mac, s.ip),
        now <= MAX_TIMESTAMP,
        now <= later < now + NEIGHBOR_TTL_MICROS,
        t.neighbors == arp_spec(s, b, now, mac).0.neighbors,
        !is_broadcast_hop(t.ip, IpAddress::Ipv4(arp_spa(b))),
    ensures
        send_spec(t, IpAddress::Ipv4(arp_spa(b)), packet, later, mac) == (
            t,
            seq![ipv4_frame(arp_sha(b), packet)],
            Option::<u32>::None,
        ),
{
    let d0 = arp_learn(s, b, now, mac);
    let spa = arp_spa(b);
    lemma_drain_keeps_live(d0, s.pending, now, mac, s.ip.unwrap().address_spec(), spa);
}

/// Once a neighbour resolves, every packet queued for it goes out to the
/// address it announced, in the order the packets were queued, and the
/// queue is left empty.
pub proof fn lemma_resolved_queue_flushes_in_order(s: NetState, b: Seq<u8>, now: i64, mac: Seq<u8>)
    requires
        arp_accepts(b, mac, s.ip),
        now <= MAX_TIMESTAMP,
        forall|i: int| 0 <= i < s.pending.len() ==> (#[trigger] s.pending[i]).0 == arp_spa(b),
    ensures
        arp_spec(s, b, now, mac).0.pending == PendingView::empty(),
        arp_spec(s, b, now, mac).1 == arp_learn(s, b, now, mac).frames + s.pending.map_values(
            |e: (u32, Seq<u8>)| ipv4_frame(arp_sha(b), e.1),
        ),
{
    let d0 = arp_learn(s, b, now, mac);
    lemma_drain_all_resolved(d0, s.pending, now, mac, s.ip.unwrap().address_spec(), arp_spa(b));
}

/// A pass over packets all for one live neighbour sends them all, in order.
proof fn lemma_drain_all_resolved(
    d: Drain,
    q: PendingView,
    now: i64,
    mac: Seq<u8>,
    ip_addr: u32,
    k: u32,
)
    requires
        d.neighbors.contains_key(k),
        d.neighbors[k].1 > now,
        forall|i: int| 0 <= i < q.len() ==> (#[trigger] q[i]).0 == k,
    ensures
        drain_spec(d, q, now, mac, ip_addr).kept == d.kept,
        drain_spec(d, q, now, mac, ip_addr).frames == d.frames + q.map_values(
            |e: (u32, Seq<u8>)| ipv4_frame(d.neighbors[k].0, e.1),
        ),
    decreases q.len(),
{
    let f = |e: (u32, Seq<u8>)| ipv4_frame(d.neighbors[k].0, e.1);
    if q.len() == 0 {
        assert(q.map_values(f) =~= Seq::<FrameView>::empty());
        assert(d.frames + q.map_values(f) =~= d.frames);
    } else {
        assert(q[0].0 == k);
        let d1 = drain_step(d, q[0].0, q[0].1, now, mac, ip_addr);
        assert(d1.neighbors == d.neighbors);
        assert(d1.frames == d.frames.push(ipv4_frame(d.neighbors[k].0, q[0].1)));
        let rest = q.drop_first();
        assert forall|i: int| 0 <= i < rest.len() implies (#[trigger] rest[i]).0 == k by {
            assert(rest[i] == q[i + 1]);
        }
        lemma_drain_all_resolved(d1, rest, now, mac, ip_addr, k);
        assert(q.map_values(f) =~= seq![f(q[0])] + rest.map_values(f));
        assert(d1.frames + rest.map_values(f) =~= d.frames + q.map_values(f));
    }
}

/// While a request for an unresolved neighbour is younger than the retry
/// interval, a send to it asks for nothing and only offers the packet to
/// the pending queue.
pub proof fn lemma_arp_request_rate_limited(
    s: NetState,
    a: u32,
    packet: Seq<u8>,
    now: i64,
    mac: Seq<u8>,
)
    requires
        !s.neighbors.contains_key(a),
        s.pending_arp.contains_key(a),
        now < s.pending_arp[a] + ARP_REQUEST_RETRY_MICROS,
        !is_broadcast_hop(s.ip, IpAddress::Ipv4(a)),
    ensures
        send_spec(s, IpAddress::Ipv4(a), packet, now, mac).1 == Seq::<FrameView>::empty(),
        send_spec(s, IpAddress::Ipv4(a), packet, now, mac).2 == Some(a),
        send_spec(s, IpAddress::Ipv4(a), packet, now, mac).0.neighbors == s.neighbors,
        send_spec(s, IpAddress::Ipv4(a), packet, now, mac).0.pending_arp == s.pending_arp,
{
    assert(s.neighbors.remove(a) =~= s.neighbors);
}

} // verus!
