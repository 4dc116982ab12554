//! The adapter's tables: resolved neighbours and outstanding ARP requests in
//! hashbrown maps keyed by IPv4 address, and packets waiting for their next
//! hop in a smoltcp packet buffer.
//!
//! The maps are held inside structs whose insides Verus does not see; the
//! packet buffer is declared. Each gets a name for what it holds, and each
//! operation the adapter uses says what it does to that.

use vstd::prelude::*;

use smoltcp::storage::PacketBuffer;

verus! {

#[verifier::external_type_specification]
#[verifier::external_body]
#[verifier::reject_recursive_types(H)]
pub struct ExPacketBuffer<'a, H: 'a>(PacketBuffer<'a, H>);

/// Resolved neighbours: IPv4 address to hardware address and expiry time.
pub type NeighborView = Map<u32, (Seq<u8>, i64)>;

/// Outstanding ARP requests: IPv4 address to the time of the request.
pub type PendingArpView = Map<u32, i64>;

/// Packets waiting for their next hop, oldest first.
pub type PendingView = Seq<(u32, Seq<u8>)>;

/// A hashbrown map of resolved neighbours.
#[verifier::external_body]
pub struct NeighborMap {
    map: hashbrown::HashMap<u32, ([u8; 6], i64)>,
}

/// What a neighbour map holds.
pub uninterp spec fn neighbor_entries(m: NeighborMap) -> NeighborView;

impl NeighborMap {
    /// hashbrown's `HashMap::new`: an empty map.
    #[verifier::external_body]
    pub(crate) fn new() -> (r: Self)
        ensures
            neighbor_entries(r) == NeighborView::empty(),
    {
        NeighborMap { map: hashbrown::HashMap::new() }
    }

    /// `HashMap::get`, copied out: the entry of `ip`, if there is one.
    #[verifier::external_body]
    pub(crate) fn get(&self, ip: u32) -> (r: Option<([u8; 6], i64)>)
        ensures
            r is Some <==> neighbor_entries(*self).contains_key(ip),
            r matches Some((mac, expires_at)) ==> (mac@, expires_at) == neighbor_entries(*self)[ip],
    {
        self.map.get(&ip).copied()
    }

    /// `HashMap::insert`: the entry of `ip` becomes the given one.
    #[verifier::external_body]
    pub(crate) fn insert(&mut self, ip: u32, mac: [u8; 6], expires_at: i64)
        ensures
            neighbor_entries(*final(self)) == neighbor_entries(*old(self)).insert(
                ip,
                (mac@, expires_at),
            ),
    {
        self.map.insert(ip, (mac, expires_at));
    }

    /// `HashMap::remove`: `ip` has no entry afterwards.
    #[verifier::external_body]
    pub(crate) fn remove(&mut self, ip: u32)
        ensures
            neighbor_entries(*final(self)) == neighbor_entries(*old(self)).remove(ip),
    {
        self.map.remove(&ip);
    }

    /// `HashMap::clear`: no entry is left.
    #[verifier::external_body]
    pub(crate) fn clear(&mut self)
        ensures
            neighbor_entries(*final(self)) == NeighborView::empty(),
    {
        self.map.clear();
    }

    /// `HashMap::iter`, copied out: every entry exactly once, in an order
    /// that the map chooses and that is left unsaid.
    #[verifier::external_body]
    pub(crate) fn entries(&self) -> (r: Vec<(u32, [u8; 6], i64)>)
        ensures
            forall|i: int|
                0 <= i < r@.len() ==> #[trigger] neighbor_entries(*self).contains_key(r@[i].0),
            forall|i: int|
                0 <= i < r@.len() ==> #[trigger] neighbor_entries(*self)[r@[i].0] == (r@[i].1@, r@[i].2),
            forall|ip: u32|
                #[trigger] neighbor_entries(*self).contains_key(ip) ==> exists|i: int|
                    0 <= i < r@.len() && r@[i].0 == ip,
            forall|i: int, j: int| 0 <= i < j < r@.len() ==> r@[i].0 != r@[j].0,
    {
        self.map.iter().map(|(ip, entry)| (*ip, entry.0, entry.1)).collect()
    }
}

/// A hashbrown map of outstanding ARP requests.
#[verifier::external_body]
pub struct PendingArpMap {
    map: hashbrown::HashMap<u32, i64>,
}

/// What a map of outstanding requests holds.
pub uninterp spec fn pending_arp_entries(m: PendingArpMap) -> PendingArpView;

impl PendingArpMap {
    /// hashbrown's `HashMap::new`: an empty map.
    #[verifier::external_body]
    pub(crate) fn new() -> (r: Self)
        ensures
            pending_arp_entries(r) == PendingArpView::empty(),
    {
        PendingArpMap { map: hashbrown::HashMap::new() }
    }

    /// `HashMap::get`, copied out.
    #[verifier::external_body]
    pub(crate) fn get(&self, ip: u32) -> (r: Option<i64>)
        ensures
            r == (if pending_arp_entries(*self).contains_key(ip) {
                Some(pending_arp_entries(*self)[ip])
            } else {
                None
            }),
    {
        self.map.get(&ip).copied()
    }

    /// `HashMap::insert`.
    #[verifier::external_body]
    pub(crate) fn insert(&mut self, ip: u32, requested_at: i64)
        ensures
            pending_arp_entries(*final(self)) == pending_arp_entries(*old(self)).insert(
                ip,
                requested_at,
            ),
    {
        self.map.insert(ip, requested_at);
    }

    /// `HashMap::remove`.
    #[verifier::external_body]
    pub(crate) fn remove(&mut self, ip: u32)
        ensures
            pending_arp_entries(*final(self)) == pending_arp_entries(*old(self)).remove(ip),
    {
        self.map.remove(&ip);
    }

    /// `HashMap::clear`.
    #[verifier::external_body]
    pub(crate) fn clear(&mut self)
        ensures
            pending_arp_entries(*final(self)) == PendingArpView::empty(),
    {
        self.map.clear();
    }
}

/// The packets a buffer holds, oldest first, each with its next hop.
pub uninterp spec fn queued_packets(b: PacketBuffer<'static, u32>) -> PendingView;

/// How many packets a buffer was made to hold.
pub uninterp spec fn packet_capacity(b: PacketBuffer<'static, u32>) -> nat;

/// Whether `PacketBuffer::enqueue` of a packet of `size` bytes succeeds on
/// the buffer as it stands: it refuses when the metadata ring is full or the
/// payload ring has no room for the packet where it would go (which depends
/// on how the ring is laid out at that moment).
pub uninterp spec fn packet_accepted(b: PacketBuffer<'static, u32>, size: nat) -> bool;

/// smoltcp's `PacketBuffer::new` with room for `packets` packets and `bytes`
/// bytes of payload: it holds nothing yet.
#[verifier::external_body]
pub(crate) fn new_packet_buffer(packets: usize, bytes: usize) -> (r: PacketBuffer<'static, u32>)
    ensures
        queued_packets(r) == PendingView::empty(),
        packet_capacity(r) == packets,
{
    PacketBuffer::new(vec![smoltcp::storage::PacketMetadata::EMPTY; packets], vec![0u8; bytes])
}

/// `PacketBuffer::enqueue` of `data.len()` bytes for `hop`, and the copy of
/// `data` into the space it hands out: it succeeds exactly when the buffer
/// accepts a packet of that size (`packet_accepted`), which it never does
/// while it holds as many packets as it was made for. A refused packet is
/// refused again right after: a refusal leaves the buffer as it was, or with
/// its metadata ring filled by a padding entry. The layout that otherwise
/// decides is left unsaid.
#[verifier::external_body]
pub(crate) fn enqueue_packet(b: &mut PacketBuffer<'static, u32>, hop: u32, data: &[u8]) -> (ok:
    bool)
    ensures
        ok == packet_accepted(*old(b), data@.len()),
        !ok ==> !packet_accepted(*final(b), data@.len()),
        queued_packets(*old(b)).len() >= packet_capacity(*old(b)) ==> !ok,
        ok ==> queued_packets(*final(b)) == queued_packets(*old(b)).push((hop, data@)),
        !ok ==> queued_packets(*final(b)) == queued_packets(*old(b)),
        packet_capacity(*final(b)) == packet_capacity(*old(b)),
        queued_packets(*final(b)).len() <= packet_capacity(*final(b)),
{
    match b.enqueue(data.len(), hop) {
        Ok(dst) => {
            dst.copy_from_slice(data);
            true
        },
        Err(_) => false,
    }
}

/// `PacketBuffer::is_full`: whether the metadata ring is full. A buffer
/// that holds as many packets as it was made for is full; it may be full
/// earlier, where padding takes a slot. A full buffer accepts no packet,
/// since `enqueue` first refuses on a full metadata ring.
#[verifier::external_body]
pub(crate) fn packet_buffer_is_full(b: &PacketBuffer<'static, u32>) -> (r: bool)
    ensures
        queued_packets(*b).len() >= packet_capacity(*b) ==> r,
        r ==> forall|n: nat| !#[trigger] packet_accepted(*b, n),
{
    b.is_full()
}

/// `PacketBuffer::peek`, copied out: the oldest packet, which stays.
#[verifier::external_body]
pub(crate) fn peek_packet(b: &mut PacketBuffer<'static, u32>) -> (r: Option<(u32, Vec<u8>)>)
    ensures
        queued_packets(*final(b)) == queued_packets(*old(b)),
        packet_capacity(*final(b)) == packet_capacity(*old(b)),
        queued_packets(*old(b)).len() == 0 ==> r is None,
        queued_packets(*old(b)).len() > 0 ==> (r matches Some((hop, data)) && hop
            == queued_packets(*old(b))[0].0 && data@ == queued_packets(*old(b))[0].1),
{
    match b.peek() {
        Ok((hop, data)) => Some((*hop, data.to_vec())),
        Err(_) => None,
    }
}

/// `PacketBuffer::dequeue`, its result dropped: the oldest packet leaves.
#[verifier::external_body]
pub(crate) fn dequeue_packet(b: &mut PacketBuffer<'static, u32>)
    ensures
        queued_packets(*final(b)) == (if queued_packets(*old(b)).len() == 0 {
            queued_packets(*old(b))
        } else {
            queued_packets(*old(b)).drop_first()
        }),
        packet_capacity(*final(b)) == packet_capacity(*old(b)),
{
    let _ = b.dequeue();
}

} // verus!
