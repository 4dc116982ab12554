//! Transmit and receive descriptor rings.

use vstd::prelude::*;

use super::barrier::release_to_device;
use super::descriptor::{
    desc_ring_bytes, end_bit_spec, rx_len_bits_spec, saturating_sub_spec, tx_len_bits_spec, DmaDesc,
    RDES0_ERROR_SUMMARY, RDES0_OWN, RDES1_END_RING, TDES0_OWN, TDES1_END_RING, TDES1_FIRST_SEGMENT,
    TDES1_INTERRUPT, TDES1_LAST_SEGMENT,
};
use super::error::{Error, QueueConfig};
use super::regs::{RegisterIo, Regs};

verus! {

pub const TX_QUEUE_ID: usize = 0;
pub const RX_QUEUE_ID: usize = 0;

/// A ring of DMA descriptors shared with the device. What a read returns is
/// up to the device.
pub trait DescRing {
    fn len(&self) -> usize;

    fn dma_addr(&self) -> u64;

    fn set_cpu(&mut self, idx: usize, desc: DmaDesc);

    fn read_cpu(&self, idx: usize) -> Option<DmaDesc>;
}

/// A buffer in device-visible memory.
#[derive(Clone, Copy, Debug, Eq, PartialEq, Structural)]
pub struct DmaBuffer {
    pub bus_addr: u64,
    pub len: usize,
}

/// Why a queue refused a buffer.
#[derive(Clone, Copy, Debug, Eq, PartialEq, Structural)]
pub enum QueueError {
    /// The buffer cannot be described by this queue.
    NotSupported,
    /// The ring is full; try again after a reclaim.
    Retry,
}

/// Slot `j` positions after `start` in a ring of `n` slots.
pub open spec fn ring_slot(start: int, j: int, n: int) -> int {
    if start + j < n {
        start + j
    } else {
        start + j - n
    }
}

/// The bookkeeping of a ring: `count` buffers are in flight, in the slots
/// from `next_reclaim` on, and `next_submit` is the slot after them.
pub open spec fn ring_wf(
    bus_addrs: Seq<Option<u64>>,
    next_submit: usize,
    next_reclaim: usize,
    count: nat,
) -> bool {
    let n = bus_addrs.len() as int;
    &&& n > 0
    &&& next_reclaim < n
    &&& count <= n
    &&& next_submit == ring_slot(next_reclaim as int, count as int, n) || (count == n
        && next_submit == next_reclaim)
    &&& next_submit < n
    &&& forall|j: int|
        0 <= j < n ==> (#[trigger] bus_addrs[ring_slot(next_reclaim as int, j, n)] is Some <==> j
            < count)
}

/// The bus addresses in flight, oldest first.
pub open spec fn ring_pending(bus_addrs: Seq<Option<u64>>, next_reclaim: usize, count: nat) -> Seq<
    u64,
> {
    Seq::new(count, |j: int| bus_addrs[ring_slot(next_reclaim as int, j, bus_addrs.len() as int)]->0)
}

/// The empty transmit descriptor `new` puts in a slot, closing the ring at
/// the last one.
pub open spec fn empty_tx_spec(end_ring: bool) -> DmaDesc {
    DmaDesc { des0: 0, des1: end_bit_spec(end_ring, TDES1_END_RING), des2: 0, des3: 0 }
}

/// The transmit descriptor handed to the device for a frame of `len` bytes
/// at `addr`: one segment, completion interrupt, owned by the device.
pub open spec fn tx_hw_spec(addr: u64, len: usize, end_ring: bool) -> DmaDesc {
    DmaDesc {
        des0: 0 | TDES0_OWN,
        des1: tx_len_bits_spec(len)->0 | end_bit_spec(end_ring, TDES1_END_RING) | TDES1_FIRST_SEGMENT
            | TDES1_LAST_SEGMENT | TDES1_INTERRUPT,
        des2: addr as u32,
        des3: 0,
    }
}

/// The receive descriptor handed to the device for a buffer of `len` bytes
/// at `addr`, owned by the device.
pub open spec fn rx_hw_spec(addr: u64, len: usize, end_ring: bool) -> DmaDesc {
    DmaDesc {
        des0: RDES0_OWN,
        des1: rx_len_bits_spec(len)->0 | end_bit_spec(end_ring, RDES1_END_RING),
        des2: addr as u32,
        des3: 0,
    }
}

/// The length reported for a completed receive descriptor: 0 for an
/// erroneous or multi-descriptor frame, else the frame length without its
/// check sequence, at most the buffer size.
pub open spec fn rx_completion_len_spec(desc: DmaDesc, buf_size: usize) -> usize {
    if desc.des0 & 0xd80a != 0 || desc.des0 & 0x300 != 0x300 {
        0
    } else {
        let l = saturating_sub_spec(((desc.des0 & 0x3fff_0000) >> 16u32) as int, 4);
        if l < buf_size {
            l as usize
        } else {
            buf_size
        }
    }
}

/// The length reported for a completed receive descriptor.
pub fn rx_completion_len(desc: DmaDesc, buf_size: usize) -> (r: usize)
    ensures
        r == rx_completion_len_spec(desc, buf_size),
        r <= buf_size,
{
    if desc.rx_error() || !desc.rx_complete_single_frame() {
        return 0;
    }
    let l = desc.rx_frame_len();
    if l < buf_size {
        l
    } else {
        buf_size
    }
}

proof fn lemma_next_slot(idx: usize, n: usize)
    requires
        idx < n,
    ensures
        (idx + 1) % (n as int) == if idx + 1 < n { idx + 1 } else { 0 },
{
    if idx + 1 < n {
        vstd::arithmetic::div_mod::lemma_small_mod((idx + 1) as nat, n as nat);
    } else {
        vstd::arithmetic::div_mod::lemma_mod_self_0(n as int);
    }
}

/// Checks that a ring of `n` descriptors at `base` lies below 4 GiB.
pub fn ring_below_4g(base: u64, n: usize) -> (r: bool)
    ensures
        r == (base <= u32::MAX && base + n * 16 <= u32::MAX),
{
    if base > 0xffff_ffffu64 {
        return false;
    }
    if n > 0x0fff_ffffusize {
        return false;
    }
    let bytes = desc_ring_bytes(n);
    base + bytes as u64 <= 0xffff_ffffu64
}

/// The transmit ring.
pub struct TxQueue<R, B> {
    regs: Regs<B>,
    desc: R,
    bus_addrs: Vec<Option<u64>>,
    next_submit: usize,
    next_reclaim: usize,
    config: QueueConfig,
    count: Ghost<nat>,
    written: Ghost<Map<int, DmaDesc>>,
}

impl<R: DescRing, B: RegisterIo> TxQueue<R, B> {
    /// The ring's bookkeeping holds; a queue on an empty ring holds nothing.
    pub closed spec fn wf(&self) -> bool {
        if self.bus_addrs@.len() == 0 {
            self.count@ == 0
        } else {
            ring_wf(self.bus_addrs@, self.next_submit, self.next_reclaim, self.count@)
        }
    }

    /// The bus addresses handed to the device and not reclaimed yet, oldest
    /// first.
    pub closed spec fn pending(&self) -> Seq<u64> {
        ring_pending(self.bus_addrs@, self.next_reclaim, self.count@)
    }

    /// The number of descriptors of the ring.
    pub closed spec fn capacity(&self) -> nat {
        self.bus_addrs@.len()
    }

    /// The queue geometry.
    pub closed spec fn config_spec(&self) -> QueueConfig {
        self.config
    }

    /// The descriptor this queue last handed to each slot of the ring.
    pub closed spec fn written(&self) -> Map<int, DmaDesc> {
        self.written@
    }

    /// The slot the next submission goes to.
    pub closed spec fn next_slot(&self) -> int {
        self.next_submit as int
    }

    /// The slot of the oldest buffer in flight.
    pub closed spec fn oldest_slot(&self) -> int {
        self.next_reclaim as int
    }

    /// Fills the ring with empty descriptors (the last one closing the ring),
    /// points the device at it and starts the transmitter. Fails when the
    /// ring does not lie below 4 GiB.
    pub fn new(regs: Regs<B>, desc: R, config: QueueConfig) -> (r: Result<Self, Error>)
        ensures
            match r {
                Ok(q) => {
                    &&& q.wf() && q.pending().len() == 0 && q.config_spec() == config
                    &&& q.next_slot() == 0 && q.oldest_slot() == 0
                    &&& q.written() == Map::new(
                        |j: int| 0 <= j < q.capacity(),
                        |j: int| empty_tx_spec(j == q.capacity() - 1),
                    )
                },
                Err(e) => e == Error::DmaAddressTooWide,
            },
    {
        let mut desc = desc;
        let n = desc.len();
        let mut idx: usize = 0;
        let ghost mut written = Map::<int, DmaDesc>::empty();
        while idx < n
            invariant
                idx <= n,
                written == Map::new(|j: int| 0 <= j < idx, |j: int| empty_tx_spec(j == n - 1)),
            decreases n - idx,
        {
            let d = DmaDesc::empty_tx(idx == n - 1);
            desc.set_cpu(idx, d);
            proof {
                written = written.insert(idx as int, d);
                assert(written =~= Map::new(|j: int| 0 <= j < idx + 1, |j: int| empty_tx_spec(j == n - 1)));
            }
            idx = idx + 1;
        }
        let base = desc.dma_addr();
        if !ring_below_4g(base, n) {
            return Err(Error::DmaAddressTooWide);
        }
        regs.write_tx_desc_base(base);
        regs.start_tx();
        let bus_addrs: Vec<Option<u64>> = vec![None; n];
        Ok(
            TxQueue {
                regs,
                desc,
                bus_addrs,
                next_submit: 0,
                next_reclaim: 0,
                config,
                count: Ghost(0),
                written: Ghost(written),
            },
        )
    }

    pub fn id(&self) -> (r: usize)
        ensures
            r == TX_QUEUE_ID,
    {
        TX_QUEUE_ID
    }

    pub fn config(&self) -> (r: QueueConfig)
        ensures
            r == self.config_spec(),
    {
        self.config
    }

    /// Hands a frame to the device: refused when longer than the buffer
    /// size, retried when the ring is full, refused when the descriptor
    /// cannot describe it; otherwise queued after the frames in flight.
    pub fn submit(&mut self, buffer: DmaBuffer) -> (r: Result<(), QueueError>)
        requires
            old(self).wf(),
            old(self).capacity() > 0,
        ensures
            final(self).wf(),
            final(self).capacity() == old(self).capacity(),
            final(self).config_spec() == old(self).config_spec(),
            buffer.len > old(self).config_spec().buf_size ==> r == Err::<(), QueueError>(
                QueueError::NotSupported,
            ),
            buffer.len <= old(self).config_spec().buf_size && old(self).pending().len()
                == old(self).capacity() ==> r == Err::<(), QueueError>(QueueError::Retry),
            buffer.len <= old(self).config_spec().buf_size && old(self).pending().len()
                < old(self).capacity() ==> (r is Ok <==> DmaDesc::tx_spec_ok(
                buffer.bus_addr,
                buffer.len,
            )),
            buffer.len <= old(self).config_spec().buf_size && old(self).pending().len()
                < old(self).capacity() && !DmaDesc::tx_spec_ok(buffer.bus_addr, buffer.len) ==> r
                == Err::<(), QueueError>(QueueError::NotSupported),
            r is Err ==> r == Err::<(), QueueError>(QueueError::NotSupported) || r == Err::<
                (),
                QueueError,
            >(QueueError::Retry),
            r is Ok ==> final(self).pending() == old(self).pending().push(buffer.bus_addr),
            r is Err ==> final(self).pending() == old(self).pending(),
            r is Ok ==> final(self).written() == old(self).written().insert(
                old(self).next_slot(),
                tx_hw_spec(buffer.bus_addr, buffer.len, old(self).next_slot() == old(self).capacity() - 1),
            ),
            r is Ok ==> final(self).next_slot() == (old(self).next_slot() + 1) % (old(
                self,
            ).capacity() as int),
            r is Err ==> final(self).written() == old(self).written() && final(self).next_slot()
                == old(self).next_slot(),
            final(self).oldest_slot() == old(self).oldest_slot(),
    {
        if buffer.len > self.config.buf_size {
            return Err(QueueError::NotSupported);
        }
        let n = self.bus_addrs.len();
        let idx = self.next_submit;
        proof {
            let j = self.count@ as int;
            if j < n {
                assert(ring_slot(self.next_reclaim as int, j, n as int) == idx);
                assert(self.bus_addrs@[ring_slot(self.next_reclaim as int, j, n as int)] is None);
            } else {
                assert(ring_slot(self.next_reclaim as int, 0, n as int) == idx);
                assert(self.bus_addrs@[ring_slot(self.next_reclaim as int, 0, n as int)] is Some);
            }
        }
        if self.bus_addrs[idx].is_some() {
            return Err(QueueError::Retry);
        }
        let desc = match DmaDesc::tx(buffer.bus_addr, buffer.len, idx == n - 1) {
            Some(d) => d,
            None => return Err(QueueError::NotSupported),
        };
        self.desc.set_cpu(idx, desc);
        release_to_device();
        let hw_desc = desc.release_tx_to_hw();
        self.desc.set_cpu(idx, hw_desc);
        proof {
            self.written@ = self.written@.insert(idx as int, hw_desc);
        }
        let ghost old_addrs = self.bus_addrs@;
        let ghost c = self.count@;
        self.bus_addrs.set(idx, Some(buffer.bus_addr));
        proof {
            lemma_next_slot(idx, n);
            lemma_ring_push(old_addrs, self.bus_addrs@, self.next_reclaim, c, buffer.bus_addr);
        }
        self.next_submit = (idx + 1) % n;
        self.count = Ghost((c + 1) as nat);
        self.regs.poll_tx();
        Ok(())
    }

    /// Takes back the oldest frame in flight once the device has released
    /// its descriptor, and returns its bus address. A descriptor that
    /// reported an error is cleared.
    pub fn reclaim(&mut self) -> (r: Option<u64>)
        requires
            old(self).wf(),
            old(self).capacity() > 0,
        ensures
            final(self).wf(),
            final(self).capacity() == old(self).capacity(),
            final(self).config_spec() == old(self).config_spec(),
            old(self).pending().len() == 0 ==> r is None,
            r is Some ==> old(self).pending().len() > 0 && r->0 == old(self).pending()[0]
                && final(self).pending() == old(self).pending().drop_first(),
            r is None ==> final(self).pending() == old(self).pending(),
            final(self).written() == old(self).written() || (r is Some && final(self).written()
                == old(self).written().insert(
                old(self).oldest_slot(),
                empty_tx_spec(old(self).oldest_slot() == old(self).capacity() - 1),
            )),
            final(self).next_slot() == old(self).next_slot(),
    {
        if self.count_is_zero() {
            return None;
        }
        let idx = self.next_reclaim;
        match self.desc.read_cpu(idx) {
            Some(d) => self.reclaim_desc(d),
            None => None,
        }
    }

    /// Whether nothing is in flight.
    fn count_is_zero(&self) -> (r: bool)
        requires
            self.wf(),
            self.capacity() > 0,
        ensures
            r == (self.pending().len() == 0),
    {
        let n = self.bus_addrs.len();
        proof {
            assert(ring_slot(self.next_reclaim as int, 0, n as int) == self.next_reclaim);
        }
        self.bus_addrs[self.next_reclaim].is_none()
    }

    /// The decision of `reclaim` on the descriptor read back from the oldest
    /// slot: the oldest frame comes back exactly when one is in flight and
    /// the device has released its descriptor (own bit clear); a descriptor
    /// that reported an error is then reset to an empty one.
    pub fn reclaim_desc(&mut self, desc: DmaDesc) -> (r: Option<u64>)
        requires
            old(self).wf(),
            old(self).capacity() > 0,
        ensures
            final(self).wf(),
            final(self).capacity() == old(self).capacity(),
            final(self).config_spec() == old(self).config_spec(),
            r is Some <==> old(self).pending().len() > 0 && desc.des0 & TDES0_OWN == 0,
            r is Some ==> r->0 == old(self).pending()[0] && final(self).pending() == old(
                self,
            ).pending().drop_first(),
            r is None ==> final(self).pending() == old(self).pending(),
            final(self).written() == (if r is Some && desc.des0 & RDES0_ERROR_SUMMARY != 0 {
                old(self).written().insert(
                    old(self).oldest_slot(),
                    empty_tx_spec(old(self).oldest_slot() == old(self).capacity() - 1),
                )
            } else {
                old(self).written()
            }),
            final(self).next_slot() == old(self).next_slot(),
            r is Some ==> final(self).oldest_slot() == (old(self).oldest_slot() + 1) % (old(
                self,
            ).capacity() as int),
            r is None ==> final(self).oldest_slot() == old(self).oldest_slot(),
    {
        let n = self.bus_addrs.len();
        let idx = self.next_reclaim;
        proof {
            assert(ring_slot(self.next_reclaim as int, 0, n as int) == idx);
        }
        let bus_addr = match self.bus_addrs[idx] {
            Some(a) => a,
            None => return None,
        };
        if desc.tx_owned_by_hw() {
            return None;
        }
        if desc.tx_has_error() {
            let cleared = DmaDesc::empty_tx(idx == n - 1);
            self.desc.set_cpu(idx, cleared);
            proof {
                self.written@ = self.written@.insert(idx as int, cleared);
            }
        }
        let ghost old_addrs = self.bus_addrs@;
        let ghost c = self.count@;
        proof {
            lemma_next_slot(idx, n);
        }
        self.next_reclaim = (idx + 1) % n;
        self.bus_addrs.set(idx, None);
        proof {
            lemma_ring_pop(old_addrs, self.bus_addrs@, idx, self.next_reclaim, c);
        }
        self.count = Ghost((c - 1) as nat);
        Some(bus_addr)
    }
}


/// The receive ring.
pub struct RxQueue<R, B> {
    regs: Regs<B>,
    desc: R,
    bus_addrs: Vec<Option<u64>>,
    next_submit: usize,
    next_reclaim: usize,
    config: QueueConfig,
    count: Ghost<nat>,
    written: Ghost<Map<int, DmaDesc>>,
}

impl<R: DescRing, B: RegisterIo> RxQueue<R, B> {
    /// The ring's bookkeeping holds; a queue on an empty ring holds nothing.
    pub closed spec fn wf(&self) -> bool {
        if self.bus_addrs@.len() == 0 {
            self.count@ == 0
        } else {
            ring_wf(self.bus_addrs@, self.next_submit, self.next_reclaim, self.count@)
        }
    }

    /// The bus addresses of the buffers handed to the device and not
    /// reclaimed yet, oldest first.
    pub closed spec fn pending(&self) -> Seq<u64> {
        ring_pending(self.bus_addrs@, self.next_reclaim, self.count@)
    }

    /// The number of descriptors of the ring.
    pub closed spec fn capacity(&self) -> nat {
        self.bus_addrs@.len()
    }

    /// The queue geometry.
    pub closed spec fn config_spec(&self) -> QueueConfig {
        self.config
    }

    /// The descriptor this queue last handed to each slot of the ring.
    pub closed spec fn written(&self) -> Map<int, DmaDesc> {
        self.written@
    }

    /// The slot the next submission goes to.
    pub closed spec fn next_slot(&self) -> int {
        self.next_submit as int
    }

    /// The slot of the oldest buffer in flight.
    pub closed spec fn oldest_slot(&self) -> int {
        self.next_reclaim as int
    }

    /// Points the device at the ring. Fails when the ring does not lie below
    /// 4 GiB.
    pub fn new(regs: Regs<B>, desc: R, config: QueueConfig) -> (r: Result<Self, Error>)
        ensures
            match r {
                Ok(q) => {
                    &&& q.wf() && q.pending().len() == 0 && q.config_spec() == config
                    &&& q.next_slot() == 0 && q.oldest_slot() == 0
                    &&& q.written() == Map::<int, DmaDesc>::empty()
                },
                Err(e) => e == Error::DmaAddressTooWide,
            },
    {
        let n = desc.len();
        let ghost written = Map::<int, DmaDesc>::empty();
        let base = desc.dma_addr();
        if !ring_below_4g(base, n) {
            return Err(Error::DmaAddressTooWide);
        }
        regs.write_rx_desc_base(base);
        let bus_addrs: Vec<Option<u64>> = vec![None; n];
        Ok(
            RxQueue {
                regs,
                desc,
                bus_addrs,
                next_submit: 0,
                next_reclaim: 0,
                config,
                count: Ghost(0),
                written: Ghost(written),
            },
        )
    }

    pub fn id(&self) -> (r: usize)
        ensures
            r == RX_QUEUE_ID,
    {
        RX_QUEUE_ID
    }

    pub fn config(&self) -> (r: QueueConfig)
        ensures
            r == self.config_spec(),
    {
        self.config
    }

    /// Hands an empty buffer to the device: refused when smaller than the
    /// buffer size, retried when the ring is full, refused when its address
    /// does not fit a descriptor; otherwise queued after the buffers in
    /// flight, and the receiver is (re)started.
    pub fn submit(&mut self, buffer: DmaBuffer) -> (r: Result<(), QueueError>)
        requires
            old(self).wf(),
            old(self).capacity() > 0,
        ensures
            final(self).wf(),
            final(self).capacity() == old(self).capacity(),
            final(self).config_spec() == old(self).config_spec(),
            buffer.len < old(self).config_spec().buf_size ==> r == Err::<(), QueueError>(
                QueueError::NotSupported,
            ),
            buffer.len >= old(self).config_spec().buf_size && old(self).pending().len()
                == old(self).capacity() ==> r == Err::<(), QueueError>(QueueError::Retry),
            buffer.len >= old(self).config_spec().buf_size && old(self).pending().len()
                < old(self).capacity() ==> (r is Ok <==> buffer.bus_addr <= u32::MAX
                && old(self).config_spec().buf_size != 0),
            buffer.len >= old(self).config_spec().buf_size && old(self).pending().len()
                < old(self).capacity() && !(buffer.bus_addr <= u32::MAX && old(
                self,
            ).config_spec().buf_size != 0) ==> r == Err::<(), QueueError>(QueueError::NotSupported),
            r is Err ==> r == Err::<(), QueueError>(QueueError::NotSupported) || r == Err::<
                (),
                QueueError,
            >(QueueError::Retry),
            r is Ok ==> final(self).pending() == old(self).pending().push(buffer.bus_addr),
            r is Err ==> final(self).pending() == old(self).pending(),
            r is Ok ==> final(self).written() == old(self).written().insert(
                old(self).next_slot(),
                rx_hw_spec(
                    buffer.bus_addr,
                    old(self).config_spec().buf_size,
                    old(self).next_slot() == old(self).capacity() - 1,
                ),
            ),
            r is Ok ==> final(self).next_slot() == (old(self).next_slot() + 1) % (old(
                self,
            ).capacity() as int),
            r is Err ==> final(self).written() == old(self).written() && final(self).next_slot()
                == old(self).next_slot(),
            final(self).oldest_slot() == old(self).oldest_slot(),
    {
        if buffer.len < self.config.buf_size {
            return Err(QueueError::NotSupported);
        }
        let n = self.bus_addrs.len();
        let idx = self.next_submit;
        proof {
            let j = self.count@ as int;
            if j < n {
                assert(ring_slot(self.next_reclaim as int, j, n as int) == idx);
                assert(self.bus_addrs@[ring_slot(self.next_reclaim as int, j, n as int)] is None);
            } else {
                assert(ring_slot(self.next_reclaim as int, 0, n as int) == idx);
                assert(self.bus_addrs@[ring_slot(self.next_reclaim as int, 0, n as int)] is Some);
            }
        }
        if self.bus_addrs[idx].is_some() {
            return Err(QueueError::Retry);
        }
        let desc = match DmaDesc::rx(buffer.bus_addr, self.config.buf_size, idx == n - 1) {
            Some(d) => d,
            None => return Err(QueueError::NotSupported),
        };
        self.desc.set_cpu(idx, desc);
        proof {
            self.written@ = self.written@.insert(idx as int, desc);
        }
        release_to_device();
        let ghost old_addrs = self.bus_addrs@;
        let ghost c = self.count@;
        self.bus_addrs.set(idx, Some(buffer.bus_addr));
        proof {
            lemma_next_slot(idx, n);
            lemma_ring_push(old_addrs, self.bus_addrs@, self.next_reclaim, c, buffer.bus_addr);
        }
        self.next_submit = (idx + 1) % n;
        self.count = Ghost((c + 1) as nat);
        self.regs.start_rx();
        self.regs.poll_rx();
        Ok(())
    }

    /// Takes back the oldest buffer in flight once the device has filled
    /// it, with the length of the frame received (0 for a bad frame).
    pub fn reclaim(&mut self) -> (r: Option<(u64, usize)>)
        requires
            old(self).wf(),
            old(self).capacity() > 0,
        ensures
            final(self).wf(),
            final(self).capacity() == old(self).capacity(),
            final(self).config_spec() == old(self).config_spec(),
            old(self).pending().len() == 0 ==> r is None,
            r matches Some((addr, len)) ==> old(self).pending().len() > 0 && addr == old(
                self,
            ).pending()[0] && len <= old(self).config_spec().buf_size && final(self).pending()
                == old(self).pending().drop_first(),
            r is None ==> final(self).pending() == old(self).pending(),
            final(self).written() == old(self).written(),
            final(self).next_slot() == old(self).next_slot(),
    {
        if self.count_is_zero() {
            return None;
        }
        let idx = self.next_reclaim;
        match self.desc.read_cpu(idx) {
            Some(d) => self.reclaim_desc(d),
            None => None,
        }
    }

    /// Whether nothing is in flight.
    fn count_is_zero(&self) -> (r: bool)
        requires
            self.wf(),
            self.capacity() > 0,
        ensures
            r == (self.pending().len() == 0),
    {
        let n = self.bus_addrs.len();
        proof {
            assert(ring_slot(self.next_reclaim as int, 0, n as int) == self.next_reclaim);
        }
        self.bus_addrs[self.next_reclaim].is_none()
    }

    /// The decision of `reclaim` on the descriptor read back from the oldest
    /// slot: the oldest buffer comes back exactly when one is in flight and
    /// the device has released its descriptor (own bit clear), with the
    /// length `rx_completion_len` gives for that descriptor.
    pub fn reclaim_desc(&mut self, desc: DmaDesc) -> (r: Option<(u64, usize)>)
        requires
            old(self).wf(),
            old(self).capacity() > 0,
        ensures
            final(self).wf(),
            final(self).capacity() == old(self).capacity(),
            final(self).config_spec() == old(self).config_spec(),
            r is Some <==> old(self).pending().len() > 0 && desc.des0 & RDES0_OWN == 0,
            r is Some ==> r == Some((
                old(self).pending()[0],
                rx_completion_len_spec(desc, old(self).config_spec().buf_size),
            )) && final(self).pending() == old(self).pending().drop_first(),
            r is None ==> final(self).pending() == old(self).pending(),
            final(self).written() == old(self).written(),
            final(self).next_slot() == old(self).next_slot(),
            r is Some ==> final(self).oldest_slot() == (old(self).oldest_slot() + 1) % (old(
                self,
            ).capacity() as int),
            r is None ==> final(self).oldest_slot() == old(self).oldest_slot(),
    {
        let n = self.bus_addrs.len();
        let idx = self.next_reclaim;
        proof {
            assert(ring_slot(self.next_reclaim as int, 0, n as int) == idx);
        }
        let bus_addr = match self.bus_addrs[idx] {
            Some(a) => a,
            None => return None,
        };
        if desc.rx_owned_by_hw() {
            return None;
        }
        let ghost old_addrs = self.bus_addrs@;
        let ghost c = self.count@;
        proof {
            lemma_next_slot(idx, n);
        }
        self.next_reclaim = (idx + 1) % n;
        self.bus_addrs.set(idx, None);
        proof {
            lemma_ring_pop(old_addrs, self.bus_addrs@, idx, self.next_reclaim, c);
        }
        self.count = Ghost((c - 1) as nat);
        let len = rx_completion_len(desc, self.config.buf_size);
        Some((bus_addr, len))
    }
}

/// Filling the slot after the frames in flight appends to them.
proof fn lemma_ring_push(
    a0: Seq<Option<u64>>,
    a1: Seq<Option<u64>>,
    nr: usize,
    count: nat,
    addr: u64,
)
    requires
        a0.len() > 0,
        nr < a0.len(),
        count < a0.len(),
        forall|j: int|
            0 <= j < a0.len() ==> (#[trigger] a0[ring_slot(nr as int, j, a0.len() as int)] is Some
                <==> j < count),
        a1 == a0.update(ring_slot(nr as int, count as int, a0.len() as int), Some(addr)),
    ensures
        forall|j: int|
            0 <= j < a1.len() ==> (#[trigger] a1[ring_slot(nr as int, j, a1.len() as int)] is Some
                <==> j < count + 1),
        ring_pending(a1, nr, count + 1) == ring_pending(a0, nr, count).push(addr),
{
    let n = a0.len() as int;
    assert forall|j: int| 0 <= j < n implies (#[trigger] a1[ring_slot(nr as int, j, n)] is Some
        <==> j < count + 1) by {
        if j != count {
            assert(ring_slot(nr as int, j, n) != ring_slot(nr as int, count as int, n));
        }
    }
    assert forall|j: int| 0 <= j < count implies a1[ring_slot(nr as int, j, n)] == a0[ring_slot(
        nr as int,
        j,
        n,
    )] by {
        assert(ring_slot(nr as int, j, n) != ring_slot(nr as int, count as int, n));
    }
    assert(ring_pending(a1, nr, count + 1) =~= ring_pending(a0, nr, count).push(addr));
}

/// Emptying the oldest slot drops the oldest frame.
proof fn lemma_ring_pop(a0: Seq<Option<u64>>, a1: Seq<Option<u64>>, nr: usize, nr1: usize, count: nat)
    requires
        a0.len() > 0,
        nr < a0.len(),
        0 < count <= a0.len(),
        nr1 == if nr + 1 < a0.len() { nr + 1 } else { 0 },
        forall|j: int|
            0 <= j < a0.len() ==> (#[trigger] a0[ring_slot(nr as int, j, a0.len() as int)] is Some
                <==> j < count),
        a1 == a0.update(nr as int, None::<u64>),
    ensures
        forall|j: int|
            0 <= j < a1.len() ==> (#[trigger] a1[ring_slot(nr1 as int, j, a1.len() as int)] is Some
                <==> j < count - 1),
        ring_pending(a1, nr1, (count - 1) as nat) == ring_pending(a0, nr, count).drop_first(),
{
    let n = a0.len() as int;
    assert(ring_slot(nr as int, 0, n) == nr);
    assert forall|j: int| 0 <= j < n implies (#[trigger] a1[ring_slot(nr1 as int, j, n)] is Some <==> j
        < count - 1) by {
        if j < n - 1 {
            assert(ring_slot(nr1 as int, j, n) == ring_slot(nr as int, j + 1, n));
            assert(a0[ring_slot(nr as int, j + 1, n)] is Some <==> j + 1 < count);
        } else {
            assert(ring_slot(nr1 as int, j, n) == nr);
        }
    }
    assert forall|j: int| 0 <= j < count - 1 implies a1[ring_slot(nr1 as int, j, n)] == a0[ring_slot(
        nr as int,
        j + 1,
        n,
    )] by {
        assert(ring_slot(nr1 as int, j, n) == ring_slot(nr as int, j + 1, n));
    }
    assert(ring_pending(a1, nr1, (count - 1) as nat) =~= ring_pending(a0, nr, count).drop_first());
}

} // verus!
