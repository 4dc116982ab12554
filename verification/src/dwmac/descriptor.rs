//! DMA descriptors of the DWMAC (normal descriptor layout).

use vstd::prelude::*;

verus! {

pub const RDES0_CRC_ERROR: u32 = 0x2;
pub const RDES0_MII_ERROR: u32 = 0x8;
pub const RDES0_LAST_DESCRIPTOR: u32 = 0x100;
pub const RDES0_FIRST_DESCRIPTOR: u32 = 0x200;
pub const RDES0_OVERFLOW_ERROR: u32 = 0x800;
pub const RDES0_LENGTH_ERROR: u32 = 0x1000;
pub const RDES0_DESCRIPTOR_ERROR: u32 = 0x4000;
pub const RDES0_ERROR_SUMMARY: u32 = 0x8000;
pub const RDES0_FRAME_LEN_MASK: u32 = 0x3fff_0000;
pub const RDES0_FRAME_LEN_SHIFT: u32 = 16;
pub const RDES0_OWN: u32 = 0x8000_0000;
/// Length of the frame check sequence at the end of a received frame.
pub const ETH_FCS_LEN: usize = 4;

pub const RDES1_BUFFER1_SIZE_MASK: u32 = 0x7ff;
pub const RDES1_BUFFER2_SIZE_MASK: u32 = 0x3f_f800;
pub const RDES1_BUFFER2_SIZE_SHIFT: u32 = 11;
pub const RDES1_END_RING: u32 = 0x200_0000;

pub const TDES0_OWN: u32 = 0x8000_0000;

pub const TDES1_BUFFER1_SIZE_MASK: u32 = 0x7ff;
pub const TDES1_BUFFER2_SIZE_MASK: u32 = 0x3f_f800;
pub const TDES1_BUFFER2_SIZE_SHIFT: u32 = 11;
pub const TDES1_END_RING: u32 = 0x200_0000;
pub const TDES1_FIRST_SEGMENT: u32 = 0x2000_0000;
pub const TDES1_LAST_SEGMENT: u32 = 0x4000_0000;
pub const TDES1_INTERRUPT: u32 = 0x8000_0000;

/// Size of one DMA buffer half.
pub const BUF_SIZE_2K: usize = 2048;

/// Alignment of a descriptor in bytes.
pub const DESC_ALIGN: usize = 16;

/// Size of a descriptor in bytes.
pub const DESC_SIZE: usize = 16;

/// All receive error bits.
pub const RDES0_ANY_ERROR: u32 = 0xd80a;

/// A DMA descriptor: status, control/sizes, buffer 1 address, buffer 2
/// address.
#[derive(Clone, Copy, Debug, Default, Eq, PartialEq, Structural)]
pub struct DmaDesc {
    pub des0: u32,
    pub des1: u32,
    pub des2: u32,
    pub des3: u32,
}

/// `bit` when `end_ring` is set, else 0.
pub open spec fn end_bit_spec(end_ring: bool, bit: u32) -> u32 {
    if end_ring {
        bit
    } else {
        0
    }
}

/// The size bits of a transmit descriptor for a frame of `len` bytes: the
/// length itself when it fits buffer 1; otherwise 2047 bytes in buffer 1 and
/// the rest in buffer 2; `None` when the rest does not fit buffer 2 either.
pub open spec fn tx_len_bits_spec(len: usize) -> Option<u32> {
    if len <= 0x7ff {
        Some(len as u32)
    } else if len - 2047 <= 0x7ff {
        Some((2047 + (len - 2047) * 2048) as u32)
    } else {
        None
    }
}

/// The size bits of a receive descriptor for a buffer of `len` bytes: up to
/// 2047 bytes in buffer 1 and, from 2048 bytes on, up to 2047 more in buffer
/// 2; `None` for an empty buffer.
pub open spec fn rx_len_bits_spec(len: usize) -> Option<u32> {
    if len == 0 {
        None
    } else if len < BUF_SIZE_2K {
        Some(len as u32)
    } else {
        let second: int = if len - 2047 < 2047 { len - 2047 } else { 2047 };
        Some((2047 + second * 2048) as u32)
    }
}

/// `a - b`, or 0 when `b` exceeds `a`.
pub open spec fn saturating_sub_spec(a: int, b: int) -> int {
    if a > b {
        a - b
    } else {
        0
    }
}

impl DmaDesc {
    /// Whether `tx` can describe a frame of `len` bytes at `buffer_addr`.
    pub open spec fn tx_spec_ok(buffer_addr: u64, len: usize) -> bool {
        buffer_addr <= u32::MAX && tx_len_bits_spec(len) is Some
    }

    /// An empty transmit descriptor, marking the end of the ring if asked.
    pub fn empty_tx(end_ring: bool) -> (r: Self)
        ensures
            r == (DmaDesc { des0: 0, des1: end_bit_spec(end_ring, TDES1_END_RING), des2: 0, des3: 0 }),
    {
        DmaDesc { des0: 0, des1: end_bit(end_ring, TDES1_END_RING), des2: 0, des3: 0 }
    }

    /// A transmit descriptor for one frame of `len` bytes at `buffer_addr`,
    /// first and last segment with completion interrupt, still owned by the
    /// CPU; `None` when the address does not fit 32 bits or the length does
    /// not fit the two buffers.
    pub fn tx(buffer_addr: u64, len: usize, end_ring: bool) -> (r: Option<Self>)
        ensures
            r is Some <==> buffer_addr <= u32::MAX && tx_len_bits_spec(len) is Some,
            r is Some ==> r->0 == (DmaDesc {
                des0: 0,
                des1: tx_len_bits_spec(len)->0 | end_bit_spec(end_ring, TDES1_END_RING)
                    | TDES1_FIRST_SEGMENT | TDES1_LAST_SEGMENT | TDES1_INTERRUPT,
                des2: buffer_addr as u32,
                des3: 0,
            }),
    {
        if buffer_addr > 0xffff_ffffu64 {
            return None;
        }
        let addr = buffer_addr as u32;
        let len_bits = match tx_len_bits(len) {
            Some(b) => b,
            None => return None,
        };
        Some(
            DmaDesc {
                des0: 0,
                des1: len_bits | end_bit(end_ring, TDES1_END_RING) | TDES1_FIRST_SEGMENT
                    | TDES1_LAST_SEGMENT | TDES1_INTERRUPT,
                des2: addr,
                des3: 0,
            },
        )
    }

    /// The descriptor handed over to the hardware: the own bit set.
    pub fn release_tx_to_hw(self) -> (r: Self)
        ensures
            r == (DmaDesc { des0: self.des0 | TDES0_OWN, ..self }),
    {
        let mut d = self;
        d.des0 = d.des0 | TDES0_OWN;
        d
    }

    /// Whether the hardware still owns a transmit descriptor.
    pub fn tx_owned_by_hw(self) -> (r: bool)
        ensures
            r == (self.des0 & TDES0_OWN != 0),
    {
        self.des0 & TDES0_OWN != 0
    }

    /// Whether a transmitted frame reported an error.
    pub fn tx_has_error(self) -> (r: bool)
        ensures
            r == (self.des0 & RDES0_ERROR_SUMMARY != 0),
    {
        self.des0 & RDES0_ERROR_SUMMARY != 0
    }

    /// A receive descriptor for a buffer of `len` bytes at `buffer_addr`,
    /// owned by the hardware; `None` when the address does not fit 32 bits
    /// or the buffer is empty.
    pub fn rx(buffer_addr: u64, len: usize, end_ring: bool) -> (r: Option<Self>)
        ensures
            r is Some <==> buffer_addr <= u32::MAX && len != 0,
            r is Some ==> r->0 == (DmaDesc {
                des0: RDES0_OWN,
                des1: rx_len_bits_spec(len)->0 | end_bit_spec(end_ring, RDES1_END_RING),
                des2: buffer_addr as u32,
                des3: 0,
            }),
    {
        if buffer_addr > 0xffff_ffffu64 {
            return None;
        }
        let addr = buffer_addr as u32;
        let len_bits = match rx_len_bits(len) {
            Some(b) => b,
            None => return None,
        };
        Some(
            DmaDesc {
                des0: RDES0_OWN,
                des1: len_bits | end_bit(end_ring, RDES1_END_RING),
                des2: addr,
                des3: 0,
            },
        )
    }

    /// Whether the hardware still owns a receive descriptor.
    pub fn rx_owned_by_hw(self) -> (r: bool)
        ensures
            r == (self.des0 & RDES0_OWN != 0),
    {
        self.des0 & RDES0_OWN != 0
    }

    /// Whether a received frame reported any error.
    pub fn rx_error(self) -> (r: bool)
        ensures
            r == (self.des0 & RDES0_ANY_ERROR != 0),
    {
        assert(0x8000u32 | 0x4000u32 | 0x800u32 | 0x2u32 | 0x1000u32 | 0x8u32 == 0xd80au32)
            by (bit_vector);
        self.des0 & (RDES0_ERROR_SUMMARY | RDES0_DESCRIPTOR_ERROR | RDES0_OVERFLOW_ERROR
            | RDES0_CRC_ERROR | RDES0_LENGTH_ERROR | RDES0_MII_ERROR) != 0
    }

    /// Whether the frame fits in this one descriptor: first and last bits.
    pub fn rx_complete_single_frame(self) -> (r: bool)
        ensures
            r == (self.des0 & 0x300 == 0x300),
    {
        assert(0x200u32 | 0x100u32 == 0x300u32) by (bit_vector);
        self.des0 & (RDES0_FIRST_DESCRIPTOR | RDES0_LAST_DESCRIPTOR) == (RDES0_FIRST_DESCRIPTOR
            | RDES0_LAST_DESCRIPTOR)
    }

    /// The length of the received frame without its frame check sequence.
    pub fn rx_frame_len(self) -> (r: usize)
        ensures
            r == saturating_sub_spec(((self.des0 & RDES0_FRAME_LEN_MASK) >> 16u32) as int, 4),
    {
        let wire_len = ((self.des0 & RDES0_FRAME_LEN_MASK) >> RDES0_FRAME_LEN_SHIFT) as usize;
        wire_len.saturating_sub(ETH_FCS_LEN)
    }
}

/// The number of bytes `count` descriptors take.
pub fn desc_ring_bytes(count: usize) -> (r: usize)
    requires
        count * DESC_SIZE <= usize::MAX,
    ensures
        r == count * DESC_SIZE,
{
    count * DESC_SIZE
}

/// `bit` when `end_ring` is set, else 0.
pub fn end_bit(end_ring: bool, bit: u32) -> (r: u32)
    ensures
        r == end_bit_spec(end_ring, bit),
{
    if end_ring {
        bit
    } else {
        0
    }
}

/// The size bits of a transmit descriptor for a frame of `len` bytes.
pub fn tx_len_bits(len: usize) -> (r: Option<u32>)
    ensures
        r == tx_len_bits_spec(len),
{
    if len == 0 {
        return Some(0);
    }
    if len <= TDES1_BUFFER1_SIZE_MASK as usize {
        return Some(len as u32);
    }
    let first = BUF_SIZE_2K - 1;
    assert(0x3f_f800u32 >> 11u32 == 0x7ffu32) by (bit_vector);
    let second = match len.checked_sub(first) {
        Some(s) => s,
        None => return None,
    };
    if second > (TDES1_BUFFER2_SIZE_MASK >> TDES1_BUFFER2_SIZE_SHIFT) as usize {
        return None;
    }
    let f = first as u32;
    let s = second as u32;
    let r = (f & TDES1_BUFFER1_SIZE_MASK) | ((s << TDES1_BUFFER2_SIZE_SHIFT) & TDES1_BUFFER2_SIZE_MASK);
    assert(((f & 0x7ff) | ((s << 11u32) & 0x3f_f800u32)) == (2047 + s * 2048) as u32) by (bit_vector)
        requires
            f == 2047,
            s <= 0x7ff,
    ;
    Some(r)
}

/// The size bits of a receive descriptor for a buffer of `len` bytes.
pub fn rx_len_bits(len: usize) -> (r: Option<u32>)
    ensures
        r == rx_len_bits_spec(len),
{
    if len == 0 {
        return None;
    }
    let first = if len < BUF_SIZE_2K - 1 {
        len
    } else {
        BUF_SIZE_2K - 1
    } as u32;
    let mut bits = first & RDES1_BUFFER1_SIZE_MASK;
    assert(2047u32 & 0x7ffu32 == 2047u32) by (bit_vector);
    if len >= BUF_SIZE_2K {
        let second = (if len - BUF_SIZE_2K + 1 < BUF_SIZE_2K - 1 {
            len - BUF_SIZE_2K + 1
        } else {
            BUF_SIZE_2K - 1
        }) as u32;
        let b1 = bits;
        bits = b1 | ((second << RDES1_BUFFER2_SIZE_SHIFT) & RDES1_BUFFER2_SIZE_MASK);
        assert((b1 | ((second << 11u32) & 0x3f_f800u32)) == (2047 + second * 2048) as u32)
            by (bit_vector)
            requires
                b1 == 2047u32,
                second <= 2047u32,
        ;
    } else {
        assert(first & 0x7ff == first) by (bit_vector)
            requires
                first < 2048u32,
        ;
    }
    Some(bits)
}

} // verus!
