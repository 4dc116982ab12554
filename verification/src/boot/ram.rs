//! Early memory: a bump allocator above the kernel image, and the choice of
//! the region that backs the temporary page-frame heap.

use vstd::prelude::*;

use num_align::NumAlign;

verus! {

/// `x` rounded up to a multiple of `align`.
pub open spec fn align_up_spec(x: int, align: int) -> int {
    if x % align == 0 {
        x
    } else {
        x + align - x % align
    }
}

/// num-align's `NumAlign::align_up` on `usize`: `x` itself when it is a
/// multiple of `align`, else `x + align - x % align`. That sum is formed
/// before the subtraction, so `x + align` must fit in a `usize` even where
/// the result would.
#[verifier::external_body]
pub(crate) fn align_up(x: usize, align: usize) -> (r: usize)
    requires
        align > 0,
        x + align <= usize::MAX,
    ensures
        r == align_up_spec(x as int, align as int),
{
    x.align_up(align)
}

proof fn lemma_align_up(x: int, align: int)
    requires
        x >= 0,
        align > 0,
    ensures
        x <= align_up_spec(x, align) < x + align,
        align_up_spec(x, align) % align == 0,
{
    if x % align != 0 {
        let q = x / align;
        vstd::arithmetic::div_mod::lemma_fundamental_div_mod(x, align);
        assert(align * q + align == (q + 1) * align) by (nonlinear_arith);
        vstd::arithmetic::div_mod::lemma_mod_multiples_basic(q + 1, align);
    }
}

/// Hands out memory upward from the end of the kernel image, never taking
/// any back.
pub struct SimpleAllocator {
    start: usize,
    current: usize,
}

impl SimpleAllocator {
    /// Where the allocator began.
    pub closed spec fn start_spec(&self) -> usize {
        self.start
    }

    /// The first address not handed out.
    pub closed spec fn current_spec(&self) -> usize {
        self.current
    }

    /// An allocator that has not been placed yet.
    pub fn new() -> (r: Self)
        ensures
            r.start_spec() == 0,
            r.current_spec() == 0,
    {
        SimpleAllocator { start: 0, current: 0 }
    }

    /// Places the allocator at the end of the kernel image.
    pub fn init(&mut self, kernel_end: usize)
        ensures
            final(self).start_spec() == kernel_end,
            final(self).current_spec() == kernel_end,
    {
        self.start = kernel_end;
        self.current = kernel_end;
    }

    /// The first address not handed out.
    pub fn current(&self) -> (r: usize)
        ensures
            r == self.current_spec(),
    {
        self.current
    }

    /// Hands out `size` bytes at the next multiple of `align`.
    pub fn alloc_bytes(&mut self, size: usize, align: usize) -> (r: usize)
        requires
            align > 0,
            old(self).current_spec() + align <= usize::MAX,
            align_up_spec(old(self).current_spec() as int, align as int) + size <= usize::MAX,
        ensures
            r == align_up_spec(old(self).current_spec() as int, align as int),
            r % align == 0,
            old(self).current_spec() <= r,
            final(self).current_spec() == r + size,
            final(self).start_spec() == old(self).start_spec(),
    {
        proof {
            lemma_align_up(self.current as int, align as int);
        }
        let start = align_up(self.current, align);
        self.current = start + size;
        start
    }
}

/// Two blocks handed out one after the other do not overlap: the second
/// begins at or after the end of the first.
pub proof fn lemma_bump_blocks_disjoint(cur: int, size1: int, align1: int, align2: int)
    requires
        cur >= 0,
        size1 >= 0,
        align1 > 0,
        align2 > 0,
    ensures
        align_up_spec(cur, align1) + size1 <= align_up_spec(align_up_spec(cur, align1) + size1, align2),
{
    lemma_align_up(cur, align1);
    lemma_align_up(align_up_spec(cur, align1) + size1, align2);
}

/// A region of the firmware's memory map.
#[derive(Clone, Copy, Debug, PartialEq, Eq, Structural)]
pub struct MemRegion {
    pub physical_start: usize,
    pub size_in_bytes: usize,
    /// Free for the kernel to use.
    pub usable: bool,
}

pub const MB: usize = 0x10_0000;

/// The region holds the address.
pub open spec fn region_contains(r: MemRegion, addr: int) -> bool {
    r.physical_start <= addr < r.physical_start + r.size_in_bytes
}

/// The first usable region that holds the address one MiB past the kernel.
pub open spec fn is_first_main_region(regions: Seq<MemRegion>, kernel_end: int, i: int) -> bool {
    &&& 0 <= i < regions.len()
    &&& regions[i].usable && region_contains(regions[i], kernel_end + MB)
    &&& forall|k: int|
        0 <= k < i ==> !(#[trigger] regions[k].usable && region_contains(regions[k], kernel_end + MB))
}

/// Where the temporary heap starts in region `r`: eight MiB past the kernel
/// or halfway through the memory above it, whichever is higher, rounded up
/// to a page.
pub open spec fn tmp_heap_start(r: MemRegion, kernel_end: int, page_size: int) -> int {
    let end = r.physical_start + r.size_in_bytes;
    let free = end - kernel_end;
    let a = kernel_end + 8 * MB;
    let b = kernel_end + free / 2;
    align_up_spec(if a >= b { a } else { b }, page_size)
}

/// The temporary heap: from the start above to the end of the first usable
/// region that holds the address one MiB past the kernel. None when no
/// region does, or when the heap would start past the region's end.
pub fn tmp_heap_region(regions: &[MemRegion], kernel_end: usize, page_size: usize) -> (r: Option<(usize, usize)>)
    requires
        page_size > 0,
        kernel_end + 8 * MB + page_size <= usize::MAX,
        forall|k: int|
            0 <= k < regions@.len() ==> (#[trigger] regions@[k]).physical_start
                + regions@[k].size_in_bytes + page_size <= usize::MAX,
    ensures
        match r {
            Some((start, size)) => exists|i: int|
                is_first_main_region(regions@, kernel_end as int, i) && start == tmp_heap_start(
                    regions@[i],
                    kernel_end as int,
                    page_size as int,
                ) && start + size == regions@[i].physical_start + regions@[i].size_in_bytes,
            None => forall|i: int|
                is_first_main_region(regions@, kernel_end as int, i) ==> tmp_heap_start(
                    regions@[i],
                    kernel_end as int,
                    page_size as int,
                ) > regions@[i].physical_start + regions@[i].size_in_bytes,
        },
{
    let probe = kernel_end + MB;
    let mut i: usize = 0;
    while i < regions.len()
        invariant
            i <= regions@.len(),
            probe == kernel_end + MB,
            page_size > 0,
            kernel_end + 8 * MB + page_size <= usize::MAX,
            forall|k: int|
                0 <= k < regions@.len() ==> (#[trigger] regions@[k]).physical_start
                    + regions@[k].size_in_bytes + page_size <= usize::MAX,
            forall|k: int|
                0 <= k < i ==> !(#[trigger] regions@[k].usable && region_contains(regions@[k], probe as int)),
        decreases regions@.len() - i,
    {
        let m = regions[i];
        if m.usable && m.physical_start <= probe && probe < m.physical_start + m.size_in_bytes {
            let end = m.physical_start + m.size_in_bytes;
            let free = end - kernel_end;
            let a = kernel_end + 8 * MB;
            let b = kernel_end + free / 2;
            let higher = if a >= b {
                a
            } else {
                b
            };
            proof {
                lemma_align_up(higher as int, page_size as int);
            }
            let start = align_up(higher, page_size);
            assert(is_first_main_region(regions@, kernel_end as int, i as int));
            if start > end {
                proof {
                    assert forall|j: int| is_first_main_region(regions@, kernel_end as int, j) implies tmp_heap_start(
                        regions@[j],
                        kernel_end as int,
                        page_size as int,
                    ) > regions@[j].physical_start + regions@[j].size_in_bytes by {
                        assert(j == i);
                    }
                }
                return None;
            }
            return Some((start, end - start));
        }
        i = i + 1;
    }
    None
}

} // verus!
