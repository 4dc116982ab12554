//! The page table and its mapping algorithm.

use vstd::prelude::*;
use vstd::arithmetic::power2::{pow2, lemma2_to64, lemma_pow2_pos, lemma_pow2_strictly_increases};
use vstd::bits::lemma_usize_shl_is_mul;
use vstd::std_specs::bits::{u64_trailing_zeros, axiom_u64_trailing_zeros};

use super::addr::{PagingError, PagingResult, PhysAddr, VirtAddr};
use super::arch::{FramAllocator, TableGeneric};
use super::memory::{TableMemory, TABLE_ENTRIES};
use super::pte::PageTableEntry;

verus! {

/// Number of virtual address bits consumed by one table level.
pub const PAGE_INDEX_BITS: usize = 9;

/// Mask of one table index.
pub const PAGE_INDEX_MASK: usize = 511;

/// log2 of the page size of `T`.
pub open spec fn page_shift<T: TableGeneric>() -> nat {
    u64_trailing_zeros(T::PAGE_SIZE as u64) as nat
}

/// The layouts the mapping algorithm accepts: a page size that is a power of
/// two, at least
/// one level, huge pages only above the leaf level, table indices that fit in
/// a 64-bit address, and huge page sizes that fit in a `usize`.
pub open spec fn table_wf<T: TableGeneric>() -> bool {
    &&& T::PAGE_SIZE > 0
    &&& T::PAGE_SIZE == pow2(page_shift::<T>())
    &&& 1 <= T::LEVEL
    &&& T::MAX_BLOCK_LEVEL < T::LEVEL
    &&& page_shift::<T>() + 9 * (T::LEVEL - 1) < 64
    &&& T::PAGE_SIZE * pow2((9 * T::MAX_BLOCK_LEVEL) as nat) <= usize::MAX
}

/// The table index that `vaddr` selects at `level`.
pub open spec fn index_spec<T: TableGeneric>(vaddr: usize, level: nat) -> int {
    (((vaddr as u64) >> ((page_shift::<T>() + 9 * (T::LEVEL - level)) as u64)) & 511u64) as int
}

/// The index that `va` selects in a table standing at `level` of the walk
/// from the root (at `LEVEL`) down to the last table (at 1): the root takes
/// the highest index bits, the last table the bits just above the page
/// offset, so that an entry at `level` covers `2^(9 * (level - 1))` pages.
/// It is `virt_to_index(va, LEVEL + 1 - level)`.
pub open spec fn slot_index<T: TableGeneric>(va: usize, level: nat) -> int {
    index_spec::<T>(va, (T::LEVEL + 1 - level) as nat)
}

/// The size of one huge page: the size of block level 1, the span of one
/// entry of the table just above the last one.
pub open spec fn block_size<T: TableGeneric>() -> nat {
    level_size_spec::<T>(1)
}

/// The indices `va` takes in the tables from the root down to (not
/// including) the table at `level`, the root's first.
pub open spec fn digits<T: TableGeneric>(va: usize, level: nat) -> Seq<int> {
    Seq::new((T::LEVEL - level) as nat, |j: int| slot_index::<T>(va, (T::LEVEL - j) as nat))
}

/// Whether `x` and `y` take the same index in every table of the walk, so
/// that the table cannot tell them apart (they differ at most in the page
/// offset and in the bits above the ones the tables index).
pub open spec fn same_page<T: TableGeneric>(x: usize, y: usize) -> bool {
    digits::<T>(x, 0) == digits::<T>(y, 0)
}

/// The size mapped by one entry at `level`: the page size at the leaf level
/// and at levels that hold no huge page, otherwise the page size times
/// 2^(9 * level).
pub open spec fn level_size_spec<T: TableGeneric>(level: usize) -> nat {
    if level == T::LEVEL || level > T::MAX_BLOCK_LEVEL {
        T::PAGE_SIZE as nat
    } else {
        (T::PAGE_SIZE * pow2((9 * level) as nat)) as nat
    }
}

/// Whether `level_size` can compute the size of `level` without overflow.
pub open spec fn level_size_ok<T: TableGeneric>(level: usize) -> bool {
    level == T::LEVEL || level > T::MAX_BLOCK_LEVEL || (9 * level < usize::BITS && T::PAGE_SIZE
        * pow2((9 * level) as nat) <= usize::MAX)
}

/// Whether `addr` and `size` are both multiples of the size of `level`.
pub open spec fn aligned_at<T: TableGeneric>(addr: usize, size: usize, level: usize) -> bool {
    (addr as nat) % level_size_spec::<T>(level) == 0 && (size as nat) % level_size_spec::<T>(level) == 0
}

/// Whether a huge page of `level` may map `vaddr` to `paddr` for `size`.
pub open spec fn huge_ok<T: TableGeneric>(
    vaddr: usize,
    paddr: usize,
    size: usize,
    level: usize,
    allow_huge: bool,
) -> bool {
    allow_huge && level <= T::MAX_BLOCK_LEVEL && aligned_at::<T>(vaddr, size, level) && aligned_at::<
        T,
    >(paddr, size, level)
}

/// The first level from `from` up to the highest block level at which a huge
/// page fits, or the leaf level when none does.
pub open spec fn optimal_level_from<T: TableGeneric>(
    vaddr: usize,
    paddr: usize,
    size: usize,
    allow_huge: bool,
    from: nat,
) -> usize
    decreases T::MAX_BLOCK_LEVEL + 1 - from,
{
    if from > T::MAX_BLOCK_LEVEL {
        T::LEVEL
    } else if huge_ok::<T>(vaddr, paddr, size, from as usize, allow_huge) {
        from as usize
    } else {
        optimal_level_from::<T>(vaddr, paddr, size, allow_huge, from + 1)
    }
}

/// The coarsest level at or above `level` whose size divides both `vaddr`
/// and `size`, walking towards level 1.
pub open spec fn coarsest_aligned_level<T: TableGeneric>(vaddr: usize, size: usize, level: usize) -> usize
    decreases level,
{
    if level > 1 && aligned_at::<T>(vaddr, size, (level - 1) as usize) {
        coarsest_aligned_level::<T>(vaddr, size, (level - 1) as usize)
    } else {
        level
    }
}

/// Adding less than `b` to a multiple of `b` does not change the quotient
/// by any multiple `b * c` of it.
proof fn lemma_div_within_block(x: nat, y: nat, b: nat, c: nat)
    requires
        b > 0,
        c > 0,
        x % b == 0,
        y < b,
    ensures
        (x + y) / (b * c) == x / (b * c),
{
    vstd::arithmetic::div_mod::lemma_div_denominator((x + y) as int, b as int, c as int);
    vstd::arithmetic::div_mod::lemma_div_denominator(x as int, b as int, c as int);
    vstd::arithmetic::div_mod::lemma_fundamental_div_mod(x as int, b as int);
    vstd::arithmetic::div_mod::lemma_fundamental_div_mod_converse(
        (x + y) as int,
        b as int,
        (x / b) as int,
        y as int,
    );
}

/// Adding less than `2^t` to a multiple of `2^t` leaves every bit from `t`
/// up unchanged.
proof fn lemma_shr_within_block(v: u64, k: u64, t: nat, s: nat)
    requires
        t <= s < 64,
        v as nat % pow2(t) == 0,
        k < pow2(t),
        v + k <= u64::MAX,
    ensures
        (v + k) as u64 >> (s as u64) == v >> (s as u64),
{
    vstd::bits::lemma_u64_shr_is_div((v + k) as u64, s as u64);
    vstd::bits::lemma_u64_shr_is_div(v, s as u64);
    vstd::arithmetic::power2::lemma_pow2_adds(t, (s - t) as nat);
    lemma_pow2_pos(t);
    lemma_pow2_pos((s - t) as nat);
    lemma_div_within_block(v as nat, k as nat, pow2(t), pow2((s - t) as nat));
}

proof fn lemma_page_shift_bound<T: TableGeneric>()
    ensures
        page_shift::<T>() <= 64,
{
    axiom_u64_trailing_zeros(T::PAGE_SIZE as u64);
}

/// Below the highest block level every block size is a multiple of the page
/// size that is larger than the page size.
proof fn lemma_block_size<T: TableGeneric>(level: usize)
    requires
        table_wf::<T>(),
        1 <= level <= T::MAX_BLOCK_LEVEL,
    ensures
        level_size_ok::<T>(level),
        level_size_spec::<T>(level) > T::PAGE_SIZE,
        9 * level < usize::BITS,
{
    lemma_pow2_strictly_increases(0, (9 * level) as nat);
    lemma_pow2_pos(0);
    lemma2_to64();
    if level < T::MAX_BLOCK_LEVEL {
        lemma_pow2_strictly_increases((9 * level) as nat, (9 * T::MAX_BLOCK_LEVEL) as nat);
    }
    assert(T::PAGE_SIZE * pow2((9 * level) as nat) <= T::PAGE_SIZE * pow2(
        (9 * T::MAX_BLOCK_LEVEL) as nat,
    )) by (nonlinear_arith)
        requires
            pow2((9 * level) as nat) <= pow2((9 * T::MAX_BLOCK_LEVEL) as nat),
    ;
    assert(T::PAGE_SIZE * pow2((9 * level) as nat) > T::PAGE_SIZE) by (nonlinear_arith)
        requires
            pow2((9 * level) as nat) > 1,
            T::PAGE_SIZE > 0,
    ;
    if 9 * level >= usize::BITS {
        lemma_pow2_strictly_increases(usize::BITS as nat, (9 * level) as nat);
        if 9 * level > usize::BITS {
            lemma_pow2_strictly_increases(usize::BITS as nat, (9 * level) as nat);
        }
        lemma2_to64();
        assert(pow2(usize::BITS as nat) > usize::MAX);
        assert(T::PAGE_SIZE * pow2((9 * level) as nat) >= pow2((9 * level) as nat)) by (
        nonlinear_arith)
            requires
                T::PAGE_SIZE > 0,
        ;
    }
}

/// With a single page to map below the root, no huge page ever fits.
proof fn lemma_no_huge_for_one_page<T: TableGeneric>(
    vaddr: usize,
    paddr: usize,
    allow_huge: bool,
    from: nat,
)
    requires
        table_wf::<T>(),
        1 <= from,
    ensures
        optimal_level_from::<T>(vaddr, paddr, T::PAGE_SIZE, allow_huge, from) == T::LEVEL,
    decreases T::MAX_BLOCK_LEVEL + 1 - from,
{
    if from <= T::MAX_BLOCK_LEVEL {
        lemma_block_size::<T>(from as usize);
        let ls = level_size_spec::<T>(from as usize);
        assert((T::PAGE_SIZE as nat) % ls == T::PAGE_SIZE) by (nonlinear_arith)
            requires
                T::PAGE_SIZE < ls,
        ;
        lemma_no_huge_for_one_page::<T>(vaddr, paddr, allow_huge, from + 1);
    }
}

proof fn lemma_optimal_level_range<T: TableGeneric>(
    vaddr: usize,
    paddr: usize,
    size: usize,
    allow_huge: bool,
    from: nat,
)
    requires
        table_wf::<T>(),
        1 <= from,
    ensures
        ({
            let l = optimal_level_from::<T>(vaddr, paddr, size, allow_huge, from);
            l == T::LEVEL || (from <= l <= T::MAX_BLOCK_LEVEL && huge_ok::<T>(
                vaddr,
                paddr,
                size,
                l,
                allow_huge,
            ))
        }),
    decreases T::MAX_BLOCK_LEVEL + 1 - from,
{
    if from <= T::MAX_BLOCK_LEVEL && !huge_ok::<T>(vaddr, paddr, size, from as usize, allow_huge) {
        lemma_optimal_level_range::<T>(vaddr, paddr, size, allow_huge, from + 1);
    }
}

/// A mapping request: map `size` bytes at `vaddr` to `paddr`, every entry a
/// copy of `pte` but for its address, valid and huge bits.
#[derive(Clone, Copy, Debug)]
pub struct MapConfig<P> {
    pub vaddr: VirtAddr,
    pub paddr: PhysAddr,
    pub size: usize,
    pub pte: P,
    pub allow_huge: bool,
    pub flush: bool,
}

/// The entry written for a page (or a child table) at `paddr`: the request's
/// template with its address set, valid and not huge.
pub open spec fn leaf_spec<P: PageTableEntry>(pte: P, paddr: usize) -> P {
    pte.spec_with_paddr(paddr).spec_with_valid(true).spec_with_huge(false)
}

/// The entry written for a huge page at `paddr`: the request's template with
/// its address set, valid and huge.
pub open spec fn huge_spec<P: PageTableEntry>(pte: P, paddr: usize) -> P {
    pte.spec_with_paddr(paddr).spec_with_valid(true).spec_with_huge(true)
}

/// The error a request gets before any table is touched, if any: a zero
/// size, an unaligned virtual or physical address, or a range that wraps.
pub open spec fn precheck_spec<T: TableGeneric>(c: MapConfig<T::P>) -> PagingResult<()> {
    if c.size == 0 {
        Err(PagingError::InvalidSize { details: "Size cannot be zero" })
    } else if c.vaddr@ % T::PAGE_SIZE != 0 {
        Err(PagingError::AlignmentError { details: "Virtual address not page aligned" })
    } else if c.paddr@ % T::PAGE_SIZE != 0 {
        Err(PagingError::AlignmentError { details: "Physical address not page aligned" })
    } else if c.vaddr@ + c.size > usize::MAX || c.paddr@ + c.size > usize::MAX {
        Err(PagingError::AddressOverflow { details: "Virtual or physical address overflow" })
    } else {
        Ok(())
    }
}


/// The huge page entry a successful request leaves for the page at offset
/// `off`: a huge entry for the frame where the huge page holding that page
/// begins.
pub open spec fn huge_entry_for<T: TableGeneric>(c: MapConfig<T::P>, off: usize) -> T::P {
    huge_spec(
        c.pte,
        (c.paddr@ + off - ((c.vaddr@ + off) as nat) % block_size::<T>()) as usize,
    )
}

/// What the page at offset `off` of a request translates to after it
/// succeeded: its leaf entry, or, where huge pages are allowed, the huge
/// entry of the huge page that holds it; and only huge entries when huge
/// pages are allowed and the addresses and the size are multiples of the
/// huge page size.
pub open spec fn mapped_as_requested<T: TableGeneric>(
    c: MapConfig<T::P>,
    off: usize,
    e: Option<T::P>,
) -> bool {
    &&& e == Some(leaf_spec(c.pte, (c.paddr@ + off) as usize)) || (c.allow_huge && e == Some(
        huge_entry_for::<T>(c, off),
    ))
    &&& huge_ok::<T>(c.vaddr@, c.paddr@, c.size, 1, c.allow_huge) ==> e == Some(
        huge_entry_for::<T>(c, off),
    )
}

/// Whether an entry is valid.
pub open spec fn is_valid<P: PageTableEntry>(e: Option<P>) -> bool {
    match e {
        Some(p) => p.spec_valid(),
        None => false,
    }
}

/// Whether an entry links to a next-level table: valid and not huge.
pub open spec fn is_link<P: PageTableEntry>(e: Option<P>) -> bool {
    match e {
        Some(p) => p.spec_valid() && !p.spec_huge(),
        None => false,
    }
}

/// The entry that maps `va` from the table at `pa`, standing at `level`:
/// follow valid non-huge entries down and return the first valid huge entry
/// met, or the valid entry found at level 1.
pub(crate) open spec fn translate_at<T: TableGeneric>(
    mem: TableMemory<T::P>,
    pa: usize,
    level: nat,
    va: usize,
) -> Option<T::P>
    decreases level,
{
    let e = mem.entry(pa, slot_index::<T>(va, level));
    if level <= 1 {
        if is_valid(e) {
            e
        } else {
            None
        }
    } else if is_link(e) {
        translate_at::<T>(mem, e->0.spec_paddr(), (level - 1) as nat, va)
    } else if is_valid(e) {
        e
    } else {
        None
    }
}

/// Whether every table on the walk of `va` from the table at `pa`, standing
/// at `level`, is there down to the last one: each entry on the way is a
/// link.
pub(crate) open spec fn path_present<T: TableGeneric>(
    mem: TableMemory<T::P>,
    pa: usize,
    level: nat,
    va: usize,
) -> bool
    decreases level,
{
    let e = mem.entry(pa, slot_index::<T>(va, level));
    level <= 1 || (is_link(e) && path_present::<T>(mem, e->0.spec_paddr(), (level - 1) as nat, va))
}

/// While every frame was new when handed out: the created frames are those
/// with a level, levels lie in 1..=LEVEL, and a link in slot `i` of a table
/// of level `l` leads to a table of level `l - 1` whose indices from the
/// root are those of the table followed by `i`.
pub(crate) open spec fn tree_ok<T: TableGeneric>(mem: TableMemory<T::P>) -> bool {
    mem.fresh@ ==> {
        &&& forall|q: usize| #[trigger] mem.has_frame(q) == mem.levels@.contains_key(q)
        &&& forall|q: usize|
            #[trigger] mem.levels@.contains_key(q) ==> mem.levels@[q] <= T::LEVEL
        &&& forall|q: usize, i: int|
            mem.levels@.contains_key(q) && mem.levels@[q] > 1 && 0 <= i < TABLE_ENTRIES && is_link(
                #[trigger] mem.entry(q, i),
            ) ==> mem.levels@.contains_key(mem.entry(q, i)->0.spec_paddr()) && mem.levels@[mem.entry(
                q,
                i,
            )->0.spec_paddr()] == mem.levels@[q] - 1 && mem.prefixes@[mem.entry(q, i)->0.spec_paddr()]
                == mem.prefixes@[q].push(i)
    }
}

/// `m2` keeps every frame, level and valid entry of `m1`.
pub(crate) open spec fn extends<P: PageTableEntry>(m1: TableMemory<P>, m2: TableMemory<P>) -> bool {
    &&& forall|q: usize| #[trigger] m1.has_frame(q) ==> m2.has_frame(q)
    &&& forall|q: usize, i: int|
        m1.has_frame(q) && 0 <= i < TABLE_ENTRIES && is_valid(#[trigger] m1.entry(q, i))
            ==> m2.entry(q, i) == m1.entry(q, i)
    &&& forall|q: usize| #[trigger]
        m1.levels@.contains_key(q) ==> m2.levels@.contains_key(q) && m2.levels@[q] == m1.levels@[q]
            && m2.prefixes@[q] == m1.prefixes@[q]
}

/// Where a step may change the memory, seen from `m1` to `m2`: only slots
/// that `va` takes, in tables that `va` reaches, and only slots that were
/// invalid; a link written there leads to a new table; any other entry is
/// written at level `low`.
pub(crate) open spec fn changes_on_path<T: TableGeneric>(
    m1: TableMemory<T::P>,
    m2: TableMemory<T::P>,
    va: usize,
    low: nat,
) -> bool {
    forall|q: usize, i: int|
        m2.levels@.contains_key(q) && 0 <= i < TABLE_ENTRIES && #[trigger] m2.entry(q, i) != m1.entry(
            q,
            i,
        ) ==> {
            &&& m2.prefixes@[q] == digits::<T>(va, m2.levels@[q])
            &&& i == slot_index::<T>(va, m2.levels@[q])
            &&& !is_valid(m1.entry(q, i))
            &&& (m2.levels@[q] > 1 && is_link(m2.entry(q, i))) ==> !m1.levels@.contains_key(
                m2.entry(q, i)->0.spec_paddr(),
            )
            &&& (m2.levels@[q] <= 1 || !is_link(m2.entry(q, i))) ==> m2.levels@[q] == low
        }
}

/// The indices down to `level - 1` are those down to `level` followed by the
/// index at `level`.
proof fn lemma_digits_push<T: TableGeneric>(va: usize, level: nat)
    requires
        1 <= level <= T::LEVEL,
    ensures
        digits::<T>(va, (level - 1) as nat) == digits::<T>(va, level).push(slot_index::<T>(va, level)),
{
    assert(digits::<T>(va, (level - 1) as nat) =~= digits::<T>(va, level).push(
        slot_index::<T>(va, level),
    ));
}

/// What `x` maps to, walking down from a table it reaches, differs between
/// `m1` and `m2` only if `x` takes the same indices as `va` down to level
/// `low`.
proof fn lemma_changed_on_path<T: TableGeneric>(
    m1: TableMemory<T::P>,
    m2: TableMemory<T::P>,
    p: usize,
    lvl: nat,
    x: usize,
    va: usize,
    low: nat,
)
    requires
        m1.fresh@,
        m2.fresh@,
        tree_ok::<T>(m1),
        tree_ok::<T>(m2),
        extends(m1, m2),
        changes_on_path::<T>(m1, m2, va, low),
        1 <= lvl <= T::LEVEL,
        1 <= low,
        m2.levels@.contains_key(p),
        m2.levels@[p] == lvl,
        m2.prefixes@[p] == digits::<T>(x, lvl),
        translate_at::<T>(m2, p, lvl, x) != translate_at::<T>(m1, p, lvl, x),
    ensures
        low <= lvl,
        digits::<T>(x, (low - 1) as nat) == digits::<T>(va, (low - 1) as nat),
    decreases lvl,
{
    lemma_slot_bound::<T>(x, lvl);
    let s = slot_index::<T>(x, lvl);
    let e1 = m1.entry(p, s);
    let e2 = m2.entry(p, s);
    lemma_digits_push::<T>(x, lvl);
    if e1 == e2 {
        if lvl > 1 && is_link(e1) {
            let c = e1->0.spec_paddr();
            assert(m2.levels@.contains_key(c) && m2.levels@[c] == lvl - 1);
            lemma_changed_on_path::<T>(m1, m2, c, (lvl - 1) as nat, x, va, low);
        }
    } else {
        assert(m2.entry(p, s) != m1.entry(p, s));
        lemma_digits_push::<T>(va, lvl);
        assert(translate_at::<T>(m1, p, lvl, x) is None);
        if lvl > 1 && is_link(e2) {
            let c = e2->0.spec_paddr();
            assert(!m1.levels@.contains_key(c));
            assert(!m1.has_frame(c));
            assert(m2.levels@.contains_key(c) && m2.levels@[c] == lvl - 1);
            lemma_slot_bound::<T>(x, (lvl - 1) as nat);
            assert(m1.entry(c, slot_index::<T>(x, (lvl - 1) as nat)) == None::<T::P>);
            assert(translate_at::<T>(m1, c, (lvl - 1) as nat, x) is None);
            lemma_changed_on_path::<T>(m1, m2, c, (lvl - 1) as nat, x, va, low);
            assert(digits::<T>(x, (lvl - 1) as nat) == digits::<T>(va, (lvl - 1) as nat));
            if low == lvl {
                assert(digits::<T>(x, (low - 1) as nat) == digits::<T>(va, (low - 1) as nat));
            }
        } else {
            assert(lvl == low);
        }
    }
}

/// Two steps that each change the memory only on `va`'s path change it
/// only there together.
proof fn lemma_changes_compose<T: TableGeneric>(
    m0: TableMemory<T::P>,
    m1: TableMemory<T::P>,
    m2: TableMemory<T::P>,
    va: usize,
    low: nat,
)
    requires
        extends(m0, m1),
        extends(m1, m2),
        tree_ok::<T>(m0),
        m0.fresh@,
        changes_on_path::<T>(m0, m1, va, low),
        changes_on_path::<T>(m1, m2, va, low),
        forall|q: usize| #[trigger] m2.levels@.contains_key(q) && !m1.levels@.contains_key(q)
            ==> forall|i: int| 0 <= i < TABLE_ENTRIES ==> #[trigger] m1.entry(q, i) == None::<T::P>,
        forall|q: usize| m1.levels@.contains_key(q) ==> #[trigger] m2.levels@.contains_key(q),
    ensures
        changes_on_path::<T>(m0, m2, va, low),
{
    assert forall|q: usize, i: int|
        m2.levels@.contains_key(q) && 0 <= i < TABLE_ENTRIES && #[trigger] m2.entry(q, i) != m0.entry(
            q,
            i,
        ) implies {
            &&& m2.prefixes@[q] == digits::<T>(va, m2.levels@[q])
            &&& i == slot_index::<T>(va, m2.levels@[q])
            &&& !is_valid(m0.entry(q, i))
            &&& (m2.levels@[q] > 1 && is_link(m2.entry(q, i))) ==> !m0.levels@.contains_key(
                m2.entry(q, i)->0.spec_paddr(),
            )
            &&& (m2.levels@[q] <= 1 || !is_link(m2.entry(q, i))) ==> m2.levels@[q] == low
        } by {
        if m2.entry(q, i) != m1.entry(q, i) {
            if m1.entry(q, i) != m0.entry(q, i) {
                if !m1.levels@.contains_key(q) {
                    assert(m1.entry(q, i) == None::<T::P>);
                    assert(!m0.has_frame(q) || m0.levels@.contains_key(q));
                }
                assert(m1.levels@.contains_key(q)) by {
                    if !m1.levels@.contains_key(q) {
                        assert(m1.entry(q, i) == None::<T::P>);
                        if m0.has_frame(q) {
                            assert(m0.levels@.contains_key(q));
                        }
                    }
                }
            }
            if m2.levels@[q] > 1 && is_link(m2.entry(q, i)) {
                let c = m2.entry(q, i)->0.spec_paddr();
                assert(!m1.levels@.contains_key(c));
                if m0.levels@.contains_key(c) {
                    assert(m1.levels@.contains_key(c));
                }
            }
        } else {
            assert(m1.entry(q, i) != m0.entry(q, i));
            assert(m1.levels@.contains_key(q)) by {
                if !m1.levels@.contains_key(q) {
                    assert(m1.entry(q, i) == None::<T::P>);
                    if m0.has_frame(q) {
                        assert(m0.levels@.contains_key(q));
                    }
                }
            }
        }
    }
}

/// The page `d` pages into a huge page takes the huge page's indices in
/// every table above the last one, and index `d` in the last one.
proof fn lemma_page_in_block<T: TableGeneric>(chunk: usize, d: int)
    requires
        table_wf::<T>(),
        1 <= T::MAX_BLOCK_LEVEL,
        chunk as nat % block_size::<T>() == 0,
        0 <= d < 512,
        chunk + block_size::<T>() <= usize::MAX,
    ensures
        ({
            let y = (chunk + d * T::PAGE_SIZE) as usize;
            &&& digits::<T>(y, 1) == digits::<T>(chunk, 1)
            &&& slot_index::<T>(y, 1) == d
        }),
{
    lemma_block_facts::<T>(0, 1);
    lemma_page_shift_bound::<T>();
    let k = d * T::PAGE_SIZE;
    assert(0 <= k < block_size::<T>()) by (nonlinear_arith)
        requires
            k == d * T::PAGE_SIZE,
            0 <= d < 512,
            T::PAGE_SIZE > 0,
            block_size::<T>() == T::PAGE_SIZE * 512,
    ;
    let y = (chunk + k) as usize;
    assert forall|j: int| 0 <= j < digits::<T>(y, 1).len() implies digits::<T>(y, 1)[j] == digits::<T>(
        chunk,
        1,
    )[j] by {
        lemma_block_slots::<T>(chunk, k as usize, (T::LEVEL - j) as nat);
    }
    assert(digits::<T>(y, 1) =~= digits::<T>(chunk, 1));
    // The index in the last table: (y >> page_shift) & 511.
    let ps = page_shift::<T>();
    let pp: int = pow2(ps) as int;
    vstd::bits::lemma_u64_shr_is_div(y as u64, ps as u64);
    vstd::arithmetic::power2::lemma_pow2_adds(ps, 9);
    lemma2_to64();
    lemma_pow2_pos(ps);
    let m = chunk as int / (pp * 512);
    vstd::arithmetic::div_mod::lemma_fundamental_div_mod(chunk as int, (pp * 512) as int);
    assert(chunk as int == m * (pp * 512)) by (nonlinear_arith)
        requires
            chunk as int == (pp * 512) * m + chunk as int % (pp * 512),
            chunk as int % (pp * 512) == 0,
    ;
    assert(y as int == (m * 512 + d) * pp) by (nonlinear_arith)
        requires
            y as int == chunk + d * pp,
            chunk as int == m * (pp * 512),
    ;
    assert(m >= 0) by (nonlinear_arith)
        requires
            chunk as int == m * (pp * 512),
            pp > 0,
            chunk >= 0,
    ;
    vstd::arithmetic::div_mod::lemma_div_multiples_vanish((m * 512 + d) as int, pp as int);
    let z = (y as u64) >> (ps as u64);
    assert(z as int == m * 512 + d) by {
        assert((y as int) / (pp as int) == m * 512 + d) by (nonlinear_arith)
            requires
                y as int == (m * 512 + d) * pp,
                pp > 0,
                ((m * 512 + d) * pp) / pp == m * 512 + d,
        ;
    }
    assert(z & 511u64 == z % 512) by (bit_vector);
    vstd::arithmetic::div_mod::lemma_fundamental_div_mod_converse(z as int, 512, m, d);
    assert(ps + 9 * (T::LEVEL - T::LEVEL) == ps);
}

/// One step keeps the translation of every address that falls on no page
/// mapped so far nor on the page (or huge page) of the step.
proof fn lemma_step_keeps_others<T: TableGeneric>(
    m0: TableMemory<T::P>,
    m1: TableMemory<T::P>,
    m2: TableMemory<T::P>,
    root: usize,
    vaddr0: usize,
    mt: usize,
    va: usize,
    blk: bool,
)
    requires
        table_wf::<T>(),
        m1.fresh@,
        m2.fresh@,
        tree_ok::<T>(m1),
        tree_ok::<T>(m2),
        extends(m1, m2),
        changes_on_path::<T>(m1, m2, va, if blk { 2 } else { 1 }),
        m2.levels@.contains_key(root),
        m2.levels@[root] == T::LEVEL,
        m2.prefixes@[root] == Seq::<int>::empty(),
        va == vaddr0 + mt,
        blk ==> 1 <= T::MAX_BLOCK_LEVEL && va as nat % block_size::<T>() == 0 && va
            + block_size::<T>() <= usize::MAX,
        mt % T::PAGE_SIZE == 0,
        forall|x: usize|
            (forall|off: usize|
                off < mt && off % T::PAGE_SIZE == 0 ==> !#[trigger] same_page::<T>(
                    x,
                    (vaddr0 + off) as usize,
                )) ==> #[trigger] translate_at::<T>(m1, root, T::LEVEL as nat, x) == translate_at::<T>(
                m0,
                root,
                T::LEVEL as nat,
                x,
            ),
    ensures
        forall|x: usize|
            (forall|off: usize|
                off < mt + (if blk { block_size::<T>() } else { T::PAGE_SIZE as nat }) && off
                    % T::PAGE_SIZE == 0 ==> !#[trigger] same_page::<T>(x, (vaddr0 + off) as usize))
                ==> #[trigger] translate_at::<T>(m2, root, T::LEVEL as nat, x) == translate_at::<T>(
                m0,
                root,
                T::LEVEL as nat,
                x,
            ),
{
    let chunk: nat = if blk { block_size::<T>() } else { T::PAGE_SIZE as nat };
    assert forall|x: usize|
        (forall|off: usize|
            off < mt + chunk && off % T::PAGE_SIZE == 0 ==> !#[trigger] same_page::<T>(
                x,
                (vaddr0 + off) as usize,
            )) implies #[trigger] translate_at::<T>(m2, root, T::LEVEL as nat, x) == translate_at::<T>(
        m0,
        root,
        T::LEVEL as nat,
        x,
    ) by {
        assert(translate_at::<T>(m1, root, T::LEVEL as nat, x) == translate_at::<T>(
            m0,
            root,
            T::LEVEL as nat,
            x,
        ));
        if translate_at::<T>(m2, root, T::LEVEL as nat, x) != translate_at::<T>(
            m1,
            root,
            T::LEVEL as nat,
            x,
        ) {
            assert(digits::<T>(x, T::LEVEL as nat) =~= Seq::<int>::empty());
            let low: nat = if blk { 2 } else { 1 };
            lemma_changed_on_path::<T>(m1, m2, root, T::LEVEL as nat, x, va, low);
            if blk {
                lemma_block_facts::<T>(0, 1);
                lemma_slot_bound::<T>(x, 1);
                let d = slot_index::<T>(x, 1);
                lemma_page_in_block::<T>(va, d);
                let off = (mt + d * T::PAGE_SIZE) as usize;
                let y = (va + d * T::PAGE_SIZE) as usize;
                assert(d * T::PAGE_SIZE < block_size::<T>()) by (nonlinear_arith)
                    requires
                        0 <= d < 512,
                        T::PAGE_SIZE > 0,
                        block_size::<T>() == T::PAGE_SIZE * 512,
                ;
                assert(d * T::PAGE_SIZE >= 0) by (nonlinear_arith)
                    requires
                        0 <= d,
                        T::PAGE_SIZE > 0,
                ;
                vstd::arithmetic::div_mod::lemma_mod_multiples_vanish(d, mt as int, T::PAGE_SIZE as int);
                vstd::arithmetic::mul::lemma_mul_is_commutative(d, T::PAGE_SIZE as int);
                assert(off % T::PAGE_SIZE == 0);
                assert((vaddr0 + off) as usize == y);
                lemma_digits_push::<T>(x, 1);
                lemma_digits_push::<T>(y, 1);
                assert(same_page::<T>(x, (vaddr0 + off) as usize));
            } else {
                assert((vaddr0 + mt) as usize == va);
                assert(same_page::<T>(x, (vaddr0 + mt) as usize));
            }
        }
    }
}

/// What one mapping step from the table at `tab`, standing at `level`,
/// guarantees. The step maps one page, or one huge page when `blk`: the
/// memory stays well formed; while frames are new, nothing valid is lost;
/// success maps the page (each page of the huge page) from `tab` and they
/// were unmapped before; an existing translation of `va` stops the step
/// with a conflict or a huge page in the way, and nothing is written; and
/// the only errors are running out of frames, a huge page in the way, or a
/// conflict at `va`.
pub(crate) open spec fn step_post<T: TableGeneric>(
    m1: TableMemory<T::P>,
    m2: TableMemory<T::P>,
    tab: usize,
    level: nat,
    va: VirtAddr,
    pa: PhysAddr,
    pte: T::P,
    blk: bool,
    r: PagingResult<usize>,
) -> bool {
    &&& m2.wf()
    &&& tree_ok::<T>(m2)
    &&& m2.fresh@ ==> m1.fresh@ && extends(m1, m2)
    &&& m2.fresh@ ==> changes_on_path::<T>(m1, m2, va@, if blk { 2 } else { 1 })
    &&& (!blk && path_present::<T>(m1, tab, level, va@)) ==> m2.fresh == m1.fresh && (translate_at::<
        T,
    >(m1, tab, level, va@) is None ==> r is Ok)
    &&& r is Ok ==> r == Ok::<usize, PagingError>(
        if blk {
            block_size::<T>() as usize
        } else {
            T::PAGE_SIZE
        },
    )
    &&& (r is Ok && m2.fresh@ && !blk) ==> translate_at::<T>(m2, tab, level, va@) == Some(
        leaf_spec(pte, pa@),
    )
    &&& (r is Ok && m2.fresh@ && blk) ==> forall|k: usize|
        k < block_size::<T>() ==> #[trigger] translate_at::<T>(m2, tab, level, (va@ + k) as usize)
            == Some(huge_spec(pte, pa@))
    &&& (r is Ok && m2.fresh@ && blk) ==> forall|k: usize|
        k < block_size::<T>() ==> #[trigger] translate_at::<T>(m1, tab, level, (va@ + k) as usize)
            is None
    &&& path_present::<T>(m1, tab, level, va@) ==> !(r matches Err(PagingError::HierarchyError { .. }))
    &&& m2.fresh@ ==> (r matches Err(PagingError::MappingConflict { existing_paddr, .. }) ==> {
        &&& m2 == m1
        &&& is_valid(m1.entry(tab, slot_index::<T>(va@, level)))
        &&& !blk ==> (translate_at::<T>(m1, tab, level, va@) matches Some(e) && e.spec_paddr()
            == existing_paddr@)
    })
    &&& translate_at::<T>(m1, tab, level, va@) is Some ==> {
        &&& m2 == m1
        &&& (r matches Err(PagingError::MappingConflict { vaddr, .. }) && vaddr == va) || (
        r matches Err(PagingError::HierarchyError { .. }))
    }
    &&& match r {
        Ok(_) => true,
        Err(PagingError::NoMemory) => true,
        Err(PagingError::HierarchyError { .. }) => true,
        Err(PagingError::MappingConflict { vaddr, .. }) => vaddr == va,
        Err(_) => false,
    }
}

proof fn lemma_index_bound<T: TableGeneric>(va: usize, level: nat)
    ensures
        0 <= index_spec::<T>(va, level) < TABLE_ENTRIES,
{
    let v = va as u64;
    let s = ((page_shift::<T>() + 9 * (T::LEVEL - level)) as u64);
    assert((v >> s) & 511u64 <= 511u64) by (bit_vector);
}

proof fn lemma_slot_bound<T: TableGeneric>(va: usize, level: nat)
    ensures
        0 <= slot_index::<T>(va, level) < TABLE_ENTRIES,
{
    lemma_index_bound::<T>(va, (T::LEVEL + 1 - level) as nat);
}

/// Within one huge page every address takes the same slot as its start in
/// every table from the one holding huge pages (level 2) up to the root.
proof fn lemma_block_slots<T: TableGeneric>(va: usize, k: usize, level: nat)
    requires
        table_wf::<T>(),
        1 <= T::MAX_BLOCK_LEVEL,
        2 <= level <= T::LEVEL,
        va as nat % block_size::<T>() == 0,
        k < block_size::<T>(),
        va + k <= usize::MAX,
    ensures
        slot_index::<T>((va + k) as usize, level) == slot_index::<T>(va, level),
{
    lemma_page_shift_bound::<T>();
    vstd::arithmetic::power2::lemma_pow2_adds(page_shift::<T>(), 9);
    let t = page_shift::<T>() + 9;
    let sh = page_shift::<T>() + 9 * (level - 1);
    assert(block_size::<T>() == pow2(t));
    assert(sh == page_shift::<T>() + 9 * (T::LEVEL - (T::LEVEL + 1 - level) as nat));
    lemma_shr_within_block(va as u64, k as u64, t, sh as nat);
    assert(((va + k) as usize) as u64 == (va as u64 + k as u64) as u64);
}

/// A translation that exists in a memory survives in every extension of it.
proof fn lemma_translate_preserved<T: TableGeneric>(
    m1: TableMemory<T::P>,
    m2: TableMemory<T::P>,
    q: usize,
    level: nat,
    va: usize,
)
    requires
        m1.fresh@,
        tree_ok::<T>(m1),
        m1.levels@.contains_key(q),
        m1.levels@[q] == level,
        translate_at::<T>(m1, q, level, va) is Some,
        extends(m1, m2),
    ensures
        translate_at::<T>(m2, q, level, va) == translate_at::<T>(m1, q, level, va),
    decreases level,
{
    lemma_slot_bound::<T>(va, level);
    let i = slot_index::<T>(va, level);
    assert(m1.has_frame(q));
    let e = m1.entry(q, i);
    assert(is_valid(e));
    assert(m2.entry(q, i) == e);
    if level > 1 && is_link(e) {
        let child = e->0.spec_paddr();
        assert(m1.levels@.contains_key(child) && m1.levels@[child] == level - 1);
        lemma_translate_preserved::<T>(m1, m2, child, (level - 1) as nat, va);
    }
}


/// The tables on a walk stay in every extension of the memory.
proof fn lemma_path_preserved<T: TableGeneric>(
    m1: TableMemory<T::P>,
    m2: TableMemory<T::P>,
    q: usize,
    level: nat,
    va: usize,
)
    requires
        m1.fresh@,
        tree_ok::<T>(m1),
        m1.levels@.contains_key(q),
        m1.levels@[q] == level,
        path_present::<T>(m1, q, level, va),
        extends(m1, m2),
    ensures
        path_present::<T>(m2, q, level, va),
    decreases level,
{
    if level > 1 {
        lemma_slot_bound::<T>(va, level);
        let i = slot_index::<T>(va, level);
        assert(m1.has_frame(q));
        assert(m2.entry(q, i) == m1.entry(q, i));
        let child = m1.entry(q, i)->0.spec_paddr();
        lemma_path_preserved::<T>(m1, m2, child, (level - 1) as nat, va);
    }
}

/// Writing an entry that is not a link into an invalid slot, or a link to a
/// table one level down, keeps the tree shape and extends the memory.
proof fn lemma_write_keeps_tree<T: TableGeneric>(
    m0: TableMemory<T::P>,
    m1: TableMemory<T::P>,
    pa: usize,
    idx: int,
    e: T::P,
)
    requires
        tree_ok::<T>(m0),
        0 <= idx < TABLE_ENTRIES,
        !is_valid(m0.entry(pa, idx)),
        m1.wf(),
        m1.has_frame(pa),
        m1.levels == m0.levels,
        m1.prefixes == m0.prefixes,
        m1.fresh == m0.fresh,
        m1.entry(pa, idx) == Some(e),
        forall|q: usize| q != pa ==> m1.has_frame(q) == m0.has_frame(q),
        forall|q: usize, i: int|
            0 <= i < TABLE_ENTRIES && (q != pa || i != idx) && (q != pa || m0.has_frame(pa))
                ==> m1.entry(q, i) == m0.entry(q, i),
        is_link(Some(e)) && m0.fresh@ && m0.levels@.contains_key(pa) && m0.levels@[pa] > 1
            ==> m0.levels@.contains_key(e.spec_paddr()) && m0.levels@[e.spec_paddr()] == m0.levels@[pa]
            - 1 && m0.prefixes@[e.spec_paddr()] == m0.prefixes@[pa].push(idx),
        m0.fresh@ ==> m0.has_frame(pa),
    ensures
        tree_ok::<T>(m1),
        m1.fresh@ ==> extends(m0, m1),
{
    if m0.fresh@ {
        assert forall|q: usize| #[trigger] m1.has_frame(q) == m1.levels@.contains_key(q) by {
            if q != pa {
                assert(m0.has_frame(q) == m0.levels@.contains_key(q));
            } else {
                assert(m0.has_frame(pa) == m0.levels@.contains_key(pa));
            }
        }
        assert forall|q: usize, i: int|
            m1.levels@.contains_key(q) && m1.levels@[q] > 1 && 0 <= i < TABLE_ENTRIES && is_link(
                #[trigger] m1.entry(q, i),
            ) implies m1.levels@.contains_key(m1.entry(q, i)->0.spec_paddr())
            && m1.levels@[m1.entry(q, i)->0.spec_paddr()] == m1.levels@[q] - 1 by {
            if q != pa || i != idx {
                assert(m1.entry(q, i) == m0.entry(q, i));
            }
        }
        assert forall|q: usize, i: int|
            m0.has_frame(q) && 0 <= i < TABLE_ENTRIES && is_valid(
                #[trigger] m0.entry(q, i),
            ) implies m1.entry(q, i) == m0.entry(q, i) by {
            if q == pa && i == idx {
                assert(false);
            }
        }
    }
}


proof fn lemma_extends_trans<P: PageTableEntry>(m0: TableMemory<P>, m1: TableMemory<P>, m2: TableMemory<P>)
    requires
        extends(m0, m1),
        extends(m1, m2),
    ensures
        extends(m0, m2),
{
    assert forall|q: usize, i: int|
        m0.has_frame(q) && 0 <= i < TABLE_ENTRIES && is_valid(#[trigger] m0.entry(q, i)) implies m2.entry(q, i)
        == m0.entry(q, i) by {
        assert(m1.entry(q, i) == m0.entry(q, i));
        assert(m1.has_frame(q));
    }
    assert forall|q: usize| #[trigger] m0.has_frame(q) implies m2.has_frame(q) by {
        assert(m1.has_frame(q));
    }
    assert forall|q: usize| #[trigger] m0.levels@.contains_key(q) implies m2.levels@.contains_key(q)
        && m2.levels@[q] == m0.levels@[q] && m2.prefixes@[q] == m0.prefixes@[q] by {
        assert(m1.levels@.contains_key(q));
    }
}

proof fn lemma_extends_same_frames<P: PageTableEntry>(m0: TableMemory<P>, m1: TableMemory<P>)
    requires
        m1.paddrs == m0.paddrs,
        m1.slots == m0.slots,
        m1.levels == m0.levels,
        m1.prefixes == m0.prefixes,
    ensures
        extends(m0, m1),
        forall|q: usize, i: int| m1.entry(q, i) == m0.entry(q, i),
        forall|q: usize| m1.has_frame(q) == m0.has_frame(q),
{
}

/// Composes the step through the entry at `tab` with the step from the next
/// level table `child`.
proof fn lemma_next_level<T: TableGeneric>(
    m0: TableMemory<T::P>,
    m3: TableMemory<T::P>,
    m4: TableMemory<T::P>,
    tab: usize,
    child: usize,
    level: nat,
    va: VirtAddr,
    pa: PhysAddr,
    pte: T::P,
    blk: bool,
    r: PagingResult<usize>,
    existing: bool,
)
    requires
        level >= 2,
        blk ==> {
            &&& table_wf::<T>()
            &&& 1 <= T::MAX_BLOCK_LEVEL
            &&& 3 <= level <= T::LEVEL
            &&& va@ as nat % block_size::<T>() == 0
            &&& va@ + block_size::<T>() <= usize::MAX
        },
        m0.wf(),
        tree_ok::<T>(m0),
        m0.fresh@ ==> m0.has_frame(tab),
        existing ==> {
            &&& is_link(m0.entry(tab, slot_index::<T>(va@, level)))
            &&& m0.entry(tab, slot_index::<T>(va@, level))->0.spec_paddr() == child
            &&& m3 == m0
        },
        !existing ==> !is_valid(m0.entry(tab, slot_index::<T>(va@, level))),
        !existing && m3.fresh@ ==> {
            &&& m0.fresh@
            &&& extends(m0, m3)
            &&& m3.has_frame(tab)
            &&& is_link(m3.entry(tab, slot_index::<T>(va@, level)))
            &&& m3.entry(tab, slot_index::<T>(va@, level))->0.spec_paddr() == child
            &&& forall|j: int| 0 <= j < TABLE_ENTRIES ==> m3.entry(child, j) == None::<T::P>
            &&& changes_on_path::<T>(m0, m3, va@, if blk { 2 } else { 1 })
        },
        tree_ok::<T>(m3),
        step_post::<T>(m3, m4, child, (level - 1) as nat, va, pa, pte, blk, r),
    ensures
        step_post::<T>(m0, m4, tab, level, va, pa, pte, blk, r),
{
    lemma_slot_bound::<T>(va@, level);
    lemma_slot_bound::<T>(va@, (level - 1) as nat);
    let i = slot_index::<T>(va@, level);
    if existing {
        assert(translate_at::<T>(m0, tab, level, va@) == translate_at::<T>(
            m0,
            child,
            (level - 1) as nat,
            va@,
        ));
    } else {
        assert(translate_at::<T>(m0, tab, level, va@) is None);
        if m3.fresh@ {
            let j = slot_index::<T>(va@, (level - 1) as nat);
            assert(m3.entry(child, j) == None::<T::P>);
            assert(translate_at::<T>(m3, child, (level - 1) as nat, va@) is None);
        }
    }
    if m4.fresh@ {
        lemma_extends_trans(m0, m3, m4);
        if !existing {
            assert forall|q: usize| #[trigger] m4.levels@.contains_key(q) && !m3.levels@.contains_key(q)
                implies forall|j: int| 0 <= j < TABLE_ENTRIES ==> #[trigger] m3.entry(q, j) == None::<T::P> by {
                assert(!m3.has_frame(q));
            }
            lemma_changes_compose::<T>(m0, m3, m4, va@, if blk { 2 } else { 1 });
        }
        if r is Ok {
            let e = m3.entry(tab, i);
            assert(m3.has_frame(tab));
            assert(m4.entry(tab, i) == e);
            assert(translate_at::<T>(m4, tab, level, va@) == translate_at::<T>(
                m4,
                child,
                (level - 1) as nat,
                va@,
            ));
            if blk {
                assert forall|k: usize| k < block_size::<T>() implies #[trigger] translate_at::<T>(
                    m0,
                    tab,
                    level,
                    (va@ + k) as usize,
                ) is None by {
                    lemma_block_slots::<T>(va@, k, level);
                    assert(translate_at::<T>(m3, child, (level - 1) as nat, (va@ + k) as usize)
                        is None);
                    if !existing {
                        assert(!is_valid(m0.entry(tab, i)));
                    }
                }
                assert forall|k: usize| k < block_size::<T>() implies #[trigger] translate_at::<T>(
                    m4,
                    tab,
                    level,
                    (va@ + k) as usize,
                ) == Some(huge_spec(pte, pa@)) && translate_at::<T>(
                    m0,
                    tab,
                    level,
                    (va@ + k) as usize,
                ) is None by {
                    lemma_block_slots::<T>(va@, k, level);
                    assert(translate_at::<T>(m4, child, (level - 1) as nat, (va@ + k) as usize)
                        == Some(huge_spec(pte, pa@)));
                    assert(translate_at::<T>(m3, child, (level - 1) as nat, (va@ + k) as usize)
                        is None);
                    if !existing {
                        assert(!is_valid(m0.entry(tab, i)));
                    }
                }
            }
        }
    }
}


/// The offset of `x + k` within a block of `b` that starts at `x`.
proof fn lemma_mod_in_block(x: int, k: int, b: int)
    requires
        b > 0,
        x >= 0,
        x % b == 0,
        0 <= k < b,
    ensures
        (x + k) % b == k,
{
    vstd::arithmetic::div_mod::lemma_fundamental_div_mod(x, b);
    vstd::arithmetic::mul::lemma_mul_is_commutative(b, x / b);
    vstd::arithmetic::div_mod::lemma_fundamental_div_mod_converse(x + k, b, x / b, k);
}

/// The huge page size is 512 pages, and a multiple of the size of any block
/// level is a multiple of it.
proof fn lemma_block_facts<T: TableGeneric>(x: usize, l: usize)
    requires
        table_wf::<T>(),
        1 <= l <= T::MAX_BLOCK_LEVEL,
    ensures
        block_size::<T>() == T::PAGE_SIZE * 512,
        block_size::<T>() > T::PAGE_SIZE,
        block_size::<T>() <= usize::MAX,
        (x as nat) % level_size_spec::<T>(l) == 0 ==> (x as nat) % block_size::<T>() == 0,
{
    lemma_block_size::<T>(1);
    lemma_block_size::<T>(l);
    lemma2_to64();
    assert(pow2(9) == 512);
    vstd::arithmetic::power2::lemma_pow2_adds(9, (9 * (l - 1)) as nat);
    lemma_pow2_pos((9 * (l - 1)) as nat);
    let a = T::PAGE_SIZE * 512;
    let c = pow2((9 * (l - 1)) as nat);
    assert(level_size_spec::<T>(l) == a * c) by {
        assert((9 * l) as nat == 9 + (9 * (l - 1)) as nat);
        vstd::arithmetic::mul::lemma_mul_is_associative(T::PAGE_SIZE as int, 512, c as int);
    }
    vstd::arithmetic::div_mod::lemma_mod_mod(x as int, a as int, c as int);
    if (x as nat) % level_size_spec::<T>(l) == 0 {
        assert((x as int) % (a * c) == 0);
        assert(0int % (a as int) == 0);
        assert((x as int) % (a as int) == 0);
    }
}

proof fn lemma_size_multiple(size: usize, page: usize, done: usize, total: usize)
    requires
        size > 0,
        page > 0,
        done + size == total,
        done % page == 0,
        total % page == 0,
    ensures
        size >= page,
{
    assert(size % page == 0) by {
        vstd::arithmetic::div_mod::lemma_mod_sub_multiples_vanish(total as int, page as int);
        assert((size as int) % (page as int) == 0) by (nonlinear_arith)
            requires
                (done as int) % (page as int) == 0,
                (total as int) % (page as int) == 0,
                size == total - done,
                page > 0,
        {
            vstd::arithmetic::div_mod::lemma_sub_mod_noop(total as int, done as int, page as int);
        }
    }
    assert(size >= page) by (nonlinear_arith)
        requires
            size > 0,
            page > 0,
            size % page == 0,
    ;
}

/// Between two consecutive multiples of `page` there is no other one.
proof fn lemma_mod_between(off: usize, base: usize, page: usize)
    requires
        page > 0,
        base % page == 0,
        off % page == 0,
        base <= off < base + page,
    ensures
        off == base,
{
    assert(off == base) by (nonlinear_arith)
        requires
            page > 0,
            base % page == 0,
            off % page == 0,
            base <= off < base + page,
    ;
}

/// A page table of layout `T` whose frames come from `A`.
pub struct PageTable<T: TableGeneric, A: FramAllocator> {
    root: PhysAddr,
    allocator: A,
    memory: TableMemory<T::P>,
}

struct Frame<A> {
    paddr: PhysAddr,
    allocator: A,
}


impl<A: FramAllocator> Frame<A> {
    /// Takes a frame from the allocator and fills it with zero entries; the
    /// ghost `level` is the level the frame will have in the tree.
    fn new<T: TableGeneric>(
        mem: &mut TableMemory<T::P>,
        allocator: A,
        level: Ghost<nat>,
        prefix: Ghost<Seq<int>>,
    ) -> (r: PagingResult<Self>)
        requires
            old(mem).wf(),
            tree_ok::<T>(*old(mem)),
            level@ <= T::LEVEL,
        ensures
            final(mem).wf(),
            tree_ok::<T>(*final(mem)),
            match r {
                Ok(f) => {
                    &&& f.allocator == allocator
                    &&& final(mem).has_frame(f.paddr@)
                    &&& final(mem).fresh@ == (old(mem).fresh@ && !old(mem).has_frame(f.paddr@))
                    &&& forall|i: int|
                        0 <= i < TABLE_ENTRIES ==> final(mem).entry(f.paddr@, i) == None::<T::P>
                    &&& forall|q: usize, i: int|
                        q != f.paddr@ && 0 <= i < TABLE_ENTRIES ==> final(mem).entry(q, i) == old(
                            mem,
                        ).entry(q, i)
                    &&& final(mem).fresh@ ==> {
                        &&& old(mem).fresh@
                        &&& extends(*old(mem), *final(mem))
                        &&& !old(mem).has_frame(f.paddr@)
                        &&& final(mem).levels@ == old(mem).levels@.insert(f.paddr@, level@)
                        &&& final(mem).prefixes@ == old(mem).prefixes@.insert(f.paddr@, prefix@)
                    }
                },
                Err(e) => e == PagingError::NoMemory && *final(mem) == *old(mem),
            },
    {
        match allocator.alloc_frame() {
            Some(p) => Ok(Self::from_frame::<T>(mem, p, allocator, level, prefix)),
            None => Err(PagingError::NoMemory),
        }
    }

    /// Fills the frame at `paddr`, handed out by the allocator, with zero
    /// entries; the ghost `level` is the level the frame will have in the
    /// tree.
    fn from_frame<T: TableGeneric>(
        mem: &mut TableMemory<T::P>,
        paddr: PhysAddr,
        allocator: A,
        level: Ghost<nat>,
        prefix: Ghost<Seq<int>>,
    ) -> (f: Self)
        requires
            old(mem).wf(),
            tree_ok::<T>(*old(mem)),
            level@ <= T::LEVEL,
        ensures
            final(mem).wf(),
            tree_ok::<T>(*final(mem)),
            ({
                &&& f.paddr == paddr
                    &&& f.allocator == allocator
                    &&& final(mem).has_frame(f.paddr@)
                    &&& final(mem).fresh@ == (old(mem).fresh@ && !old(mem).has_frame(f.paddr@))
                    &&& forall|i: int|
                        0 <= i < TABLE_ENTRIES ==> final(mem).entry(f.paddr@, i) == None::<T::P>
                    &&& forall|q: usize, i: int|
                        q != f.paddr@ && 0 <= i < TABLE_ENTRIES ==> final(mem).entry(q, i) == old(
                            mem,
                        ).entry(q, i)
                    &&& final(mem).fresh@ ==> {
                        &&& old(mem).fresh@
                        &&& extends(*old(mem), *final(mem))
                        &&& !old(mem).has_frame(f.paddr@)
                        &&& final(mem).levels@ == old(mem).levels@.insert(f.paddr@, level@)
                        &&& final(mem).prefixes@ == old(mem).prefixes@.insert(f.paddr@, prefix@)
                    }
            }),
    {
        let ghost was_present = mem.has_frame(paddr@);
        let ghost m0 = *mem;
        mem.zero(paddr.raw());
        let ghost mz = *mem;
        proof {
            mem.levels@ = mem.levels@.insert(paddr@, level@);
            mem.prefixes@ = mem.prefixes@.insert(paddr@, prefix@);
            mem.fresh@ = mem.fresh@ && !was_present;

            if mem.fresh@ {
                assert forall|q: usize| #[trigger] mem.has_frame(q) == mem.levels@.contains_key(q) by {
                    if q != paddr@ {
                        assert(m0.has_frame(q) == m0.levels@.contains_key(q));
                    }
                }
                assert forall|q: usize, i: int|
                    mem.levels@.contains_key(q) && mem.levels@[q] > 1 && 0 <= i < TABLE_ENTRIES
                        && is_link(#[trigger] mem.entry(q, i)) implies mem.levels@.contains_key(
                    mem.entry(q, i)->0.spec_paddr(),
                ) && mem.levels@[mem.entry(q, i)->0.spec_paddr()] == mem.levels@[q] - 1
                    && mem.prefixes@[mem.entry(q, i)->0.spec_paddr()] == mem.prefixes@[q].push(i) by {
                    if q != paddr@ {
                        assert(mem.entry(q, i) == m0.entry(q, i));
                        assert(m0.levels@.contains_key(q));
                        let t = m0.entry(q, i)->0.spec_paddr();
                        assert(m0.levels@.contains_key(t));
                        assert(t != paddr@);
                    }
                }
                assert forall|q: usize, i: int|
                    m0.has_frame(q) && 0 <= i < TABLE_ENTRIES && is_valid(
                        #[trigger] m0.entry(q, i),
                    ) implies mem.entry(q, i) == m0.entry(q, i) by {
                    assert(q != paddr@);
                }
                assert(!m0.levels@.contains_key(paddr@));
                assert forall|q: usize| #[trigger] m0.levels@.contains_key(q) implies mem.levels@.contains_key(q)
                    && mem.levels@[q] == m0.levels@[q] by {
                    assert(q != paddr@);
                }
                assert(extends(m0, *mem));
            }
            assert forall|i: int| 0 <= i < TABLE_ENTRIES implies mem.entry(paddr@, i) == None::<T::P> by {
                assert(mem.entry(paddr@, i) == mz.entry(paddr@, i));
            }
        }
        Frame { paddr, allocator }
    }
}

impl<T: TableGeneric, A: FramAllocator> PageTable<T, A> {

    /// The table is well formed.
    pub closed spec fn wf(&self) -> bool {
        &&& self.memory.wf()
        &&& tree_ok::<T>(self.memory)
        &&& self.memory.fresh@ ==> self.memory.levels@.contains_key(self.root@)
            && self.memory.levels@[self.root@] == T::LEVEL && self.memory.prefixes@[self.root@]
            == Seq::<int>::empty()
    }

    /// The physical address of the root table.
    pub closed spec fn root_paddr(&self) -> usize {
        self.root@
    }

    /// The physical address of the root table.
    pub fn root(&self) -> (r: PhysAddr)
        ensures
            r@ == self.root_paddr(),
    {
        self.root
    }

    /// Every frame the allocator handed to this table was new to it, and an
    /// entry set to a frame's address holds that address unchanged.
    pub closed spec fn consistent(&self) -> bool {
        self.memory.fresh@
    }

    /// The leaf entry that maps `va`, if any: the walk from the root follows
    /// valid entries that are not huge down to a valid entry at level 1.
    pub closed spec fn translate(&self, va: usize) -> Option<T::P> {
        translate_at::<T>(self.memory, self.root@, T::LEVEL as nat, va)
    }

    /// Whether every table on the walk of `va` is there, down to the last
    /// one, so that mapping `va` needs no new table.
    pub closed spec fn tables_present(&self, va: usize) -> bool {
        path_present::<T>(self.memory, self.root@, T::LEVEL as nat, va)
    }

    /// Whether a request can be served without new tables: every page of it
    /// is unmapped with its tables present, no two of its pages fall on the
    /// same slots, and no huge page can be used.
    pub open spec fn ready_for(&self, config: MapConfig<T::P>) -> bool {
        &&& self.consistent()
        &&& !config.allow_huge || config.size < block_size::<T>()
        &&& forall|off: usize|
            off < config.size && off % T::PAGE_SIZE == 0 ==> #[trigger] self.translate(
                (config.vaddr@ + off) as usize,
            ) is None && self.tables_present((config.vaddr@ + off) as usize)
        &&& forall|o1: usize, o2: usize|
            o1 < o2 < config.size && o1 % T::PAGE_SIZE == 0 && o2 % T::PAGE_SIZE == 0 ==> !same_page::<T>(
                #[trigger] ((config.vaddr@ + o1) as usize),
                #[trigger] ((config.vaddr@ + o2) as usize),
            )
    }

    /// Creates a table with a zeroed root frame from `allocator`.
    pub fn new(allocator: A) -> (r: PagingResult<Self>)
        ensures
            match r {
                Ok(t) => {
                    &&& t.wf()
                    &&& t.consistent()
                    &&& forall|va: usize| t.translate(va) is None
                },
                Err(e) => e == PagingError::NoMemory,
            },
    {
        let root = allocator.alloc_frame();
        Self::with_root_frame(allocator, root)
    }

    /// Builds the table on the root frame the allocator answered with:
    /// `NoMemory` when it had none, else a table rooted at that frame,
    /// zeroed, that translates no address.
    pub fn with_root_frame(allocator: A, root: Option<PhysAddr>) -> (r: PagingResult<Self>)
        ensures
            root is None ==> r == Err::<Self, PagingError>(PagingError::NoMemory),
            root matches Some(p) ==> (r matches Ok(t) && {
                &&& t.root_paddr() == p@
                &&& t.wf()
                &&& t.consistent()
                &&& forall|va: usize| t.translate(va) is None
            }),
    {
        let paddr = match root {
            Some(p) => p,
            None => return Err(PagingError::NoMemory),
        };
        let mut memory = TableMemory::new();
        let root = Frame::from_frame::<T>(
            &mut memory,
            paddr,
            allocator,
            Ghost(T::LEVEL as nat),
            Ghost(Seq::<int>::empty()),
        );
        let t = PageTable { root: root.paddr, allocator, memory };
        proof {
            assert forall|va: usize| t.translate(va) is None by {
                lemma_slot_bound::<T>(va, T::LEVEL as nat);
            }
        }
        Ok(t)
    }

    /// Checks the size and the alignment of a request.
    fn validate_map_config(&self, config: &MapConfig<T::P>) -> (r: PagingResult<()>)
        requires
            T::PAGE_SIZE > 0,
        ensures
            r == (if config.size == 0 {
                Err(PagingError::InvalidSize { details: "Size cannot be zero" })
            } else if config.vaddr@ % T::PAGE_SIZE != 0 {
                Err(PagingError::AlignmentError { details: "Virtual address not page aligned" })
            } else if config.paddr@ % T::PAGE_SIZE != 0 {
                Err(PagingError::AlignmentError { details: "Physical address not page aligned" })
            } else {
                Ok(())
            }),
    {
        if config.size == 0 {
            return Err(PagingError::invalid_size("Size cannot be zero"));
        }
        if config.vaddr.raw() % T::PAGE_SIZE != 0 {
            return Err(PagingError::alignment_error("Virtual address not page aligned"));
        }
        if config.paddr.raw() % T::PAGE_SIZE != 0 {
            return Err(PagingError::alignment_error("Physical address not page aligned"));
        }
        Ok(())
    }

    /// Maps `config.size` bytes at `config.vaddr` to `config.paddr`, step by
    /// step from the lowest address: a huge page where huge pages are allowed
    /// and what is left of the request is aligned to the huge page size at
    /// both addresses and in size, else one page; and flushes the TLB when
    /// asked.
    pub fn map(&mut self, config: &MapConfig<T::P>) -> (r: PagingResult<()>)
        requires
            old(self).wf(),
            table_wf::<T>(),
            precheck_spec::<T>(*config) is Ok ==> config.size % T::PAGE_SIZE == 0,
        ensures
            final(self).wf(),
            final(self).root_paddr() == old(self).root_paddr(),
            precheck_spec::<T>(*config) is Err ==> r == precheck_spec::<T>(*config) && *final(self)
                == *old(self),
            final(self).consistent() ==> old(self).consistent(),
            final(self).consistent() ==> forall|x: usize| #[trigger]
                old(self).translate(x) is Some ==> final(self).translate(x) == old(self).translate(x),
            final(self).consistent() ==> forall|x: usize|
                (forall|off: usize|
                    off < config.size && off % T::PAGE_SIZE == 0 ==> !#[trigger] same_page::<T>(
                        x,
                        (config.vaddr@ + off) as usize,
                    )) ==> #[trigger] final(self).translate(x) == old(self).translate(x),
            r is Ok && final(self).consistent() ==> forall|off: usize|
                off < config.size && off % T::PAGE_SIZE == 0 ==> mapped_as_requested::<T>(
                    *config,
                    off,
                    #[trigger] final(self).translate((config.vaddr@ + off) as usize),
                ),
            r is Ok && final(self).consistent() ==> forall|off: usize|
                off < config.size && off % T::PAGE_SIZE == 0 ==> #[trigger] old(self).translate(
                    (config.vaddr@ + off) as usize,
                ) is None,
            precheck_spec::<T>(*config) is Ok && old(self).translate(config.vaddr@) is Some ==> {
                &&& *final(self) == *old(self)
                &&& (r matches Err(PagingError::MappingConflict { vaddr, .. }) && vaddr
                    == config.vaddr) || (r matches Err(PagingError::HierarchyError { .. }))
            },
            precheck_spec::<T>(*config) is Ok && old(self).translate(config.vaddr@) is Some
                && old(self).tables_present(config.vaddr@) ==> match r {
                Err(PagingError::MappingConflict { vaddr, existing_paddr }) => {
                    &&& vaddr == config.vaddr
                    &&& (old(self).consistent() && (!config.allow_huge || config.size
                        < block_size::<T>())) ==> existing_paddr@ == old(self).translate(
                        config.vaddr@,
                    )->0.spec_paddr()
                },
                _ => false,
            },
            final(self).consistent() ==> match r {
                Err(PagingError::MappingConflict { vaddr: c, existing_paddr }) => {
                    &&& forall|off: usize|
                        off < c@ - config.vaddr@ && off % T::PAGE_SIZE == 0 ==> mapped_as_requested::<T>(
                            *config,
                            off,
                            #[trigger] final(self).translate((config.vaddr@ + off) as usize),
                        )
                    &&& forall|x: usize|
                        (forall|off: usize|
                            off < c@ - config.vaddr@ && off % T::PAGE_SIZE == 0 ==> !#[trigger] same_page::<T>(
                                x,
                                (config.vaddr@ + off) as usize,
                            )) ==> #[trigger] final(self).translate(x) == old(self).translate(x)
                    &&& (!config.allow_huge || config.size < block_size::<T>())
                        ==> (final(self).translate(c@) matches Some(e) && e.spec_paddr()
                        == existing_paddr@)
                },
                _ => true,
            },
            precheck_spec::<T>(*config) is Ok && old(self).ready_for(*config) ==> r is Ok,
            precheck_spec::<T>(*config) is Ok ==> match r {
                Ok(_) => true,
                Err(PagingError::NoMemory) => true,
                Err(PagingError::HierarchyError { .. }) => true,
                Err(PagingError::MappingConflict { vaddr, .. }) => config.vaddr@ <= vaddr@
                    < config.vaddr@ + config.size && (vaddr@ - config.vaddr@) % (T::PAGE_SIZE as int)
                    == 0,
                Err(_) => false,
            },
    {
        match self.validate_map_config(config) {
            Ok(_) => {},
            Err(e) => return Err(e),
        }
        if config.vaddr.raw().checked_add(config.size).is_none() || config.paddr.raw().checked_add(
            config.size,
        ).is_none() {
            return Err(PagingError::address_overflow("Virtual or physical address overflow"));
        }
        let ghost old_self = *self;
        let ghost all_huge = huge_ok::<T>(config.vaddr@, config.paddr@, config.size, 1, config.allow_huge);
        let ghost ready = old_self.ready_for(*config);
        proof {
            if all_huge {
                lemma_block_facts::<T>(0, 1);
            }
        }
        let mut vaddr = config.vaddr;
        let mut paddr = config.paddr;
        let mut size = config.size;
        let mut mapped_total: usize = 0;
        while size > 0
            invariant
                table_wf::<T>(),
                old_self == *old(self),
                old_self.wf(),
                self.root == old_self.root,
                self.memory.wf(),
                tree_ok::<T>(self.memory),
                self.memory.fresh@ ==> self.memory.levels@.contains_key(self.root@)
                    && self.memory.levels@[self.root@] == T::LEVEL && self.memory.prefixes@[self.root@]
                    == Seq::<int>::empty(),
                precheck_spec::<T>(*config) is Ok,
                config.size % T::PAGE_SIZE == 0,
                mapped_total + size == config.size,
                mapped_total % T::PAGE_SIZE == 0,
                vaddr@ == config.vaddr@ + mapped_total,
                paddr@ == config.paddr@ + mapped_total,
                all_huge == huge_ok::<T>(config.vaddr@, config.paddr@, config.size, 1, config.allow_huge),
                all_huge ==> (mapped_total as nat) % block_size::<T>() == 0,
                ready == old_self.ready_for(*config),
                ready ==> self.memory.fresh@,
                mapped_total == 0 ==> *self == old_self && vaddr == config.vaddr,
                mapped_total > 0 ==> old_self.translate(config.vaddr@) is None,
                self.memory.fresh@ ==> old_self.memory.fresh@ && extends(old_self.memory, self.memory),
                self.memory.fresh@ ==> forall|off: usize|
                    off < mapped_total && off % T::PAGE_SIZE == 0 ==> mapped_as_requested::<T>(
                        *config,
                        off,
                        #[trigger] translate_at::<T>(
                            self.memory,
                            self.root@,
                            T::LEVEL as nat,
                            (config.vaddr@ + off) as usize,
                        ),
                    ),
                self.memory.fresh@ ==> forall|off: usize|
                    off < mapped_total && off % T::PAGE_SIZE == 0 ==> #[trigger] old_self.translate(
                        (config.vaddr@ + off) as usize,
                    ) is None,
                self.memory.fresh@ ==> forall|x: usize|
                    (forall|off: usize|
                        off < mapped_total && off % T::PAGE_SIZE == 0 ==> !#[trigger] same_page::<T>(
                            x,
                            (config.vaddr@ + off) as usize,
                        )) ==> #[trigger] translate_at::<T>(self.memory, self.root@, T::LEVEL as nat, x)
                        == translate_at::<T>(old_self.memory, self.root@, T::LEVEL as nat, x),
            decreases size,
        {
            proof {
                lemma_size_multiple(size, T::PAGE_SIZE, mapped_total, config.size);
            }
            let optimal = Self::find_optimal_level(vaddr, paddr, size, config);
            let blk = optimal <= T::MAX_BLOCK_LEVEL;
            proof {
                lemma_optimal_level_range::<T>(vaddr@, paddr@, size, config.allow_huge, 1);
                if all_huge {
                    lemma_block_facts::<T>(0, 1);
                    let b = block_size::<T>() as int;
                    vstd::arithmetic::div_mod::lemma_add_mod_noop(config.vaddr@ as int, mapped_total as int, b);
                    vstd::arithmetic::div_mod::lemma_add_mod_noop(config.paddr@ as int, mapped_total as int, b);
                    vstd::arithmetic::div_mod::lemma_sub_mod_noop(config.size as int, mapped_total as int, b);
                    assert(huge_ok::<T>(vaddr@, paddr@, size, 1, config.allow_huge));
                    assert(optimal == 1);
                }
                if blk {
                    lemma_block_facts::<T>(vaddr@, optimal);
                    lemma_block_facts::<T>(size, optimal);
                    lemma_block_facts::<T>(paddr@, optimal);
                    lemma_size_multiple(size, block_size::<T>() as usize, 0, size);
                }
            }
            proof {
                if ready {
                    if blk {
                        // a huge page needs at least a huge page's size left
                        lemma_block_facts::<T>(size, optimal);
                        lemma_size_multiple(size, block_size::<T>() as usize, 0, size);
                        assert(false);
                    }
                    let x = vaddr@;
                    assert((config.vaddr@ + mapped_total) as usize == x);
                    assert(old_self.translate(x) is None && old_self.tables_present(x));
                    lemma_path_preserved::<T>(old_self.memory, self.memory, self.root@, T::LEVEL as nat, x);
                    assert forall|off: usize|
                        off < mapped_total && off % T::PAGE_SIZE == 0 implies !#[trigger] same_page::<T>(
                        x,
                        (config.vaddr@ + off) as usize,
                    ) by {
                        assert(!same_page::<T>((config.vaddr@ + off) as usize, (config.vaddr@ + mapped_total) as usize));
                    }
                    assert(translate_at::<T>(self.memory, self.root@, T::LEVEL as nat, x) is None);
                }
            }
            let root_paddr = self.root;
            let allocator = self.allocator;
            let ghost m1 = self.memory;
            let result = Self::map_range_no_self(
                &mut self.memory,
                root_paddr,
                allocator,
                vaddr,
                paddr,
                size,
                T::LEVEL,
                blk,
                config,
            );
            let mapped_size = match result {
                Ok(s) => s,
                Err(e) => {
                    proof {
                        if self.memory.fresh@ {
                            lemma_step_keeps_others::<T>(
                                old_self.memory,
                                m1,
                                self.memory,
                                self.root@,
                                config.vaddr@,
                                mapped_total,
                                vaddr@,
                                blk,
                            );
                            assert(mapped_total + (if blk { block_size::<T>() } else { T::PAGE_SIZE as nat })
                                <= config.size);
                            lemma_extends_trans(old_self.memory, m1, self.memory);
                            assert forall|x: usize| #[trigger] old_self.translate(x) is Some implies self.translate(x)
                                == old_self.translate(x) by {
                                lemma_translate_preserved::<T>(old_self.memory, self.memory, self.root@, T::LEVEL as nat, x);
                            }
                        }
                        if mapped_total == 0 && old_self.translate(config.vaddr@) is Some {
                            assert(m1 == old_self.memory);
                            assert(self.memory == m1);
                        }
                    }
                    return Err(e);
                },
            };
            proof {
                let m2 = self.memory;
                let step = mapped_size as int;
                if mapped_total == 0 {
                    assert(m1 == old_self.memory);
                }
                if blk {
                    assert(translate_at::<T>(m1, self.root@, T::LEVEL as nat, (vaddr@ + 0usize) as usize) is None
                        || !m2.fresh@);
                }
                if m2.fresh@ {
                    lemma_step_keeps_others::<T>(
                        old_self.memory,
                        m1,
                        m2,
                        self.root@,
                        config.vaddr@,
                        mapped_total,
                        vaddr@,
                        blk,
                    );
                    lemma_extends_trans(old_self.memory, m1, m2);
                    assert forall|off: usize|
                        off < mapped_total + step && off % T::PAGE_SIZE == 0 implies mapped_as_requested::<T>(
                        *config,
                        off,
                        #[trigger] translate_at::<T>(
                            m2,
                            self.root@,
                            T::LEVEL as nat,
                            (config.vaddr@ + off) as usize,
                        ),
                    ) by {
                        if off < mapped_total {
                            lemma_translate_preserved::<T>(m1, m2, self.root@, T::LEVEL as nat, (config.vaddr@ + off) as usize);
                        } else if blk {
                            let k = (off - mapped_total) as usize;
                            assert((vaddr@ + k) as usize == (config.vaddr@ + off) as usize);
                            assert(translate_at::<T>(m2, self.root@, T::LEVEL as nat, (vaddr@ + k) as usize)
                                == Some(huge_spec(config.pte, paddr@)));
                            lemma_mod_in_block(vaddr@ as int, k as int, block_size::<T>() as int);
                            assert(huge_entry_for::<T>(*config, off) == huge_spec(config.pte, paddr@));
                        } else {
                            lemma_mod_between(off, mapped_total, T::PAGE_SIZE);
                            if all_huge {
                                assert(false);
                            }
                        }
                    }
                    assert forall|off: usize|
                        off < mapped_total + step && off % T::PAGE_SIZE == 0 implies #[trigger] old_self.translate(
                        (config.vaddr@ + off) as usize,
                    ) is None by {
                        if off >= mapped_total {
                            let x = (config.vaddr@ + off) as usize;
                            if blk {
                                let k = (off - mapped_total) as usize;
                                assert((vaddr@ + k) as usize == x);
                                assert(translate_at::<T>(m1, self.root@, T::LEVEL as nat, (vaddr@ + k) as usize) is None);
                            } else {
                                lemma_mod_between(off, mapped_total, T::PAGE_SIZE);
                            }
                            if old_self.translate(x) is Some {
                                lemma_translate_preserved::<T>(old_self.memory, m1, self.root@, T::LEVEL as nat, x);
                            }
                        }
                    }
                }
                if blk {
                    lemma_block_facts::<T>(0, 1);
                    vstd::arithmetic::div_mod::lemma_mod_multiples_vanish(512, mapped_total as int, T::PAGE_SIZE as int);
                    assert(T::PAGE_SIZE * 512 + mapped_total == mapped_total + step);
                    if all_huge {
                        vstd::arithmetic::div_mod::lemma_mod_add_multiples_vanish(mapped_total as int, block_size::<T>() as int);
                    }
                } else {
                    vstd::arithmetic::div_mod::lemma_mod_add_multiples_vanish(mapped_total as int, T::PAGE_SIZE as int);
                }
            }
            vaddr = vaddr.add(mapped_size);
            paddr = paddr.add(mapped_size);
            size -= mapped_size;
            mapped_total += mapped_size;
            if mapped_size == 0 {
                return Err(PagingError::invalid_size("Zero mapping size detected"));
            }
        }
        if mapped_total != config.size {
            return Err(PagingError::invalid_size("Mapping size mismatch"));
        }
        if config.flush {
            T::flush(Some(config.vaddr));
        }
        proof {
            if self.memory.fresh@ {
                assert forall|x: usize| #[trigger] old_self.translate(x) is Some implies self.translate(x)
                    == old_self.translate(x) by {
                    lemma_translate_preserved::<T>(old_self.memory, self.memory, self.root@, T::LEVEL as nat, x);
                }
            }
        }
        Ok(())
    }

    /// The table index of `vaddr` at `level`.
    pub fn virt_to_index(vaddr: VirtAddr, level: usize) -> (r: usize)
        requires
            1 <= level <= T::LEVEL,
            page_shift::<T>() + 9 * (T::LEVEL - level) < 64,
        ensures
            r == index_spec::<T>(vaddr@, level as nat),
            r < TABLE_ENTRIES,
    {
        let page_shift = (T::PAGE_SIZE as u64).trailing_zeros() as u64;
        let shift = page_shift + ((T::LEVEL - level) as u64) * 9;
        let v = vaddr.raw() as u64;
        let r = (v >> shift) & 511u64;
        assert(r <= 511u64) by (bit_vector)
            requires
                r == (v >> shift) & 511u64,
        ;
        r as usize
    }

    /// The index that `vaddr` selects in a table standing at `level` of the
    /// walk: the root takes the highest bits.
    fn walk_index(vaddr: VirtAddr, level: usize) -> (r: usize)
        requires
            table_wf::<T>(),
            1 <= level <= T::LEVEL,
        ensures
            r == slot_index::<T>(vaddr@, level as nat),
            r < TABLE_ENTRIES,
    {
        Self::virt_to_index(vaddr, T::LEVEL + 1 - level)
    }

    /// The size one entry maps at `level`.
    pub fn level_size(level: usize) -> (r: usize)
        requires
            level_size_ok::<T>(level),
        ensures
            r == level_size_spec::<T>(level),
    {
        if level == T::LEVEL {
            T::PAGE_SIZE
        } else if level > T::MAX_BLOCK_LEVEL {
            T::PAGE_SIZE
        } else {
            let shift = 9 * level;
            proof {
                lemma_usize_shl_is_mul(T::PAGE_SIZE, shift);
            }
            T::PAGE_SIZE << shift
        }
    }

    /// Whether `vaddr` and `size` are both multiples of the size of `level`.
    pub fn is_vaddr_aligned(vaddr: VirtAddr, size: usize, level: usize) -> (r: bool)
        requires
            T::PAGE_SIZE > 0,
            level_size_ok::<T>(level),
        ensures
            r == aligned_at::<T>(vaddr@, size, level),
    {
        let level_size = Self::level_size(level);
        proof {
            if !(level == T::LEVEL || level > T::MAX_BLOCK_LEVEL) {
                lemma_pow2_pos((9 * level) as nat);
                assert(T::PAGE_SIZE * pow2((9 * level) as nat) > 0) by (nonlinear_arith)
                    requires
                        T::PAGE_SIZE > 0,
                        pow2((9 * level) as nat) > 0,
                ;
            }
        }
        vaddr.raw() % level_size == 0 && size % level_size == 0
    }

    /// Whether `paddr` and `size` are both multiples of the size of `level`.
    pub fn is_paddr_aligned(paddr: PhysAddr, size: usize, level: usize) -> (r: bool)
        requires
            T::PAGE_SIZE > 0,
            level_size_ok::<T>(level),
        ensures
            r == aligned_at::<T>(paddr@, size, level),
    {
        let level_size = Self::level_size(level);
        proof {
            if !(level == T::LEVEL || level > T::MAX_BLOCK_LEVEL) {
                lemma_pow2_pos((9 * level) as nat);
                assert(T::PAGE_SIZE * pow2((9 * level) as nat) > 0) by (nonlinear_arith)
                    requires
                        T::PAGE_SIZE > 0,
                        pow2((9 * level) as nat) > 0,
                ;
            }
        }
        paddr.raw() % level_size == 0 && size % level_size == 0
    }


    /// Whether a huge page of `level` may map `vaddr` to `paddr` for `size`.
    fn should_use_huge_page(
        vaddr: VirtAddr,
        paddr: PhysAddr,
        size: usize,
        level: usize,
        config: &MapConfig<T::P>,
    ) -> (r: bool)
        requires
            table_wf::<T>(),
            1 <= level,
        ensures
            r == huge_ok::<T>(vaddr@, paddr@, size, level, config.allow_huge),
    {
        if !config.allow_huge {
            return false;
        }
        if level > T::MAX_BLOCK_LEVEL {
            return false;
        }
        proof {
            lemma_block_size::<T>(level);
        }
        Self::is_vaddr_aligned(vaddr, size, level) && Self::is_paddr_aligned(paddr, size, level)
    }

    /// The first block level at which a huge page fits, else the leaf level.
    fn find_optimal_level(
        vaddr: VirtAddr,
        paddr: PhysAddr,
        size: usize,
        config: &MapConfig<T::P>,
    ) -> (r: usize)
        requires
            table_wf::<T>(),
        ensures
            r == optimal_level_from::<T>(vaddr@, paddr@, size, config.allow_huge, 1),
    {
        let mut level: usize = 1;
        while level <= T::MAX_BLOCK_LEVEL
            invariant
                table_wf::<T>(),
                1 <= level <= T::MAX_BLOCK_LEVEL + 1,
                optimal_level_from::<T>(vaddr@, paddr@, size, config.allow_huge, 1)
                    == optimal_level_from::<T>(vaddr@, paddr@, size, config.allow_huge, level as nat),
            decreases T::MAX_BLOCK_LEVEL + 1 - level,
        {
            if Self::should_use_huge_page(vaddr, paddr, size, level, config) {
                return level;
            }
            level = level + 1;
        }
        T::LEVEL
    }

    /// The entry for a page (or table) at `paddr`: the template of `config`
    /// with that address, valid and not huge.
    fn create_page_table_entry_static(paddr: PhysAddr, config: &MapConfig<T::P>) -> (r: T::P)
        ensures
            r == leaf_spec(config.pte, paddr@),
            r.spec_valid(),
            !r.spec_huge(),
            r.spec_paddr() == T::P::spec_addr_of(paddr@),
    {
        let mut pte = config.pte;
        pte.set_paddr(paddr);
        pte.set_valid(true);
        pte.set_is_huge(false);
        pte
    }

    /// Maps a huge page of `level` at `vaddr` in the table `frame`.
    fn map_huge_page_static(
        mem: &mut TableMemory<T::P>,
        frame: &Frame<A>,
        vaddr: VirtAddr,
        paddr: PhysAddr,
        _size: usize,
        level: usize,
        config: &MapConfig<T::P>,
    ) -> (r: PagingResult<()>)
        requires
            table_wf::<T>(),
            1 <= level <= T::LEVEL,
            old(mem).wf(),
            tree_ok::<T>(*old(mem)),
            old(mem).fresh@ ==> old(mem).has_frame(frame.paddr@),
        ensures
            final(mem).wf(),
            tree_ok::<T>(*final(mem)),
            final(mem).fresh == old(mem).fresh,
            final(mem).fresh@ ==> extends(*old(mem), *final(mem)),
            final(mem).levels == old(mem).levels,
            final(mem).prefixes == old(mem).prefixes,
            forall|q: usize, i: int|
                0 <= i < TABLE_ENTRIES && (q != frame.paddr@ || i != slot_index::<T>(vaddr@, level as nat))
                    && (q != frame.paddr@ || old(mem).has_frame(frame.paddr@)) ==> final(mem).entry(q, i)
                    == old(mem).entry(q, i),
            ({
                let i = slot_index::<T>(vaddr@, level as nat);
                let e = old(mem).entry(frame.paddr@, i);
                match r {
                    Ok(_) => {
                        &&& !is_valid(e)
                        &&& final(mem).entry(frame.paddr@, i) == Some(huge_spec(config.pte, paddr@))
                        &&& huge_spec(config.pte, paddr@).spec_valid()
                        &&& huge_spec(config.pte, paddr@).spec_huge()
                    },
                    Err(err) => is_valid(e) && *final(mem) == *old(mem) && err == (
                    PagingError::MappingConflict { vaddr, existing_paddr: err->existing_paddr })
                        && err->existing_paddr@ == e->0.spec_paddr(),
                }
            }),
    {
        proof {
            lemma_page_shift_bound::<T>();
        }
        let index = Self::walk_index(vaddr, level);
        let entry = mem.read(frame.paddr.raw(), index);
        if let Some(e) = entry {
            if e.valid() {
                return Err(PagingError::mapping_conflict(vaddr, e.paddr()));
            }
        }
        let mut pte = config.pte;
        pte.set_paddr(paddr);
        pte.set_valid(true);
        pte.set_is_huge(true);
        let ghost m0 = *mem;
        mem.write(frame.paddr.raw(), index, pte);
        proof {
            lemma_write_keeps_tree::<T>(m0, *mem, frame.paddr@, index as int, pte);
        }
        Ok(())
    }


    /// Maps the page at `vaddr` (the huge page when `blk`) from the root.
    fn map_range_no_self(
        mem: &mut TableMemory<T::P>,
        root_paddr: PhysAddr,
        allocator: A,
        vaddr: VirtAddr,
        paddr: PhysAddr,
        size: usize,
        level: usize,
        blk: bool,
        config: &MapConfig<T::P>,
    ) -> (r: PagingResult<usize>)
        requires
            table_wf::<T>(),
            level == T::LEVEL,
            old(mem).wf(),
            tree_ok::<T>(*old(mem)),
            old(mem).fresh@ ==> old(mem).levels@.contains_key(root_paddr@) && old(mem).levels@[root_paddr@]
                == level && old(mem).prefixes@[root_paddr@] == Seq::<int>::empty(),
            blk ==> 1 <= T::MAX_BLOCK_LEVEL && vaddr@ as nat % block_size::<T>() == 0 && vaddr@
                + block_size::<T>() <= usize::MAX,
        ensures
            step_post::<T>(*old(mem), *final(mem), root_paddr@, level as nat, vaddr, paddr, config.pte, blk, r),
    {
        let frame = Frame { paddr: root_paddr, allocator };
        assert(digits::<T>(vaddr@, level as nat) =~= Seq::<int>::empty());
        Self::map_range_recursive(mem, &frame, vaddr, paddr, size, level, blk, config)
    }

    /// Maps one page at `vaddr`, descending from the table `frame` standing at
    /// `level`: a huge page in the table at level 2 when `blk`, a leaf at
    /// level 1 otherwise, else through the next level.
    fn map_range_recursive(
        mem: &mut TableMemory<T::P>,
        frame: &Frame<A>,
        vaddr: VirtAddr,
        paddr: PhysAddr,
        size: usize,
        level: usize,
        blk: bool,
        config: &MapConfig<T::P>,
    ) -> (r: PagingResult<usize>)
        requires
            table_wf::<T>(),
            1 <= level <= T::LEVEL,
            old(mem).wf(),
            tree_ok::<T>(*old(mem)),
            old(mem).fresh@ ==> old(mem).levels@.contains_key(frame.paddr@)
                && old(mem).levels@[frame.paddr@] == level && old(mem).prefixes@[frame.paddr@]
                == digits::<T>(vaddr@, level as nat),
            blk ==> 1 <= T::MAX_BLOCK_LEVEL && 2 <= level && vaddr@ as nat % block_size::<T>() == 0
                && vaddr@ + block_size::<T>() <= usize::MAX,
        ensures
            step_post::<T>(*old(mem), *final(mem), frame.paddr@, level as nat, vaddr, paddr, config.pte, blk, r),
        decreases level, 1nat,
    {
        proof {
            lemma_page_shift_bound::<T>();
            lemma_slot_bound::<T>(vaddr@, level as nat);
        }
        if blk && level == 2 {
            proof {
                lemma_block_size::<T>(1);
            }
            let block = Self::level_size(1);
            let ghost m0 = *mem;
            match Self::map_huge_page_static(mem, frame, vaddr, paddr, block, level, config) {
                Ok(_) => {},
                Err(e) => return Err(e),
            }
            proof {
                let i = slot_index::<T>(vaddr@, 2);
                assert forall|k: usize| k < block_size::<T>() implies #[trigger] translate_at::<T>(
                    *mem,
                    frame.paddr@,
                    level as nat,
                    (vaddr@ + k) as usize,
                ) == Some(huge_spec(config.pte, paddr@)) by {
                    lemma_block_slots::<T>(vaddr@, k, 2);
                }
                assert forall|k: usize| k < block_size::<T>() implies #[trigger] translate_at::<T>(
                    m0,
                    frame.paddr@,
                    level as nat,
                    (vaddr@ + k) as usize,
                ) is None by {
                    lemma_block_slots::<T>(vaddr@, k, 2);
                }
                assert(translate_at::<T>(m0, frame.paddr@, level as nat, vaddr@) is None) by {
                    assert(!is_valid(m0.entry(frame.paddr@, i)));
                }
            }
            return Ok(block);
        }
        if level == 1 {
            let index = Self::walk_index(vaddr, level);
            let entry = mem.read(frame.paddr.raw(), index);
            if let Some(e) = entry {
                if e.valid() {
                    return Err(PagingError::mapping_conflict(vaddr, e.paddr()));
                }
            }
            let pte = Self::create_page_table_entry_static(paddr, config);
            let ghost m0 = *mem;
            mem.write(frame.paddr.raw(), index, pte);
            proof {
                lemma_write_keeps_tree::<T>(m0, *mem, frame.paddr@, index as int, pte);
                if mem.fresh@ {
                    assert(mem.entry(frame.paddr@, index as int) == Some(pte));
                }
            }
            return Ok(T::PAGE_SIZE);
        }
        Self::map_next_level_static(mem, frame, vaddr, paddr, size, level, blk, config)
    }

    /// Descends from the table `frame` at `level` to the table of the next
    /// level (creating it when the entry is empty) and maps the page there.
    fn map_next_level_static(
        mem: &mut TableMemory<T::P>,
        frame: &Frame<A>,
        vaddr: VirtAddr,
        paddr: PhysAddr,
        _size: usize,
        level: usize,
        blk: bool,
        config: &MapConfig<T::P>,
    ) -> (r: PagingResult<usize>)
        requires
            table_wf::<T>(),
            2 <= level <= T::LEVEL,
            old(mem).wf(),
            tree_ok::<T>(*old(mem)),
            old(mem).fresh@ ==> old(mem).levels@.contains_key(frame.paddr@)
                && old(mem).levels@[frame.paddr@] == level && old(mem).prefixes@[frame.paddr@]
                == digits::<T>(vaddr@, level as nat),
            blk ==> 1 <= T::MAX_BLOCK_LEVEL && 3 <= level && vaddr@ as nat % block_size::<T>() == 0
                && vaddr@ + block_size::<T>() <= usize::MAX,
        ensures
            step_post::<T>(*old(mem), *final(mem), frame.paddr@, level as nat, vaddr, paddr, config.pte, blk, r),
        decreases level, 0nat,
    {
        proof {
            lemma_page_shift_bound::<T>();
            lemma_slot_bound::<T>(vaddr@, level as nat);
        }
        let index = Self::walk_index(vaddr, level);
        let allocator = frame.allocator;
        let ghost m0 = *mem;
        let entry = mem.read(frame.paddr.raw(), index);
        let mut valid_entry = false;
        if let Some(e) = entry {
            valid_entry = e.valid();
        }
        let child_frame = if valid_entry {
            let e = entry.unwrap();
            if e.is_huge() {
                return Err(PagingError::hierarchy_error("Cannot create page table under huge page"));
            }
            proof {
                if m0.fresh@ {
                    assert(m0.has_frame(frame.paddr@));
                }
                assert(*mem == m0);
            }
            Frame { paddr: e.paddr(), allocator }
        } else {
            let new_frame = match Frame::new::<T>(
                mem,
                allocator,
                Ghost((level - 1) as nat),
                Ghost(m0.prefixes@[frame.paddr@].push(index as int)),
            ) {
                Ok(f) => f,
                Err(err) => return Err(err),
            };
            let ghost m1 = *mem;
            let pte = Self::create_page_table_entry_static(new_frame.paddr, config);
            proof {
                mem.fresh@ = mem.fresh@ && pte.spec_paddr() == new_frame.paddr@;
                if mem.fresh@ {
                    assert(m0.has_frame(frame.paddr@));
                    assert(m1.has_frame(frame.paddr@));
                    assert(frame.paddr@ != new_frame.paddr@);
                    assert(m1.entry(frame.paddr@, index as int) == m0.entry(frame.paddr@, index as int));
                }
                if frame.paddr@ != new_frame.paddr@ {
                    assert(m1.entry(frame.paddr@, index as int) == m0.entry(frame.paddr@, index as int));
                } else {
                    assert(m1.entry(frame.paddr@, index as int) == None::<T::P>);
                }
                lemma_extends_same_frames(m1, *mem);
            }
            let ghost m2 = *mem;
            mem.write(frame.paddr.raw(), index, pte);
            proof {
                if m2.fresh@ {
                    assert(m2.levels@.contains_key(frame.paddr@));
                }
                lemma_write_keeps_tree::<T>(m2, *mem, frame.paddr@, index as int, pte);
                if mem.fresh@ {
                    lemma_extends_same_frames(m1, m2);
                    lemma_extends_trans(m0, m1, m2);
                    lemma_extends_trans(m0, m2, *mem);
                    assert forall|j: int| 0 <= j < TABLE_ENTRIES implies mem.entry(new_frame.paddr@, j)
                        == None::<T::P> by {
                        assert(mem.entry(new_frame.paddr@, j) == m2.entry(new_frame.paddr@, j));
                        assert(m2.entry(new_frame.paddr@, j) == m1.entry(new_frame.paddr@, j));
                    }
                    let m3 = *mem;
                    let low: nat = if blk { 2 } else { 1 };
                    assert forall|q: usize, j: int|
                        m3.levels@.contains_key(q) && 0 <= j < TABLE_ENTRIES && #[trigger] m3.entry(q, j)
                            != m0.entry(q, j) implies {
                            &&& m3.prefixes@[q] == digits::<T>(vaddr@, m3.levels@[q])
                            &&& j == slot_index::<T>(vaddr@, m3.levels@[q])
                            &&& !is_valid(m0.entry(q, j))
                            &&& (m3.levels@[q] > 1 && is_link(m3.entry(q, j))) ==> !m0.levels@.contains_key(
                                m3.entry(q, j)->0.spec_paddr(),
                            )
                            &&& (m3.levels@[q] <= 1 || !is_link(m3.entry(q, j))) ==> m3.levels@[q] == low
                        } by {
                        if q == new_frame.paddr@ {
                            assert(m3.entry(q, j) == None::<T::P>);
                            assert(!m0.has_frame(q));
                        } else if q != frame.paddr@ || j != index as int {
                            assert(m3.entry(q, j) == m2.entry(q, j));
                            assert(m2.entry(q, j) == m1.entry(q, j));
                            assert(m1.entry(q, j) == m0.entry(q, j));
                        } else {
                            assert(m3.levels@[q] == level);
                        }
                    }
                    assert(changes_on_path::<T>(m0, m3, vaddr@, low));
                }
            }
            new_frame
        };
        let ghost m3 = *mem;
        proof {
            if m3.fresh@ {
                assert(m3.levels@.contains_key(child_frame.paddr@));
                lemma_digits_push::<T>(vaddr@, level as nat);
                if valid_entry {
                    assert(m0.levels@.contains_key(frame.paddr@));
                }
            }
        }
        let r = Self::map_range_recursive(mem, &child_frame, vaddr, paddr, T::PAGE_SIZE, level - 1, blk, config);
        proof {
            lemma_next_level::<T>(
                m0,
                m3,
                *mem,
                frame.paddr@,
                child_frame.paddr@,
                level as nat,
                vaddr,
                paddr,
                config.pte,
                blk,
                r,
                valid_entry,
            );
        }
        r
    }

    /// The largest size that may be mapped at `vaddr` from `level`: the size
    /// of the coarsest aligned level when `size` stays within the current
    /// block, else the size of `level`.
    #[allow(dead_code)]
    fn calc_mapping_range(vaddr: VirtAddr, size: usize, level: usize) -> (r: usize)
        requires
            table_wf::<T>(),
            1 <= level <= T::LEVEL,
        ensures
            ({
                let ls = level_size_spec::<T>(level);
                let boundary = ls - (vaddr@ as nat) % ls;
                r == if size <= boundary {
                    level_size_spec::<T>(coarsest_aligned_level::<T>(vaddr@, size, level))
                } else {
                    ls
                }
            }),
    {
        proof {
            if level <= T::MAX_BLOCK_LEVEL {
                lemma_block_size::<T>(level);
            }
        }
        let level_size = Self::level_size(level);
        proof {
            assert(level_size > 0) by {
                if level <= T::MAX_BLOCK_LEVEL && level != T::LEVEL {
                    lemma_block_size::<T>(level);
                }
            }
        }
        let offset_to_boundary = level_size - (vaddr.raw() % level_size);
        if size <= offset_to_boundary {
            let mut current_level = level;
            while current_level > 1
                invariant
                    table_wf::<T>(),
                    1 <= current_level <= level <= T::LEVEL,
                    coarsest_aligned_level::<T>(vaddr@, size, level) == coarsest_aligned_level::<T>(
                        vaddr@,
                        size,
                        current_level,
                    ),
                ensures
                    1 <= current_level <= level,
                    coarsest_aligned_level::<T>(vaddr@, size, level) == current_level,
                decreases current_level,
            {
                proof {
                    if current_level - 1 <= T::MAX_BLOCK_LEVEL {
                        lemma_block_size::<T>((current_level - 1) as usize);
                    }
                }
                if !Self::is_vaddr_aligned(vaddr, size, current_level - 1) {
                    break;
                }
                current_level = current_level - 1;
            }
            proof {
                if current_level <= T::MAX_BLOCK_LEVEL && current_level >= 1 && current_level != T::LEVEL {
                    lemma_block_size::<T>(current_level);
                }
            }
            return Self::level_size(current_level);
        }
        level_size
    }
}

} // verus!
