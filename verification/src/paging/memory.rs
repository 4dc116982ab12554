//! The memory that holds the page tables, seen as a set of frames of
//! `TABLE_ENTRIES` entries each. A slot that was never written reads as
//! `None`, the all-zero entry.

use vstd::prelude::*;

use super::pte::PageTableEntry;

verus! {

/// Number of entries in one table frame.
pub const TABLE_ENTRIES: usize = 512;

/// The index of the last frame in `paddrs` that has address `pa`, or -1.
pub open spec fn find_frame_spec(paddrs: Seq<usize>, pa: usize) -> int
    decreases paddrs.len(),
{
    if paddrs.len() == 0 {
        -1
    } else if paddrs.last() == pa {
        paddrs.len() - 1
    } else {
        find_frame_spec(paddrs.drop_last(), pa)
    }
}

pub proof fn lemma_find_frame(paddrs: Seq<usize>, pa: usize)
    ensures
        -1 <= find_frame_spec(paddrs, pa) < paddrs.len(),
        find_frame_spec(paddrs, pa) >= 0 ==> paddrs[find_frame_spec(paddrs, pa)] == pa,
        find_frame_spec(paddrs, pa) == -1 ==> forall|k: int|
            0 <= k < paddrs.len() ==> paddrs[k] != pa,
    decreases paddrs.len(),
{
    if paddrs.len() > 0 && paddrs.last() != pa {
        lemma_find_frame(paddrs.drop_last(), pa);
        if find_frame_spec(paddrs, pa) == -1 {
            assert forall|k: int| 0 <= k < paddrs.len() implies paddrs[k] != pa by {
                if k < paddrs.len() - 1 {
                    assert(paddrs.drop_last()[k] == paddrs[k]);
                }
            }
        }
    }
}

proof fn lemma_find_frame_prefix(paddrs: Seq<usize>, pa: usize, i: int)
    requires
        0 <= i <= paddrs.len(),
        forall|j: int| i <= j < paddrs.len() ==> paddrs[j] != pa,
    ensures
        find_frame_spec(paddrs, pa) == find_frame_spec(paddrs.subrange(0, i), pa),
    decreases paddrs.len() - i,
{
    if i == paddrs.len() {
        assert(paddrs.subrange(0, i) =~= paddrs);
    } else {
        assert(paddrs.drop_last().subrange(0, i) =~= paddrs.subrange(0, i));
        lemma_find_frame_prefix(paddrs.drop_last(), pa, i);
    }
}

proof fn lemma_find_frame_push(paddrs: Seq<usize>, pa: usize, q: usize)
    ensures
        find_frame_spec(paddrs.push(pa), q) == if q == pa {
            paddrs.len() as int
        } else {
            find_frame_spec(paddrs, q)
        },
{
    assert(paddrs.push(pa).drop_last() =~= paddrs);
}

/// Table frames and, as ghost state, the level each frame has in the tree,
/// the table indices that lead to it from the root, and whether every frame
/// handed out so far was new to the memory.
pub(crate) struct TableMemory<P> {
    pub(crate) paddrs: Vec<usize>,
    pub(crate) slots: Vec<Option<P>>,
    pub(crate) levels: Ghost<Map<usize, nat>>,
    pub(crate) prefixes: Ghost<Map<usize, Seq<int>>>,
    pub(crate) fresh: Ghost<bool>,
}

impl<P: PageTableEntry> TableMemory<P> {
    pub(crate) open spec fn wf(&self) -> bool {
        self.slots@.len() == self.paddrs@.len() * TABLE_ENTRIES
    }

    /// Whether a frame at `pa` has been created.
    pub(crate) open spec fn has_frame(&self, pa: usize) -> bool {
        find_frame_spec(self.paddrs@, pa) >= 0
    }

    /// The entry in slot `i` of the frame at `pa`; `None` for a zero entry.
    pub(crate) open spec fn entry(&self, pa: usize, i: int) -> Option<P> {
        let k = find_frame_spec(self.paddrs@, pa);
        if k >= 0 {
            self.slots@[k * TABLE_ENTRIES + i]
        } else {
            None
        }
    }

    /// An empty memory: no frame, every slot reads as zero.
    pub(crate) fn new() -> (r: Self)
        ensures
            r.wf(),
            r.fresh@,
            r.levels@ == Map::<usize, nat>::empty(),
            r.prefixes@ == Map::<usize, Seq<int>>::empty(),
            forall|q: usize| !r.has_frame(q),
            forall|q: usize, i: int| r.entry(q, i) == None::<P>,
    {
        TableMemory {
            paddrs: Vec::new(),
            slots: Vec::new(),
            levels: Ghost(Map::empty()),
            prefixes: Ghost(Map::empty()),
            fresh: Ghost(true),
        }
    }

    fn find_frame(&self, pa: usize) -> (r: Option<usize>)
        ensures
            match r {
                Some(k) => k == find_frame_spec(self.paddrs@, pa) && k < self.paddrs@.len(),
                None => find_frame_spec(self.paddrs@, pa) == -1,
            },
    {
        let mut i = self.paddrs.len();
        while i > 0
            invariant
                i <= self.paddrs@.len(),
                forall|j: int| i <= j < self.paddrs@.len() ==> self.paddrs@[j] != pa,
            decreases i,
        {
            if self.paddrs[i - 1] == pa {
                proof {
                    lemma_find_frame_prefix(self.paddrs@, pa, i as int);
                    assert(self.paddrs@.subrange(0, i as int).drop_last() =~= self.paddrs@.subrange(
                        0,
                        i - 1,
                    ));
                }
                return Some(i - 1);
            }
            i = i - 1;
        }
        proof {
            lemma_find_frame_prefix(self.paddrs@, pa, 0);
        }
        None
    }

    /// Reads slot `idx` of the frame at `pa`.
    pub(crate) fn read(&self, pa: usize, idx: usize) -> (r: Option<P>)
        requires
            self.wf(),
            idx < TABLE_ENTRIES,
        ensures
            r == self.entry(pa, idx as int),
    {
        proof {
            lemma_find_frame(self.paddrs@, pa);
        }
        let n = self.slots.len();
        match self.find_frame(pa) {
            Some(k) => {
                assert(k * TABLE_ENTRIES + idx < self.slots@.len()) by (nonlinear_arith)
                    requires
                        k < self.paddrs@.len(),
                        idx < TABLE_ENTRIES,
                        self.slots@.len() == self.paddrs@.len() * TABLE_ENTRIES,
                ;
                self.slots[k * TABLE_ENTRIES + idx]
            },
            None => None,
        }
    }

    fn push_frame(&mut self, pa: usize) -> (k: usize)
        requires
            old(self).wf(),
            find_frame_spec(old(self).paddrs@, pa) == -1,
        ensures
            final(self).wf(),
            k == find_frame_spec(final(self).paddrs@, pa),
            k == old(self).paddrs@.len(),
            final(self).levels == old(self).levels,
            final(self).prefixes == old(self).prefixes,
            final(self).fresh == old(self).fresh,
            forall|i: int| 0 <= i < TABLE_ENTRIES ==> final(self).entry(pa, i) == None::<P>,
            forall|q: usize| q != pa ==> final(self).has_frame(q) == old(self).has_frame(q),
            forall|q: usize, i: int|
                q != pa && 0 <= i < TABLE_ENTRIES ==> final(self).entry(q, i) == old(self).entry(
                    q,
                    i,
                ),
    {
        let k = self.paddrs.len();
        let ghost old_slots = self.slots@;
        self.paddrs.push(pa);
        let mut j: usize = 0;
        while j < TABLE_ENTRIES
            invariant
                j <= TABLE_ENTRIES,
                self.paddrs@ == old(self).paddrs@.push(pa),
                self.levels == old(self).levels,
                self.prefixes == old(self).prefixes,
                self.fresh == old(self).fresh,
                old_slots.len() == k * TABLE_ENTRIES,
                self.slots@.len() == k * TABLE_ENTRIES + j,
                forall|n: int| 0 <= n < k * TABLE_ENTRIES ==> self.slots@[n] == old_slots[n],
                forall|n: int| k * TABLE_ENTRIES <= n < self.slots@.len() ==> self.slots@[n] == None::<P>,
            decreases TABLE_ENTRIES - j,
        {
            self.slots.push(None);
            j = j + 1;
        }
        proof {
            assert forall|q: usize| #![auto] true implies find_frame_spec(self.paddrs@, q) == if q == pa {
                k as int
            } else {
                find_frame_spec(old(self).paddrs@, q)
            } by {
                lemma_find_frame_push(old(self).paddrs@, pa, q);
                assert(self.paddrs@ =~= old(self).paddrs@.push(pa));
            }
            assert forall|q: usize, i: int|
                q != pa && 0 <= i < TABLE_ENTRIES implies final(self).entry(q, i) == old(self).entry(q, i) by {
                lemma_find_frame(old(self).paddrs@, q);
                let kq = find_frame_spec(old(self).paddrs@, q);
                if kq >= 0 {
                    assert(kq * TABLE_ENTRIES + i < k * TABLE_ENTRIES) by (nonlinear_arith)
                        requires
                            0 <= kq < k,
                            0 <= i < TABLE_ENTRIES,
                    ;
                }
            }
        }
        k
    }

    /// Fills the frame at `pa` with zero entries, creating it if needed.
    pub(crate) fn zero(&mut self, pa: usize)
        requires
            old(self).wf(),
        ensures
            final(self).wf(),
            final(self).has_frame(pa),
            final(self).levels == old(self).levels,
            final(self).prefixes == old(self).prefixes,
            final(self).fresh == old(self).fresh,
            forall|i: int| 0 <= i < TABLE_ENTRIES ==> final(self).entry(pa, i) == None::<P>,
            forall|q: usize| q != pa ==> final(self).has_frame(q) == old(self).has_frame(q),
            forall|q: usize, i: int|
                q != pa && 0 <= i < TABLE_ENTRIES ==> final(self).entry(q, i) == old(self).entry(
                    q,
                    i,
                ),
    {
        proof {
            lemma_find_frame(self.paddrs@, pa);
        }
        match self.find_frame(pa) {
            None => {
                self.push_frame(pa);
            },
            Some(k) => {
                let ghost old_slots = self.slots@;
                let n = self.slots.len();
                assert(k * TABLE_ENTRIES + TABLE_ENTRIES <= n) by (nonlinear_arith)
                    requires
                        k < self.paddrs@.len(),
                        n == self.paddrs@.len() * TABLE_ENTRIES,
                ;
                let base = k * TABLE_ENTRIES;
                assert(base + TABLE_ENTRIES <= self.slots@.len()) by (nonlinear_arith)
                    requires
                        k < self.paddrs@.len(),
                        base == k * TABLE_ENTRIES,
                        self.slots@.len() == self.paddrs@.len() * TABLE_ENTRIES,
                ;
                let mut j: usize = 0;
                while j < TABLE_ENTRIES
                    invariant
                        j <= TABLE_ENTRIES,
                        base + TABLE_ENTRIES <= n,
                        n == self.slots@.len(),
                        base + TABLE_ENTRIES <= self.slots@.len(),
                        self.slots@.len() == old_slots.len(),
                        self.paddrs@ == old(self).paddrs@,
                        self.levels == old(self).levels,
                        self.prefixes == old(self).prefixes,
                        self.fresh == old(self).fresh,
                        forall|n: int|
                            0 <= n < self.slots@.len() && !(base <= n < base + j) ==> self.slots@[n]
                                == old_slots[n],
                        forall|n: int| base <= n < base + j ==> self.slots@[n] == None::<P>,
                    decreases TABLE_ENTRIES - j,
                {
                    self.slots.set(base + j, None);
                    j = j + 1;
                }
                proof {
                    let old_len = old(self).paddrs@.len();
                    assert forall|q: usize, i: int|
                        q != pa && 0 <= i < TABLE_ENTRIES implies final(self).entry(q, i)
                        == old(self).entry(q, i) by {
                        lemma_find_frame(old(self).paddrs@, q);
                        let kq = find_frame_spec(old(self).paddrs@, q);
                        if kq >= 0 {
                            assert(kq != k);
                            assert(kq * TABLE_ENTRIES + i < base || kq * TABLE_ENTRIES + i >= base
                                + TABLE_ENTRIES) by (nonlinear_arith)
                                requires
                                    kq != k,
                                    0 <= kq,
                                    0 <= k,
                                    0 <= i < TABLE_ENTRIES,
                                    base == k * TABLE_ENTRIES,
                            ;
                            assert(kq * TABLE_ENTRIES + i < old_slots.len()) by (nonlinear_arith)
                                requires
                                    0 <= kq < old_len,
                                    0 <= i < TABLE_ENTRIES,
                                    old_slots.len() == old_len * TABLE_ENTRIES,
                            ;
                        }
                    }
                }
            },
        }
    }

    /// Writes `e` into slot `idx` of the frame at `pa`, creating the frame if
    /// needed.
    pub(crate) fn write(&mut self, pa: usize, idx: usize, e: P)
        requires
            old(self).wf(),
            idx < TABLE_ENTRIES,
        ensures
            final(self).wf(),
            final(self).has_frame(pa),
            final(self).levels == old(self).levels,
            final(self).prefixes == old(self).prefixes,
            final(self).fresh == old(self).fresh,
            final(self).entry(pa, idx as int) == Some(e),
            forall|q: usize| q != pa ==> final(self).has_frame(q) == old(self).has_frame(q),
            forall|q: usize, i: int|
                0 <= i < TABLE_ENTRIES && (q != pa || i != idx) && (q != pa || old(self).has_frame(pa))
                    ==> final(self).entry(q, i) == old(self).entry(q, i),
            !old(self).has_frame(pa) ==> forall|i: int|
                0 <= i < TABLE_ENTRIES && i != idx ==> final(self).entry(pa, i) == None::<P>,
    {
        proof {
            lemma_find_frame(self.paddrs@, pa);
        }
        let found = self.find_frame(pa);
        let k = if found.is_some() {
            found.unwrap()
        } else {
            let k = self.push_frame(pa);
            assert(forall|i: int| 0 <= i < TABLE_ENTRIES ==> self.entry(pa, i) == None::<P>);
            k
        };
        proof {
            lemma_find_frame(self.paddrs@, pa);
        }
        assert(!old(self).has_frame(pa) ==> forall|i: int|
            0 <= i < TABLE_ENTRIES ==> self.entry(pa, i) == None::<P>);
        let n = self.slots.len();
        let ghost mid_slots = self.slots@;
        let ghost mid = *self;
        assert(k * TABLE_ENTRIES + idx < self.slots@.len()) by (nonlinear_arith)
            requires
                k < self.paddrs@.len(),
                idx < TABLE_ENTRIES,
                self.slots@.len() == self.paddrs@.len() * TABLE_ENTRIES,
        ;
        self.slots.set(k * TABLE_ENTRIES + idx, Some(e));
        proof {
            assert forall|q: usize, i: int|
                0 <= i < TABLE_ENTRIES && (q != pa || i != idx) implies final(self).entry(q, i)
                == mid.entry(q, i) by {
                lemma_find_frame(self.paddrs@, q);
                let kq = find_frame_spec(self.paddrs@, q);
                if kq >= 0 {
                    if q != pa {
                        assert(kq != k);
                    }
                    assert(kq * TABLE_ENTRIES + i != k * TABLE_ENTRIES + idx) by (nonlinear_arith)
                        requires
                            kq != k || i != idx,
                            0 <= kq,
                            0 <= k,
                            0 <= i < TABLE_ENTRIES,
                            0 <= idx < TABLE_ENTRIES,
                    ;
                }
            }
        }
        assert(!old(self).has_frame(pa) ==> forall|i: int|
            0 <= i < TABLE_ENTRIES && i != idx ==> final(self).entry(pa, i) == None::<P>) by {
            if !old(self).has_frame(pa) {
                assert forall|i: int| 0 <= i < TABLE_ENTRIES && i != idx implies final(self).entry(pa, i)
                    == None::<P> by {
                    assert(final(self).entry(pa, i) == mid.entry(pa, i));
                }
            }
        }
    }
}

} // verus!
