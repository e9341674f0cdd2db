//! The shared page table and its free-block allocator.
use vstd::prelude::*;

use crate::error::{Error, Resource};
use crate::MR_PGT_SIZE;

verus! {

/// A run of free page-table entries.
#[derive(Debug, Clone, Copy, PartialEq, Eq, Structural)]
pub struct MrPgtFreeBlk {
    pub idx: usize,
    pub len: usize,
}

/// The entries that a block covers.
pub open spec fn covers(b: MrPgtFreeBlk, x: int) -> bool {
    b.idx <= x < b.idx + b.len
}

/// The free entries of a free list.
pub open spec fn free_set(l: Seq<MrPgtFreeBlk>) -> Set<int> {
    Set::new(|x: int| exists|i: int| 0 <= i < l.len() && covers(#[trigger] l[i], x))
}

/// The entries `idx .. idx + len`.
pub open spec fn range_set(idx: int, len: int) -> Set<int> {
    Set::new(|x: int| idx <= x < idx + len)
}

/// Free blocks are non-empty, inside the table, sorted by index, and neither
/// overlap nor touch.
pub open spec fn free_list_wf(l: Seq<MrPgtFreeBlk>) -> bool {
    &&& forall|i: int| 0 <= i < l.len() ==> #[trigger] l[i].len > 0 && l[i].idx + l[i].len <= MR_PGT_SIZE
    &&& forall|i: int, j: int| 0 <= i < j < l.len() ==> #[trigger] l[i].idx + l[i].len < #[trigger] l[j].idx
}

/// Index of the first block of at least `len` entries, or -1.
pub open spec fn first_fit(l: Seq<MrPgtFreeBlk>, len: int) -> int
    decreases l.len(),
{
    if l.len() == 0 {
        -1
    } else if l[0].len >= len {
        0
    } else if first_fit(l.drop_first(), len) < 0 {
        -1
    } else {
        first_fit(l.drop_first(), len) + 1
    }
}

/// The page table and its free list.
#[derive(Debug)]
pub struct MrPgt {
    table: Vec<u64>,
    free_blk_list: Vec<MrPgtFreeBlk>,
}

proof fn lemma_first_fit(l: Seq<MrPgtFreeBlk>, len: int)
    ensures
        -1 <= first_fit(l, len) < l.len(),
        first_fit(l, len) >= 0 ==> l[first_fit(l, len)].len >= len,
        forall|i: int| 0 <= i < l.len() && (first_fit(l, len) < 0 || i < first_fit(l, len)) ==> #[trigger] l[i].len
            < len,
    decreases l.len(),
{
    if l.len() > 0 {
        lemma_first_fit(l.drop_first(), len);
        assert forall|i: int| 0 < i < l.len() implies #[trigger] l[i] == l.drop_first()[i - 1] by {}
    }
}

/// The free entries of a concatenation are those of its parts.
proof fn lemma_free_set_concat(a: Seq<MrPgtFreeBlk>, b: Seq<MrPgtFreeBlk>)
    ensures
        free_set(a + b) == free_set(a).union(free_set(b)),
{
    let c = a + b;
    assert forall|x: int| free_set(c).contains(x) <==> free_set(a).union(free_set(b)).contains(x) by {
        if free_set(c).contains(x) {
            let j = choose|j: int| 0 <= j < c.len() && covers(#[trigger] c[j], x);
            if j < a.len() {
                assert(c[j] == a[j]);
            } else {
                assert(c[j] == b[j - a.len()]);
            }
        }
        if free_set(a).contains(x) {
            let j = choose|j: int| 0 <= j < a.len() && covers(#[trigger] a[j], x);
            assert(c[j] == a[j]);
        }
        if free_set(b).contains(x) {
            let j = choose|j: int| 0 <= j < b.len() && covers(#[trigger] b[j], x);
            assert(c[j + a.len()] == b[j]);
        }
    }
    assert(free_set(c) =~= free_set(a).union(free_set(b)));
}

/// The free entries of a single block.
proof fn lemma_free_set_single(b: MrPgtFreeBlk)
    ensures
        free_set(seq![b]) == range_set(b.idx as int, b.len as int),
{
    assert forall|x: int| free_set(seq![b]).contains(x) <==> range_set(b.idx as int, b.len as int).contains(x) by {
        if range_set(b.idx as int, b.len as int).contains(x) {
            assert(covers(seq![b][0], x));
        }
    }
    assert(free_set(seq![b]) =~= range_set(b.idx as int, b.len as int));
}

impl MrPgt {
    /// The page-table entries.
    pub closed spec fn table_view(&self) -> Seq<u64> {
        self.table@
    }

    /// The free blocks, in index order.
    pub closed spec fn free_view(&self) -> Seq<MrPgtFreeBlk> {
        self.free_blk_list@
    }

    /// The allocator's invariant.
    pub open spec fn wf(&self) -> bool {
        &&& self.table_view().len() == MR_PGT_SIZE
        &&& free_list_wf(self.free_view())
    }

    /// A zeroed table whose entries are all free, as one block.
    pub fn new() -> (r: MrPgt)
        ensures
            r.wf(),
            r.free_view() == seq![MrPgtFreeBlk { idx: 0, len: MR_PGT_SIZE }],
            r.table_view() == Seq::new(MR_PGT_SIZE as nat, |i: int| 0u64),
    {
        let mut table: Vec<u64> = Vec::new();
        let mut i: usize = 0;
        while i < MR_PGT_SIZE
            invariant
                i <= MR_PGT_SIZE,
                table@ == Seq::new(i as nat, |k: int| 0u64),
            decreases MR_PGT_SIZE - i,
        {
            table.push(0);
            assert(table@ =~= Seq::new((i + 1) as nat, |k: int| 0u64));
            i = i + 1;
        }
        let mut free_blk_list: Vec<MrPgtFreeBlk> = Vec::new();
        free_blk_list.push(MrPgtFreeBlk { idx: 0, len: MR_PGT_SIZE });
        let r = MrPgt { table, free_blk_list };
        assert(r.free_view() =~= seq![MrPgtFreeBlk { idx: 0, len: MR_PGT_SIZE }]);
        r
    }

    /// The free blocks, in index order.
    pub fn free_blocks(&self) -> (r: &Vec<MrPgtFreeBlk>)
        ensures
            r@ == self.free_view(),
    {
        &self.free_blk_list
    }

    /// Entry `i` of the table.
    pub fn get_entry(&self, i: usize) -> (r: u64)
        requires
            self.wf(),
            i < MR_PGT_SIZE,
        ensures
            r == self.table_view()[i as int],
    {
        self.table[i]
    }

    /// Writes entry `i` of the table.
    pub fn set_entry(&mut self, i: usize, pa: u64)
        requires
            old(self).wf(),
            i < MR_PGT_SIZE,
        ensures
            final(self).wf(),
            final(self).table_view() == old(self).table_view().update(i as int, pa),
            final(self).free_view() == old(self).free_view(),
    {
        self.table.set(i, pa);
    }

    /// Takes `len` entries from the front of the first free block that holds
    /// them; their first index on success, `ResourceNoAvailable` when no block
    /// is long enough.
    pub fn allocate(&mut self, len: usize) -> (r: Result<usize, Error>)
        requires
            old(self).wf(),
        ensures
            final(self).wf(),
            final(self).table_view() == old(self).table_view(),
            first_fit(old(self).free_view(), len as int) < 0 ==> r == Err::<usize, Error>(
                Error::ResourceNoAvailable(Resource::MrPageTable),
            ) && final(self).free_view() == old(self).free_view(),
            first_fit(old(self).free_view(), len as int) >= 0 ==> r == Ok::<usize, Error>(
                old(self).free_view()[first_fit(old(self).free_view(), len as int)].idx,
            ),
            r matches Ok(idx) ==> idx + len <= MR_PGT_SIZE && range_set(idx as int, len as int).subset_of(
                free_set(old(self).free_view()),
            ) && free_set(final(self).free_view()) == free_set(old(self).free_view()).difference(
                range_set(idx as int, len as int),
            ),
    {
        proof {
            lemma_first_fit(self.free_blk_list@, len as int);
        }
        let n = self.free_blk_list.len();
        let mut i: usize = 0;
        while i < n
            invariant
                n == self.free_blk_list@.len(),
                i <= n,
                self.free_blk_list@ == old(self).free_blk_list@,
                self.table@ == old(self).table@,
                free_list_wf(self.free_blk_list@),
                self.table@.len() == MR_PGT_SIZE,
                forall|k: int| 0 <= k < i ==> #[trigger] self.free_blk_list@[k].len < len,
            decreases n - i,
        {
            let blk = self.free_blk_list[i];
            if blk.len >= len {
                let ghost l0 = self.free_blk_list@;
                proof {
                    lemma_first_fit(l0, len as int);
                    assert(first_fit(l0, len as int) == i);
                }
                let idx = blk.idx;
                if blk.len == len {
                    self.free_blk_list.remove(i);
                    proof {
                        assert forall|x: int|
                            free_set(self.free_blk_list@).contains(x) <==> free_set(l0).difference(
                                range_set(idx as int, len as int),
                            ).contains(x) by {
                            if free_set(l0).contains(x) && !range_set(idx as int, len as int).contains(x) {
                                let j = choose|j: int| 0 <= j < l0.len() && covers(#[trigger] l0[j], x);
                                assert(j != i);
                                if j < i {
                                    assert(self.free_blk_list@[j] == l0[j]);
                                } else {
                                    assert(self.free_blk_list@[j - 1] == l0[j]);
                                }
                            }
                            if free_set(self.free_blk_list@).contains(x) {
                                let j = choose|j: int|
                                    0 <= j < self.free_blk_list@.len() && covers(
                                        #[trigger] self.free_blk_list@[j],
                                        x,
                                    );
                                if j < i {
                                    assert(l0[j] == self.free_blk_list@[j]);
                                    assert(l0[j].idx + l0[j].len < l0[i as int].idx);
                                } else {
                                    assert(l0[j + 1] == self.free_blk_list@[j]);
                                    assert(l0[i as int].idx + l0[i as int].len < l0[j + 1].idx);
                                }
                            }
                        }
                        assert(free_set(self.free_blk_list@) =~= free_set(l0).difference(
                            range_set(idx as int, len as int),
                        ));
                        let l1 = self.free_blk_list@;
                        assert forall|a: int, b: int| 0 <= a < b < l1.len() implies #[trigger] l1[a].idx
                            + l1[a].len < #[trigger] l1[b].idx by {
                            let a0 = if a < i { a } else { a + 1 };
                            let b0 = if b < i { b } else { b + 1 };
                            assert(l1[a] == l0[a0] && l1[b] == l0[b0]);
                        }
                        assert forall|a: int| 0 <= a < l1.len() implies #[trigger] l1[a].len > 0 && l1[a].idx
                            + l1[a].len <= MR_PGT_SIZE by {
                            let a0 = if a < i { a } else { a + 1 };
                            assert(l1[a] == l0[a0]);
                        }
                        assert(range_set(idx as int, len as int).subset_of(free_set(l0))) by {
                            assert forall|x: int| range_set(idx as int, len as int).contains(x) implies free_set(
                                l0,
                            ).contains(x) by {
                                assert(covers(l0[i as int], x));
                            }
                        }
                    }
                } else {
                    self.free_blk_list.set(i, MrPgtFreeBlk { idx: blk.idx + len, len: blk.len - len });
                    proof {
                        let l1 = self.free_blk_list@;
                        assert forall|x: int|
                            free_set(l1).contains(x) <==> free_set(l0).difference(
                                range_set(idx as int, len as int),
                            ).contains(x) by {
                            if free_set(l0).contains(x) && !range_set(idx as int, len as int).contains(x) {
                                let j = choose|j: int| 0 <= j < l0.len() && covers(#[trigger] l0[j], x);
                                assert(covers(l1[j], x));
                            }
                            if free_set(l1).contains(x) {
                                let j = choose|j: int| 0 <= j < l1.len() && covers(#[trigger] l1[j], x);
                                assert(covers(l0[j], x));
                                if j != i {
                                    if j < i {
                                        assert(l0[j].idx + l0[j].len < l0[i as int].idx);
                                    } else {
                                        assert(l0[i as int].idx + l0[i as int].len < l0[j].idx);
                                    }
                                }
                            }
                        }
                        assert(free_set(l1) =~= free_set(l0).difference(range_set(idx as int, len as int)));
                        assert(range_set(idx as int, len as int).subset_of(free_set(l0))) by {
                            assert forall|x: int| range_set(idx as int, len as int).contains(x) implies free_set(
                                l0,
                            ).contains(x) by {
                                assert(covers(l0[i as int], x));
                            }
                        }
                    }
                }
                return Ok(idx);
            }
            i = i + 1;
        }
        Err(Error::ResourceNoAvailable(Resource::MrPageTable))
    }
}

/// Where the entries `idx .. idx + len` go back into the free list `l`: after
/// the first `p` blocks, between the blocks around them.
pub open spec fn insert_point(l: Seq<MrPgtFreeBlk>, p: int, idx: int, len: int) -> bool {
    &&& free_list_wf(l)
    &&& 0 <= p <= l.len()
    &&& len > 0
    &&& 0 <= idx
    &&& idx + len <= MR_PGT_SIZE
    &&& p > 0 ==> l[p - 1].idx + l[p - 1].len <= idx
    &&& p < l.len() ==> idx + len <= l[p].idx
}

/// Merging with both neighbours keeps the list well formed and frees the range.
proof fn lemma_merge_both(l: Seq<MrPgtFreeBlk>, p: int, idx: int, len: int, merged: MrPgtFreeBlk)
    requires
        insert_point(l, p, idx, len),
        p > 0 && p < l.len(),
        l[p - 1].idx + l[p - 1].len == idx,
        idx + len == l[p].idx,
        merged.idx == l[p - 1].idx,
        merged.len == l[p - 1].len + len + l[p].len,
    ensures
        ({
            let l1 = l.subrange(0, p - 1) + seq![merged] + l.subrange(p + 1, l.len() as int);
            free_list_wf(l1) && free_set(l1) == free_set(l).union(range_set(idx, len))
        }),
{
    let a0 = l.subrange(0, p - 1);
    let c0 = l.subrange(p + 1, l.len() as int);
    let left = l[p - 1];
    let right = l[p];
    let l1 = a0 + seq![merged] + c0;
    assert(l =~= a0 + seq![left] + seq![right] + c0);
    lemma_free_set_concat(a0 + seq![merged], c0);
    lemma_free_set_concat(a0, seq![merged]);
    lemma_free_set_concat(a0 + seq![left] + seq![right], c0);
    lemma_free_set_concat(a0 + seq![left], seq![right]);
    lemma_free_set_concat(a0, seq![left]);
    lemma_free_set_single(merged);
    lemma_free_set_single(left);
    lemma_free_set_single(right);
    assert(range_set(merged.idx as int, merged.len as int) =~= range_set(left.idx as int, left.len as int).union(
        range_set(idx, len),
    ).union(range_set(right.idx as int, right.len as int)));
    assert(free_set(l1) =~= free_set(l).union(range_set(idx, len)));
    assert forall|x: int| 0 <= x < l1.len() implies #[trigger] l1[x] == (if x < p - 1 {
        l[x]
    } else if x == p - 1 {
        merged
    } else {
        l[x + 1]
    }) by {}
    assert forall|x: int, y: int| 0 <= x < y < l1.len() implies #[trigger] l1[x].idx + l1[x].len
        < #[trigger] l1[y].idx by {
        if x == p - 1 {
            assert(l[p].idx + l[p].len < l[y + 1].idx);
        }
    }
}

/// Merging with the block before keeps the list well formed and frees the range.
proof fn lemma_merge_left(l: Seq<MrPgtFreeBlk>, p: int, idx: int, len: int, merged: MrPgtFreeBlk)
    requires
        insert_point(l, p, idx, len),
        p > 0,
        l[p - 1].idx + l[p - 1].len == idx,
        p < l.len() ==> idx + len < l[p].idx,
        merged.idx == l[p - 1].idx,
        merged.len == l[p - 1].len + len,
    ensures
        ({
            let l1 = l.update(p - 1, merged);
            free_list_wf(l1) && free_set(l1) == free_set(l).union(range_set(idx, len))
        }),
{
    let a0 = l.subrange(0, p - 1);
    let c = l.subrange(p, l.len() as int);
    let left = l[p - 1];
    let l1 = l.update(p - 1, merged);
    assert(l1 =~= a0 + seq![merged] + c);
    assert(l =~= a0 + seq![left] + c);
    lemma_free_set_concat(a0 + seq![merged], c);
    lemma_free_set_concat(a0, seq![merged]);
    lemma_free_set_concat(a0 + seq![left], c);
    lemma_free_set_concat(a0, seq![left]);
    lemma_free_set_single(merged);
    lemma_free_set_single(left);
    assert(range_set(merged.idx as int, merged.len as int) =~= range_set(left.idx as int, left.len as int).union(
        range_set(idx, len),
    ));
    assert(free_set(l1) =~= free_set(l).union(range_set(idx, len)));
    assert forall|x: int, y: int| 0 <= x < y < l1.len() implies #[trigger] l1[x].idx + l1[x].len
        < #[trigger] l1[y].idx by {
        if x == p - 1 && y > p {
            assert(l[p].idx + l[p].len < l[y].idx);
        }
    }
}

/// Merging with the block after keeps the list well formed and frees the range.
proof fn lemma_merge_right(l: Seq<MrPgtFreeBlk>, p: int, idx: int, len: int, merged: MrPgtFreeBlk)
    requires
        insert_point(l, p, idx, len),
        p < l.len(),
        p > 0 ==> l[p - 1].idx + l[p - 1].len < idx,
        idx + len == l[p].idx,
        merged.idx == idx,
        merged.len == len + l[p].len,
    ensures
        ({
            let l1 = l.update(p, merged);
            free_list_wf(l1) && free_set(l1) == free_set(l).union(range_set(idx, len))
        }),
{
    let a = l.subrange(0, p);
    let c0 = l.subrange(p + 1, l.len() as int);
    let right = l[p];
    let l1 = l.update(p, merged);
    assert(l1 =~= a + seq![merged] + c0);
    assert(l =~= a + seq![right] + c0);
    lemma_free_set_concat(a + seq![merged], c0);
    lemma_free_set_concat(a, seq![merged]);
    lemma_free_set_concat(a + seq![right], c0);
    lemma_free_set_concat(a, seq![right]);
    lemma_free_set_single(merged);
    lemma_free_set_single(right);
    assert(range_set(merged.idx as int, merged.len as int) =~= range_set(idx, len).union(
        range_set(right.idx as int, right.len as int),
    ));
    assert(free_set(l1) =~= free_set(l).union(range_set(idx, len)));
    assert forall|x: int, y: int| 0 <= x < y < l1.len() implies #[trigger] l1[x].idx + l1[x].len
        < #[trigger] l1[y].idx by {
        if y == p && x < p - 1 {
            assert(l[x].idx + l[x].len < l[p - 1].idx);
        }
    }
}

/// Inserting a block that touches no neighbour keeps the list well formed and frees the range.
proof fn lemma_insert_block(l: Seq<MrPgtFreeBlk>, p: int, idx: int, len: int, blk: MrPgtFreeBlk)
    requires
        insert_point(l, p, idx, len),
        p > 0 ==> l[p - 1].idx + l[p - 1].len < idx,
        p < l.len() ==> idx + len < l[p].idx,
        blk.idx == idx,
        blk.len == len,
    ensures
        ({
            let l1 = l.insert(p, blk);
            free_list_wf(l1) && free_set(l1) == free_set(l).union(range_set(idx, len))
        }),
{
    let a = l.subrange(0, p);
    let c = l.subrange(p, l.len() as int);
    let l1 = l.insert(p, blk);
    assert(l1 =~= a + seq![blk] + c);
    assert(l =~= a + c);
    lemma_free_set_concat(a + seq![blk], c);
    lemma_free_set_concat(a, seq![blk]);
    lemma_free_set_concat(a, c);
    lemma_free_set_single(blk);
    assert(free_set(l1) =~= free_set(l).union(range_set(idx, len)));
    assert forall|x: int| 0 <= x < l1.len() implies #[trigger] l1[x] == (if x < p {
        l[x]
    } else if x == p {
        blk
    } else {
        l[x - 1]
    }) by {}
    assert forall|x: int, y: int| 0 <= x < y < l1.len() implies #[trigger] l1[x].idx + l1[x].len
        < #[trigger] l1[y].idx by {
        if x == p && y > p + 1 {
            assert(l[p].idx + l[p].len < l[y - 1].idx);
        }
        if y == p && x < p - 1 {
            assert(l[x].idx + l[x].len < l[p - 1].idx);
        }
    }
}

impl MrPgt {
    /// Returns the entries `idx .. idx + len` to the free list, merged with the
    /// free blocks that touch them.
    pub fn dealloc(&mut self, idx: usize, len: usize)
        requires
            old(self).wf(),
            idx + len <= MR_PGT_SIZE,
            range_set(idx as int, len as int).disjoint(free_set(old(self).free_view())),
        ensures
            final(self).wf(),
            final(self).table_view() == old(self).table_view(),
            free_set(final(self).free_view()) == free_set(old(self).free_view()).union(
                range_set(idx as int, len as int),
            ),
    {
        let ghost l = self.free_blk_list@;
        if len == 0 {
            assert(free_set(l).union(range_set(idx as int, len as int)) =~= free_set(l));
            return;
        }
        let n = self.free_blk_list.len();
        let mut p: usize = 0;
        while p < n && self.free_blk_list[p].idx <= idx
            invariant
                n == l.len(),
                self.free_blk_list@ == l,
                p <= n,
                forall|k: int| 0 <= k < p ==> #[trigger] l[k].idx <= idx,
            decreases n - p,
        {
            p = p + 1;
        }
        proof {
            if p > 0 && l[p - 1].idx + l[p - 1].len > idx {
                assert(covers(l[p - 1], idx as int));
                assert(free_set(l).contains(idx as int));
                assert(range_set(idx as int, len as int).contains(idx as int));
            }
            if p < n && l[p as int].idx < idx + len {
                assert(covers(l[p as int], l[p as int].idx as int));
                assert(free_set(l).contains(l[p as int].idx as int));
                assert(range_set(idx as int, len as int).contains(l[p as int].idx as int));
            }
            assert(insert_point(l, p as int, idx as int, len as int));
        }
        let merge_left = p > 0 && self.free_blk_list[p - 1].idx + self.free_blk_list[p - 1].len == idx;
        let merge_right = p < n && idx + len == self.free_blk_list[p].idx;
        if merge_left && merge_right {
            let left = self.free_blk_list[p - 1];
            let right = self.free_blk_list[p];
            let merged = MrPgtFreeBlk { idx: left.idx, len: left.len + len + right.len };
            self.free_blk_list.set(p - 1, merged);
            self.free_blk_list.remove(p);
            proof {
                lemma_merge_both(l, p as int, idx as int, len as int, merged);
                assert(self.free_blk_list@ =~= l.subrange(0, p - 1) + seq![merged] + l.subrange(
                    p + 1,
                    l.len() as int,
                ));
            }
        } else if merge_left {
            let left = self.free_blk_list[p - 1];
            let merged = MrPgtFreeBlk { idx: left.idx, len: left.len + len };
            self.free_blk_list.set(p - 1, merged);
            proof {
                lemma_merge_left(l, p as int, idx as int, len as int, merged);
            }
        } else if merge_right {
            let right = self.free_blk_list[p];
            let merged = MrPgtFreeBlk { idx, len: len + right.len };
            self.free_blk_list.set(p, merged);
            proof {
                lemma_merge_right(l, p as int, idx as int, len as int, merged);
            }
        } else {
            let blk = MrPgtFreeBlk { idx, len };
            self.free_blk_list.insert(p, blk);
            proof {
                lemma_insert_block(l, p as int, idx as int, len as int, blk);
            }
        }
    }
}

/// Coalescing: once every entry is free again, whatever allocations and
/// deallocations led there, the free list is the single block that spans the
/// whole table.
pub proof fn lemma_pgt_coalesced(pgt: MrPgt)
    requires
        pgt.wf(),
        free_set(pgt.free_view()) == range_set(0, MR_PGT_SIZE as int),
    ensures
        pgt.free_view() == seq![MrPgtFreeBlk { idx: 0, len: MR_PGT_SIZE }],
{
    let l = pgt.free_view();
    assert(range_set(0, MR_PGT_SIZE as int).contains(0));
    assert(l.len() >= 1);
    if l.len() >= 2 {
        let g = l[0].idx + l[0].len;
        assert(l[0].idx + l[0].len < l[1].idx);
        assert(l[1].len > 0 && l[1].idx + l[1].len <= MR_PGT_SIZE);
        assert(range_set(0, MR_PGT_SIZE as int).contains(g as int));
        let j = choose|j: int| 0 <= j < l.len() && covers(#[trigger] l[j], g as int);
        if j >= 2 {
            assert(l[1].idx + l[1].len < l[j].idx);
        }
        assert(false);
    }
    let last = MR_PGT_SIZE - 1;
    assert(range_set(0, MR_PGT_SIZE as int).contains(last as int));
    let j0 = choose|j: int| 0 <= j < l.len() && covers(#[trigger] l[j], 0);
    let j1 = choose|j: int| 0 <= j < l.len() && covers(#[trigger] l[j], last as int);
    assert(j0 == 0 && j1 == 0);
    assert(l =~= seq![MrPgtFreeBlk { idx: 0, len: MR_PGT_SIZE }]);
}

} // verus!
