//! Memory regions: the region table, the keys that name its slots, and the
//! two-phase registration with the device. Each phase that waits for the
//! device is a step of its own: a step takes the device's answer and returns
//! the next descriptor to send or the outcome.
use vstd::prelude::*;

use crate::error::{AddressKind, CtrlOpKind, Error, Resource};
use crate::pgt::{first_fit, free_set, range_set, MrPgt};
use crate::{MR_KEY_IDX_BIT_CNT, MR_PGT_SIZE, MR_TABLE_SIZE, PAGE_SIZE};

verus! {

/// A memory-region key: the table index in the upper bits, a random tag below.
#[derive(Debug, Clone, Copy, PartialEq, Eq, Structural)]
pub struct Key {
    key: u32,
}

/// The table index that a key names.
pub open spec fn key_index(k: u32) -> int {
    k as int / 0x100_0000
}

impl Key {
    pub closed spec fn value(&self) -> u32 {
        self.key
    }

    pub fn new(key: u32) -> (r: Key)
        ensures
            r.value() == key,
    {
        Key { key }
    }

    pub fn get(&self) -> (r: u32)
        ensures
            r == self.value(),
    {
        self.key
    }
}

/// The key of table slot `mr_idx` with the upper bits of `random` as its tag.
pub fn make_key(mr_idx: usize, random: u32) -> (r: Key)
    requires
        mr_idx < MR_TABLE_SIZE,
    ensures
        key_index(r.value()) == mr_idx,
        r.value() % 0x100_0000 == random / 0x100,
{
    let key_idx: u32 = (mr_idx as u32) << (32 - MR_KEY_IDX_BIT_CNT);
    let key_secret: u32 = random >> MR_KEY_IDX_BIT_CNT;
    let i = mr_idx as u32;
    assert(key_idx == i * 0x100_0000 && key_secret == random / 0x100 && key_secret < 0x100_0000) by (bit_vector)
        requires
            i < 64,
            key_idx == i << 24u32,
            key_secret == random >> 8u32,
    ;
    assert((key_idx | key_secret) == key_idx + key_secret) by (bit_vector)
        requires
            key_idx == i * 0x100_0000,
            i < 64,
            key_secret < 0x100_0000,
    ;
    Key::new(key_idx | key_secret)
}

/// The table index that `key` names.
pub fn get_key_index(key: Key) -> (r: u32)
    ensures
        r == key_index(key.value()),
{
    let k = key.get();
    let r = k >> (32 - MR_KEY_IDX_BIT_CNT);
    assert(r == k / 0x100_0000) by (bit_vector)
        requires
            r == k >> 24u32,
    ;
    r
}

/// Relies on `rand::thread_rng().next_u32()` for the random tag of a key;
/// nothing is known of the value.
#[verifier::external_body]
fn random_u32() -> u32 {
    rand::RngCore::next_u32(&mut rand::thread_rng())
}

/// Protection domain.
#[derive(Debug, Clone, Copy, PartialEq, Eq, Structural)]
pub struct Pd {
    pub handle: u32,
}

/// Memory Region, named by its key.
#[derive(Debug, Clone, Copy, PartialEq, Eq, Structural)]
pub struct Mr {
    key: Key,
}

impl Mr {
    pub closed spec fn key_value(&self) -> u32 {
        self.key.value()
    }

    /// Get the key of the Mr
    pub fn get_key(&self) -> (r: Key)
        ensures
            r.value() == self.key_value(),
    {
        self.key
    }
}

/// What the table knows of a region.
#[derive(Debug, Clone, Copy, PartialEq, Eq, Structural)]
pub struct MrCtx {
    pub key: u32,
    pub pd: Pd,
    pub addr: u64,
    pub len: u32,
    pub pgt_offset: usize,
    pub pgte_cnt: usize,
    pub pg_size: u32,
    pub acc_flags: u8,
}

/// A slot of the memory-region table.
#[derive(Debug, Clone, Copy, PartialEq, Eq, Structural)]
pub enum MrSlot {
    Free,
    /// Taken by a registration that waits for the device.
    Reserved(MrCtx),
    Registered(MrCtx),
}

/// The region of a slot that is not free.
pub open spec fn slot_ctx(s: MrSlot) -> MrCtx {
    match s {
        MrSlot::Reserved(c) => c,
        MrSlot::Registered(c) => c,
        MrSlot::Free => arbitrary(),
    }
}

/// The page-table entries of a region.
pub open spec fn ctx_range(c: MrCtx) -> Set<int> {
    range_set(c.pgt_offset as int, c.pgte_cnt as int)
}

/// A control descriptor that writes page-table entries to the device.
#[derive(Debug, Clone, Copy, PartialEq, Eq, Structural)]
pub struct ToCardCtrlRbDescUpdatePageTable {
    pub op_id: u32,
    /// Physical address of the first entry to copy.
    pub start_addr: u64,
    pub pgt_idx: u32,
    pub pgte_cnt: u32,
}

/// A control descriptor that writes a memory-region table entry to the device.
#[derive(Debug, Clone, Copy, PartialEq, Eq, Structural)]
pub struct ToCardCtrlRbDescUpdateMrTable {
    pub op_id: u32,
    pub addr: u64,
    pub len: u32,
    pub key: u32,
    pub pd_hdl: u32,
    pub acc_flags: u8,
    pub pgt_offset: u32,
}

/// A registration between its steps.
#[derive(Debug, Clone, Copy, PartialEq, Eq, Structural)]
pub struct PendingMr {
    pub mr_idx: usize,
    pub ctx: MrCtx,
}

/// Number of pages of `pg_size` bytes that `len` bytes span.
pub open spec fn page_count_spec(len: u32, pg_size: u32) -> int {
    (len + pg_size - 1) / pg_size as int
}

/// A valid page size: a power of two of at least 2 MiB.
pub open spec fn valid_page_size(pg_size: u32) -> bool {
    pg_size >= PAGE_SIZE && pg_size & ((pg_size - 1) as u32) == 0
}

/// Number of pages of `pg_size` bytes that `len` bytes span.
pub fn page_count(len: u32, pg_size: u32) -> (r: u32)
    requires
        pg_size > 0,
    ensures
        r == page_count_spec(len, pg_size),
        r <= len,
{
    let q = len / pg_size;
    proof {
        vstd::arithmetic::div_mod::lemma_fundamental_div_mod(len as int, pg_size as int);
        assert(len % pg_size != 0 ==> q < len) by (nonlinear_arith)
            requires
                len == pg_size * q + len % pg_size,
                0 <= len % pg_size < pg_size,
                pg_size > 0,
        ;
    }
    let r = if len % pg_size == 0 {
        q
    } else {
        q + 1
    };
    proof {
        vstd::arithmetic::div_mod::lemma_fundamental_div_mod(len as int, pg_size as int);
        vstd::arithmetic::div_mod::lemma_fundamental_div_mod(len + pg_size - 1, pg_size as int);
        assert(r == page_count_spec(len, pg_size) && r <= len) by (nonlinear_arith)
            requires
                len == pg_size * q + len % pg_size,
                0 <= len % pg_size < pg_size,
                len + pg_size - 1 == pg_size * ((len + pg_size - 1) / pg_size as int) + (len + pg_size - 1) % (
                pg_size as int),
                0 <= (len + pg_size - 1) % (pg_size as int) < pg_size,
                r == if len % pg_size == 0 { q as int } else { q + 1 },
                page_count_spec(len, pg_size) == (len + pg_size - 1) / pg_size as int,
                pg_size > 0,
        ;
    }
    r
}

/// Taken slots hold keys with their own index and disjoint runs of allocated
/// page-table entries; `free` is the set of free entries.
pub open spec fn tables_wf(slots: Seq<MrSlot>, free: Set<int>) -> bool {
    &&& slots.len() == MR_TABLE_SIZE
    &&& forall|i: int|
        0 <= i < slots.len() && !(#[trigger] slots[i] is Free) ==> {
            let c = slot_ctx(slots[i]);
            &&& key_index(c.key) == i
            &&& c.pgt_offset + c.pgte_cnt <= MR_PGT_SIZE
            &&& ctx_range(c).disjoint(free)
        }
    &&& forall|i: int, j: int|
        0 <= i < slots.len() && 0 <= j < slots.len() && i != j && !(#[trigger] slots[i] is Free) && !(
        #[trigger] slots[j] is Free) ==> ctx_range(slot_ctx(slots[i])).disjoint(ctx_range(slot_ctx(slots[j])))
}

proof fn lemma_tables_reserve(slots: Seq<MrSlot>, free: Set<int>, idx: int, c: MrCtx)
    requires
        tables_wf(slots, free),
        0 <= idx < slots.len(),
        slots[idx] is Free,
        key_index(c.key) == idx,
        c.pgt_offset + c.pgte_cnt <= MR_PGT_SIZE,
        ctx_range(c).subset_of(free),
    ensures
        tables_wf(slots.update(idx, MrSlot::Reserved(c)), free.difference(ctx_range(c))),
{
    let s1 = slots.update(idx, MrSlot::Reserved(c));
    let f1 = free.difference(ctx_range(c));
    assert forall|i: int| 0 <= i < s1.len() && !(#[trigger] s1[i] is Free) implies ctx_range(slot_ctx(s1[i])).disjoint(f1) by {}
    assert forall|i: int, j: int|
        0 <= i < s1.len() && 0 <= j < s1.len() && i != j && !(#[trigger] s1[i] is Free) && !(
        #[trigger] s1[j] is Free) implies ctx_range(slot_ctx(s1[i])).disjoint(ctx_range(slot_ctx(s1[j]))) by {
        if i == idx {
            assert(ctx_range(slot_ctx(slots[j])).disjoint(free));
        } else if j == idx {
            assert(ctx_range(slot_ctx(slots[i])).disjoint(free));
        }
    }
}

proof fn lemma_tables_release(slots: Seq<MrSlot>, free: Set<int>, idx: int)
    requires
        tables_wf(slots, free),
        0 <= idx < slots.len(),
        !(slots[idx] is Free),
    ensures
        ctx_range(slot_ctx(slots[idx])).disjoint(free),
        tables_wf(slots.update(idx, MrSlot::Free), free.union(ctx_range(slot_ctx(slots[idx])))),
{
    let s1 = slots.update(idx, MrSlot::Free);
    let f1 = free.union(ctx_range(slot_ctx(slots[idx])));
    assert forall|i: int| 0 <= i < s1.len() && !(#[trigger] s1[i] is Free) implies ctx_range(slot_ctx(s1[i])).disjoint(f1) by {
        assert(i != idx);
        assert(ctx_range(slot_ctx(slots[i])).disjoint(ctx_range(slot_ctx(slots[idx]))));
    }
    assert forall|i: int, j: int|
        0 <= i < s1.len() && 0 <= j < s1.len() && i != j && !(#[trigger] s1[i] is Free) && !(
        #[trigger] s1[j] is Free) implies ctx_range(slot_ctx(s1[i])).disjoint(ctx_range(slot_ctx(s1[j]))) by {
        assert(!(slots[i] is Free) && !(slots[j] is Free));
    }
}

proof fn lemma_tables_promote(slots: Seq<MrSlot>, free: Set<int>, idx: int, c: MrCtx)
    requires
        tables_wf(slots, free),
        0 <= idx < slots.len(),
        slots[idx] == MrSlot::Reserved(c),
    ensures
        tables_wf(slots.update(idx, MrSlot::Registered(c)), free),
{
    let s1 = slots.update(idx, MrSlot::Registered(c));
    assert forall|i: int, j: int|
        0 <= i < s1.len() && 0 <= j < s1.len() && i != j && !(#[trigger] s1[i] is Free) && !(
        #[trigger] s1[j] is Free) implies ctx_range(slot_ctx(s1[i])).disjoint(ctx_range(slot_ctx(s1[j]))) by {
        assert(!(slots[i] is Free) && !(slots[j] is Free));
    }
}

/// The memory-region and protection-domain tables with the page table.
pub struct Device {
    mr_table: Vec<MrSlot>,
    pds: Vec<u32>,
    next_pd: u32,
    pgt: MrPgt,
    /// Physical address of the first page-table entry.
    pgt_pa: u64,
    next_ctrl_op_id: u32,
}

impl Device {
    pub closed spec fn slots(&self) -> Seq<MrSlot> {
        self.mr_table@
    }

    pub closed spec fn pd_handles(&self) -> Seq<u32> {
        self.pds@
    }

    pub closed spec fn page_table(&self) -> MrPgt {
        self.pgt
    }

    pub closed spec fn op_id(&self) -> u32 {
        self.next_ctrl_op_id
    }

    pub closed spec fn pgt_pa_spec(&self) -> u64 {
        self.pgt_pa
    }

    /// Every slot that is taken holds a key with its own index and a run of
    /// page-table entries that is allocated and shared with no other slot.
    pub closed spec fn wf(&self) -> bool {
        &&& self.mr_table@.len() == MR_TABLE_SIZE
        &&& self.pgt.wf()
        &&& tables_wf(self.mr_table@, free_set(self.pgt.free_view()))
        &&& self.pgt_pa + 8 * MR_PGT_SIZE <= u64::MAX
    }

    /// Empty tables; `pgt_pa` is the physical address of the page table.
    pub fn new(pgt_pa: u64) -> (r: Device)
        requires
            pgt_pa + 8 * MR_PGT_SIZE <= u64::MAX,
        ensures
            r.wf(),
            r.slots() == Seq::new(MR_TABLE_SIZE as nat, |i: int| MrSlot::Free),
            r.pd_handles() == Seq::<u32>::empty(),
    {
        let mut mr_table: Vec<MrSlot> = Vec::new();
        let mut i: usize = 0;
        while i < MR_TABLE_SIZE
            invariant
                i <= MR_TABLE_SIZE,
                mr_table@ == Seq::new(i as nat, |k: int| MrSlot::Free),
            decreases MR_TABLE_SIZE - i,
        {
            mr_table.push(MrSlot::Free);
            assert(mr_table@ =~= Seq::new((i + 1) as nat, |k: int| MrSlot::Free));
            i = i + 1;
        }
        Device { mr_table, pds: Vec::new(), next_pd: 0, pgt: MrPgt::new(), pgt_pa, next_ctrl_op_id: 0 }
    }

    /// Slot `i` of the region table.
    pub fn mr_slot(&self, i: usize) -> (r: MrSlot)
        requires
            self.wf(),
            i < MR_TABLE_SIZE,
        ensures
            r == self.slots()[i as int],
    {
        self.mr_table[i]
    }

    /// A new protection domain.
    pub fn alloc_pd(&mut self) -> (r: Pd)
        requires
            old(self).wf(),
        ensures
            final(self).wf(),
            final(self).pd_handles() == old(self).pd_handles().push(r.handle),
            final(self).slots() == old(self).slots(),
    {
        let handle = self.next_pd;
        self.next_pd = if self.next_pd == u32::MAX {
            0
        } else {
            self.next_pd + 1
        };
        self.pds.push(handle);
        Pd { handle }
    }

    /// Whether `pd` was allocated.
    fn pd_valid(&self, pd: Pd) -> (r: bool)
        ensures
            r == self.pd_handles().contains(pd.handle),
    {
        let mut i: usize = 0;
        while i < self.pds.len()
            invariant
                i <= self.pds@.len(),
                forall|k: int| 0 <= k < i ==> self.pds@[k] != pd.handle,
            decreases self.pds@.len() - i,
        {
            if self.pds[i] == pd.handle {
                return true;
            }
            i = i + 1;
        }
        false
    }

    /// The next control operation id; ids wrap around.
    fn get_ctrl_op_id(&mut self) -> (r: u32)
        ensures
            r == old(self).op_id(),
            final(self).op_id() == next_op_id(old(self).op_id()),
            final(self).mr_table@ == old(self).mr_table@,
            final(self).pds@ == old(self).pds@,
            final(self).pgt == old(self).pgt,
            final(self).pgt_pa == old(self).pgt_pa,
    {
        let id = self.next_ctrl_op_id;
        self.next_ctrl_op_id = if id == u32::MAX {
            0
        } else {
            id + 1
        };
        id
    }
}

/// Some free block holds `n` entries.
pub open spec fn first_fit_ok(pgt: MrPgt, n: usize) -> bool {
    first_fit(pgt.free_view(), n as int) >= 0
}

/// The first index of the first free block that holds `n` entries.
pub open spec fn first_fit_idx(pgt: MrPgt, n: usize) -> usize {
    pgt.free_view()[first_fit(pgt.free_view(), n as int)].idx
}

proof fn lemma_tables_shrink_free(slots: Seq<MrSlot>, free: Set<int>, smaller: Set<int>)
    requires
        tables_wf(slots, free),
        smaller.subset_of(free),
    ensures
        tables_wf(slots, smaller),
{
}

/// Every page of a region starting at `addr` fits the address space and is
/// aligned, and so is every physical address of `pas`.
pub open spec fn pages_aligned(addr: u64, pg_size: u32, pas: Seq<u64>) -> bool {
    forall|i: int|
        #![trigger pas[i]]
        0 <= i < pas.len() ==> page_ok(addr, pg_size, i, pas[i])
}

/// The virtual address of page `i` of a region starting at `addr`.
pub open spec fn page_va(addr: u64, pg_size: u32, i: int) -> int {
    addr + i * pg_size
}

/// Page `i` of a region starting at `addr` fits the address space, and it and
/// its physical address `pa` are aligned.
pub open spec fn page_ok(addr: u64, pg_size: u32, i: int, pa: u64) -> bool {
    page_va(addr, pg_size, i) <= u64::MAX && page_va(addr, pg_size, i) % (pg_size as int) == 0 && pa % (
    pg_size as u64) == 0
}

/// Index of the first free slot, or -1.
pub open spec fn first_free_slot(slots: Seq<MrSlot>, n: int) -> int
    decreases n,
{
    if n <= 0 {
        -1
    } else if first_free_slot(slots, n - 1) >= 0 {
        first_free_slot(slots, n - 1)
    } else if slots[n - 1] is Free {
        n - 1
    } else {
        -1
    }
}

proof fn lemma_first_free_slot(slots: Seq<MrSlot>, n: int)
    requires
        0 <= n <= slots.len(),
    ensures
        -1 <= first_free_slot(slots, n) < n,
        first_free_slot(slots, n) >= 0 ==> slots[first_free_slot(slots, n)] is Free,
        forall|k: int| 0 <= k < n && (first_free_slot(slots, n) < 0 || k < first_free_slot(slots, n)) ==> !(
        #[trigger] slots[k] is Free),
    decreases n,
{
    if n > 0 {
        lemma_first_free_slot(slots, n - 1);
    }
}

/// A registration step: slot `idx` goes from free to reserved for `c`, and the
/// key of `c` names that slot.
pub open spec fn reserves(before: Seq<MrSlot>, after: Seq<MrSlot>, idx: int, c: MrCtx) -> bool {
    &&& 0 <= idx < before.len()
    &&& before[idx] is Free
    &&& after == before.update(idx, MrSlot::Reserved(c))
    &&& key_index(c.key) == idx
}

/// Key uniqueness: of two registrations, one after the other, the second
/// never takes the slot of the first, so their keys name different slots.
pub proof fn lemma_reg_keys_distinct(
    s0: Seq<MrSlot>,
    s1: Seq<MrSlot>,
    s2: Seq<MrSlot>,
    i1: int,
    c1: MrCtx,
    i2: int,
    c2: MrCtx,
)
    requires
        reserves(s0, s1, i1, c1),
        reserves(s1, s2, i2, c2),
    ensures
        key_index(c1.key) != key_index(c2.key),
{
    assert(s1[i1] == MrSlot::Reserved(c1));
}

/// Live regions of a well-formed table have keys that name different slots.
pub proof fn lemma_live_keys_distinct(d: Device, i: int, j: int)
    requires
        d.wf(),
        0 <= i < MR_TABLE_SIZE,
        0 <= j < MR_TABLE_SIZE,
        i != j,
        !(d.slots()[i] is Free),
        !(d.slots()[j] is Free),
    ensures
        key_index(slot_ctx(d.slots()[i]).key) != key_index(slot_ctx(d.slots()[j]).key),
{
    assert(!(d.mr_table@[i] is Free) && !(d.mr_table@[j] is Free));
}

impl Device {
    /// Frees slot `idx` and its page-table entries.
    fn release_slot(&mut self, idx: usize)
        requires
            old(self).wf(),
            idx < MR_TABLE_SIZE,
            !(old(self).slots()[idx as int] is Free),
        ensures
            final(self).wf(),
            final(self).slots() == old(self).slots().update(idx as int, MrSlot::Free),
            free_set(final(self).page_table().free_view()) == free_set(old(self).page_table().free_view()).union(
                ctx_range(slot_ctx(old(self).slots()[idx as int])),
            ),
            final(self).pd_handles() == old(self).pd_handles(),
            final(self).op_id() == old(self).op_id(),
    {
        let ctx = match self.mr_table[idx] {
            MrSlot::Reserved(c) => c,
            MrSlot::Registered(c) => c,
            MrSlot::Free => {
                return;
            },
        };
        proof {
            lemma_tables_release(self.mr_table@, free_set(self.pgt.free_view()), idx as int);
        }
        self.pgt.dealloc(ctx.pgt_offset, ctx.pgte_cnt);
        self.mr_table.set(idx, MrSlot::Free);
    }

    /// Index of the first free slot of the region table.
    fn find_free_slot(&self) -> (r: Option<usize>)
        requires
            self.wf(),
        ensures
            first_free_slot(self.slots(), MR_TABLE_SIZE as int) < 0 ==> r is None,
            first_free_slot(self.slots(), MR_TABLE_SIZE as int) >= 0 ==> r == Some(
                first_free_slot(self.slots(), MR_TABLE_SIZE as int) as usize,
            ),
    {
        proof {
            lemma_first_free_slot(self.mr_table@, MR_TABLE_SIZE as int);
        }
        let mut i: usize = 0;
        while i < MR_TABLE_SIZE
            invariant
                i <= MR_TABLE_SIZE,
                self.mr_table@.len() == MR_TABLE_SIZE,
                forall|k: int| 0 <= k < i ==> !(#[trigger] self.mr_table@[k] is Free),
            decreases MR_TABLE_SIZE - i,
        {
            match self.mr_table[i] {
                MrSlot::Free => {
                    proof {
                        lemma_first_free_slot(self.mr_table@, MR_TABLE_SIZE as int);
                    }
                    return Some(i);
                },
                _ => {},
            }
            i = i + 1;
        }
        None
    }

    /// Allocates the page-table entries of a region starting at `addr` and
    /// writes the physical address of each page, `pas`, into them; rolls the
    /// allocation back on an address that does not fit or is not aligned.
    fn register_page_table(&mut self, addr: u64, pgte_cnt: usize, pg_size: u32, pas: &Vec<u64>) -> (r: Result<
        usize,
        Error,
    >)
        requires
            old(self).wf(),
            pg_size > 0,
            pas@.len() == pgte_cnt,
            pgte_cnt <= u32::MAX,
        ensures
            final(self).wf(),
            final(self).slots() == old(self).slots(),
            final(self).pd_handles() == old(self).pd_handles(),
            final(self).op_id() == old(self).op_id(),
            final(self).pgt_pa_spec() == old(self).pgt_pa_spec(),
            first_fit_ok(old(self).page_table(), pgte_cnt) && pages_aligned(addr, pg_size, pas@) <==> r is Ok,
            !first_fit_ok(old(self).page_table(), pgte_cnt) ==> r == Err::<usize, Error>(
                Error::ResourceNoAvailable(Resource::MrPageTable),
            ),
            r is Err ==> free_set(final(self).page_table().free_view()) == free_set(
                old(self).page_table().free_view(),
            ),
            r matches Ok(off) ==> off == first_fit_idx(old(self).page_table(), pgte_cnt) && off + pgte_cnt
                <= MR_PGT_SIZE && range_set(off as int, pgte_cnt as int).subset_of(
                free_set(old(self).page_table().free_view()),
            ) && free_set(final(self).page_table().free_view()) == free_set(
                old(self).page_table().free_view(),
            ).difference(range_set(off as int, pgte_cnt as int)) && (forall|i: int|
                0 <= i < pgte_cnt ==> #[trigger] final(self).page_table().table_view()[off + i] == pas@[i]) && (
            forall|k: int|
                0 <= k < MR_PGT_SIZE && !(off <= k < off + pgte_cnt) ==> #[trigger] final(self).page_table().table_view()[k] == old(self).page_table().table_view()[k]),
    {
        let ghost free0 = free_set(self.pgt.free_view());
        let pgt_offset = match self.pgt.allocate(pgte_cnt) {
            Ok(o) => o,
            Err(e) => return Err(e),
        };
        let ghost free1 = free_set(self.pgt.free_view());
        let mut i: usize = 0;
        while i < pgte_cnt
            invariant
                i <= pgte_cnt,
                pas@.len() == pgte_cnt,
                pgte_cnt <= u32::MAX,
                pg_size > 0,
                pgt_offset + pgte_cnt <= MR_PGT_SIZE,
                self.pgt.wf(),
                free_set(self.pgt.free_view()) == free1,
                free1 == free0.difference(range_set(pgt_offset as int, pgte_cnt as int)),
                range_set(pgt_offset as int, pgte_cnt as int).subset_of(free0),
                free0 == free_set(old(self).pgt.free_view()),
                tables_wf(self.mr_table@, free0),
                self.mr_table@.len() == MR_TABLE_SIZE,
                self.pgt_pa + 8 * MR_PGT_SIZE <= u64::MAX,
                first_fit_ok(old(self).page_table(), pgte_cnt),
                self.mr_table@ == old(self).mr_table@,
                self.pds@ == old(self).pds@,
                self.next_ctrl_op_id == old(self).next_ctrl_op_id,
                self.pgt_pa == old(self).pgt_pa,
                forall|k: int| 0 <= k < i ==> page_ok(addr, pg_size, k, #[trigger] pas@[k]),
                forall|k: int| 0 <= k < i ==> #[trigger] self.pgt.table_view()[pgt_offset + k] == pas@[k],
                forall|k: int|
                    0 <= k < MR_PGT_SIZE && !(pgt_offset <= k < pgt_offset + pgte_cnt) ==> #[trigger] self.pgt.table_view()[k]
                        == old(self).pgt.table_view()[k],
            decreases pgte_cnt - i,
        {
            proof {
                assert((i as int) * (pg_size as int) <= 0xffff_ffff * 0xffff_ffff) by (nonlinear_arith)
                    requires
                        i <= 0xffff_ffff,
                        pg_size <= 0xffff_ffff,
                ;
            }
            let step: u64 = (i as u64) * (pg_size as u64);
            assert(step == (i as int) * (pg_size as int));
            assert(page_va(addr, pg_size, i as int) == addr + step);
            if addr > u64::MAX - step {
                proof {
                    assert(!page_ok(addr, pg_size, i as int, pas@[i as int]));
                    assert(!pages_aligned(addr, pg_size, pas@));
                    assert forall|x: int| range_set(pgt_offset as int, pgte_cnt as int).contains(x) implies !free1.contains(
                        x,
                    ) by {}
                }
                self.pgt.dealloc(pgt_offset, pgte_cnt);
                assert(free_set(self.pgt.free_view()) =~= free0);
                return Err(Error::NotSupport);
            }
            let va = addr + step;
            if va % (pg_size as u64) != 0 {
                proof {
                    assert(!page_ok(addr, pg_size, i as int, pas@[i as int]));
                    assert(!pages_aligned(addr, pg_size, pas@));
                    assert forall|x: int| range_set(pgt_offset as int, pgte_cnt as int).contains(x) implies !free1.contains(
                        x,
                    ) by {}
                }
                self.pgt.dealloc(pgt_offset, pgte_cnt);
                assert(free_set(self.pgt.free_view()) =~= free0);
                return Err(Error::AddressNotAlign(AddressKind::Va, va));
            }
            let pa = pas[i];
            if pa % (pg_size as u64) != 0 {
                proof {
                    assert(!page_ok(addr, pg_size, i as int, pas@[i as int]));
                    assert(!pages_aligned(addr, pg_size, pas@));
                    assert forall|x: int| range_set(pgt_offset as int, pgte_cnt as int).contains(x) implies !free1.contains(
                        x,
                    ) by {}
                }
                self.pgt.dealloc(pgt_offset, pgte_cnt);
                assert(free_set(self.pgt.free_view()) =~= free0);
                return Err(Error::AddressNotAlign(AddressKind::Pa, pa));
            }
            assert(page_ok(addr, pg_size, i as int, pas@[i as int]));
            self.pgt.set_entry(pgt_offset + i, pa);
            i = i + 1;
        }
        proof {
            lemma_tables_shrink_free(self.mr_table@, free0, free1);
        }
        Ok(pgt_offset)
    }
}

/// Whether `pg_size` is a power of two of at least 2 MiB.
pub fn is_valid_page_size(pg_size: u32) -> (r: bool)
    ensures
        r == valid_page_size(pg_size),
{
    pg_size as usize >= PAGE_SIZE && pg_size & (pg_size - 1) == 0
}

/// The next control operation id after `id`; ids wrap around.
pub open spec fn next_op_id(id: u32) -> u32 {
    if id == u32::MAX {
        0
    } else {
        (id + 1) as u32
    }
}

impl Device {
    /// First step of registering the region of `len` bytes at `addr`, in
    /// pages of `pg_size` bytes whose physical addresses are `pas`: takes the
    /// first free table slot, checks the protection domain and the page size,
    /// allocates and fills the page-table entries, and makes the key from the
    /// slot index and a random tag. Returns the registration and the
    /// descriptor that hands the entries to the device. Nothing is kept on
    /// failure.
    pub fn reg_mr(&mut self, pd: Pd, addr: u64, len: u32, pg_size: u32, acc_flags: u8, pas: &Vec<u64>) -> (r:
        Result<(PendingMr, ToCardCtrlRbDescUpdatePageTable), Error>)
        requires
            old(self).wf(),
            pg_size > 0 ==> pas@.len() == page_count_spec(len, pg_size),
        ensures
            final(self).wf(),
            final(self).pd_handles() == old(self).pd_handles(),
            ({
                let slot = first_free_slot(old(self).slots(), MR_TABLE_SIZE as int);
                let cnt = page_count_spec(len, pg_size) as usize;
                &&& slot < 0 ==> r == Err::<(PendingMr, ToCardCtrlRbDescUpdatePageTable), Error>(
                    Error::ResourceNoAvailable(Resource::Mr),
                )
                &&& slot >= 0 && !old(self).pd_handles().contains(pd.handle) ==> r == Err::<
                    (PendingMr, ToCardCtrlRbDescUpdatePageTable),
                    Error,
                >(Error::InvalidPd(pd.handle))
                &&& slot >= 0 && old(self).pd_handles().contains(pd.handle) && !valid_page_size(pg_size) ==> r
                    == Err::<(PendingMr, ToCardCtrlRbDescUpdatePageTable), Error>(Error::InvalidPageSize(pg_size))
                &&& slot >= 0 && old(self).pd_handles().contains(pd.handle) && valid_page_size(pg_size)
                    && !first_fit_ok(old(self).page_table(), cnt) ==> r == Err::<
                    (PendingMr, ToCardCtrlRbDescUpdatePageTable),
                    Error,
                >(Error::ResourceNoAvailable(Resource::MrPageTable))
                &&& r is Ok <==> slot >= 0 && old(self).pd_handles().contains(pd.handle) && valid_page_size(pg_size)
                    && first_fit_ok(old(self).page_table(), cnt) && pages_aligned(addr, pg_size, pas@)
                &&& r is Err ==> final(self).slots() == old(self).slots() && free_set(
                    final(self).page_table().free_view(),
                ) == free_set(old(self).page_table().free_view()) && final(self).op_id() == old(self).op_id()
                &&& r matches Ok((p, desc)) ==> {
                    let off = first_fit_idx(old(self).page_table(), cnt);
                    &&& p.mr_idx == slot
                    &&& reserves(old(self).slots(), final(self).slots(), slot, p.ctx)
                    &&& p.ctx.pd == pd && p.ctx.addr == addr && p.ctx.len == len && p.ctx.pg_size == pg_size
                    &&& p.ctx.acc_flags == acc_flags && p.ctx.pgte_cnt == cnt && p.ctx.pgt_offset == off
                    &&& free_set(final(self).page_table().free_view()) == free_set(
                        old(self).page_table().free_view(),
                    ).difference(range_set(off as int, cnt as int))
                    &&& forall|i: int|
                        0 <= i < cnt ==> #[trigger] final(self).page_table().table_view()[off + i] == pas@[i]
                    &&& forall|k: int|
                        0 <= k < MR_PGT_SIZE && !(off <= k < off + cnt) ==> #[trigger] final(self).page_table().table_view()[k] == old(self).page_table().table_view()[k]
                    &&& desc == (ToCardCtrlRbDescUpdatePageTable {
                        op_id: old(self).op_id(),
                        start_addr: (old(self).pgt_pa_spec() + 8 * off) as u64,
                        pgt_idx: off as u32,
                        pgte_cnt: cnt as u32,
                    })
                    &&& final(self).op_id() == next_op_id(old(self).op_id())
                }
            }),
    {
        let mr_idx = match self.find_free_slot() {
            Some(i) => i,
            None => return Err(Error::ResourceNoAvailable(Resource::Mr)),
        };
        proof {
            lemma_first_free_slot(self.mr_table@, MR_TABLE_SIZE as int);
        }
        if !self.pd_valid(pd) {
            return Err(Error::InvalidPd(pd.handle));
        }
        if !is_valid_page_size(pg_size) {
            return Err(Error::InvalidPageSize(pg_size));
        }
        let pgte_cnt = page_count(len, pg_size) as usize;
        let ghost free0 = free_set(self.pgt.free_view());
        let pgt_offset = match self.register_page_table(addr, pgte_cnt, pg_size, pas) {
            Ok(o) => o,
            Err(e) => return Err(e),
        };
        let key = make_key(mr_idx, random_u32());
        let ctx = MrCtx {
            key: key.get(),
            pd,
            addr,
            len,
            pgt_offset,
            pgte_cnt,
            pg_size,
            acc_flags,
        };
        proof {
            lemma_tables_reserve(self.mr_table@, free0, mr_idx as int, ctx);
        }
        self.mr_table.set(mr_idx, MrSlot::Reserved(ctx));
        let op_id = self.get_ctrl_op_id();
        let desc = ToCardCtrlRbDescUpdatePageTable {
            op_id,
            start_addr: self.pgt_pa + (pgt_offset as u64) * 8,
            pgt_idx: pgt_offset as u32,
            pgte_cnt: pgte_cnt as u32,
        };
        Ok((PendingMr { mr_idx, ctx }, desc))
    }

    /// Whether `pending` still holds its reserved slot.
    fn holds_reservation(&self, pending: &PendingMr) -> (r: bool)
        requires
            self.wf(),
        ensures
            r == (pending.mr_idx < MR_TABLE_SIZE && self.slots()[pending.mr_idx as int] == MrSlot::Reserved(
                pending.ctx,
            )),
    {
        if pending.mr_idx >= MR_TABLE_SIZE {
            return false;
        }
        match self.mr_table[pending.mr_idx] {
            MrSlot::Reserved(c) => c == pending.ctx,
            _ => false,
        }
    }

    /// Second step of a registration, with the device's answer to the
    /// page-table update (`None` when the wait was torn down). On success,
    /// the descriptor that writes the region's table entry to the device; on
    /// failure the slot and its page-table entries are released.
    pub fn reg_mr_page_table_done(&mut self, pending: PendingMr, result: Option<bool>) -> (r: Result<
        ToCardCtrlRbDescUpdateMrTable,
        Error,
    >)
        requires
            old(self).wf(),
        ensures
            final(self).wf(),
            final(self).pd_handles() == old(self).pd_handles(),
            !(pending.mr_idx < MR_TABLE_SIZE && old(self).slots()[pending.mr_idx as int] == MrSlot::Reserved(
                pending.ctx,
            )) ==> r == Err::<ToCardCtrlRbDescUpdateMrTable, Error>(Error::InvalidMr(pending.mr_idx as u32))
                && final(self).slots() == old(self).slots(),
            pending.mr_idx < MR_TABLE_SIZE && old(self).slots()[pending.mr_idx as int] == MrSlot::Reserved(
                pending.ctx,
            ) ==> match result {
                Some(true) => r == Ok::<ToCardCtrlRbDescUpdateMrTable, Error>(
                    ToCardCtrlRbDescUpdateMrTable {
                        op_id: old(self).op_id(),
                        addr: pending.ctx.addr,
                        len: pending.ctx.len,
                        key: pending.ctx.key,
                        pd_hdl: pending.ctx.pd.handle,
                        acc_flags: pending.ctx.acc_flags,
                        pgt_offset: pending.ctx.pgt_offset as u32,
                    },
                ) && final(self).slots() == old(self).slots(),
                Some(false) => r == Err::<ToCardCtrlRbDescUpdateMrTable, Error>(
                    Error::DeviceReturnFailed(CtrlOpKind::UpdatePageTable),
                ) && final(self).slots() == old(self).slots().update(pending.mr_idx as int, MrSlot::Free),
                None => r == Err::<ToCardCtrlRbDescUpdateMrTable, Error>(Error::SetCtxResultFailed)
                    && final(self).slots() == old(self).slots().update(pending.mr_idx as int, MrSlot::Free),
            },
    {
        if !self.holds_reservation(&pending) {
            return Err(Error::InvalidMr(pending.mr_idx as u32));
        }
        match result {
            Some(true) => {
                let op_id = self.get_ctrl_op_id();
                Ok(
                    ToCardCtrlRbDescUpdateMrTable {
                        op_id,
                        addr: pending.ctx.addr,
                        len: pending.ctx.len,
                        key: pending.ctx.key,
                        pd_hdl: pending.ctx.pd.handle,
                        acc_flags: pending.ctx.acc_flags,
                        pgt_offset: pending.ctx.pgt_offset as u32,
                    },
                )
            },
            Some(false) => {
                self.release_slot(pending.mr_idx);
                Err(Error::DeviceReturnFailed(CtrlOpKind::UpdatePageTable))
            },
            None => {
                self.release_slot(pending.mr_idx);
                Err(Error::SetCtxResultFailed)
            },
        }
    }

    /// Last step of a registration, with the device's answer to the table
    /// entry update. On success the slot holds the region and its key is
    /// returned; on failure the slot and its page-table entries are released.
    pub fn reg_mr_finish(&mut self, pending: PendingMr, result: Option<bool>) -> (r: Result<Mr, Error>)
        requires
            old(self).wf(),
        ensures
            final(self).wf(),
            final(self).pd_handles() == old(self).pd_handles(),
            final(self).op_id() == old(self).op_id(),
            !(pending.mr_idx < MR_TABLE_SIZE && old(self).slots()[pending.mr_idx as int] == MrSlot::Reserved(
                pending.ctx,
            )) ==> r == Err::<Mr, Error>(Error::InvalidMr(pending.mr_idx as u32)) && final(self).slots() == old(
                self,
            ).slots(),
            pending.mr_idx < MR_TABLE_SIZE && old(self).slots()[pending.mr_idx as int] == MrSlot::Reserved(
                pending.ctx,
            ) ==> match result {
                Some(true) => (r matches Ok(mr) && mr.key_value() == pending.ctx.key) && final(self).slots() == old(
                    self,
                ).slots().update(pending.mr_idx as int, MrSlot::Registered(pending.ctx)),
                Some(false) => r == Err::<Mr, Error>(Error::DeviceReturnFailed(CtrlOpKind::RegisterMrTable))
                    && final(self).slots() == old(self).slots().update(pending.mr_idx as int, MrSlot::Free),
                None => r == Err::<Mr, Error>(Error::SetCtxResultFailed) && final(self).slots() == old(
                    self,
                ).slots().update(pending.mr_idx as int, MrSlot::Free),
            },
    {
        if !self.holds_reservation(&pending) {
            return Err(Error::InvalidMr(pending.mr_idx as u32));
        }
        match result {
            Some(true) => {
                proof {
                    lemma_tables_promote(
                        self.mr_table@,
                        free_set(self.pgt.free_view()),
                        pending.mr_idx as int,
                        pending.ctx,
                    );
                }
                self.mr_table.set(pending.mr_idx, MrSlot::Registered(pending.ctx));
                Ok(Mr { key: Key::new(pending.ctx.key) })
            },
            Some(false) => {
                self.release_slot(pending.mr_idx);
                Err(Error::DeviceReturnFailed(CtrlOpKind::RegisterMrTable))
            },
            None => {
                self.release_slot(pending.mr_idx);
                Err(Error::SetCtxResultFailed)
            },
        }
    }

    /// The slot of `mr`, if the table holds `mr` there.
    fn registered_slot(&self, mr: Mr) -> (r: Result<(usize, MrCtx), Error>)
        requires
            self.wf(),
        ensures
            ({
                let idx = key_index(mr.key_value());
                &&& (idx < MR_TABLE_SIZE && self.slots()[idx] is Registered && slot_ctx(self.slots()[idx]).key
                    == mr.key_value()) ==> r == Ok::<(usize, MrCtx), Error>(
                    (idx as usize, slot_ctx(self.slots()[idx])),
                )
                &&& !(idx < MR_TABLE_SIZE && self.slots()[idx] is Registered && slot_ctx(self.slots()[idx]).key
                    == mr.key_value()) ==> r == Err::<(usize, MrCtx), Error>(Error::InvalidMr(idx as u32))
            }),
    {
        let idx = get_key_index(mr.key);
        assert(idx < 0x100);
        if idx as usize >= MR_TABLE_SIZE {
            return Err(Error::InvalidMr(idx));
        }
        match self.mr_table[idx as usize] {
            MrSlot::Registered(c) => {
                if c.key == mr.key.get() {
                    Ok((idx as usize, c))
                } else {
                    Err(Error::InvalidMr(idx))
                }
            },
            _ => Err(Error::InvalidMr(idx)),
        }
    }

    /// First step of removing `mr`: checks that the table holds it and that
    /// its protection domain is known, and returns the descriptor that clears
    /// its entry on the device. The tables do not change yet.
    pub fn dereg_mr(&mut self, mr: Mr) -> (r: Result<ToCardCtrlRbDescUpdateMrTable, Error>)
        requires
            old(self).wf(),
        ensures
            final(self).wf(),
            final(self).slots() == old(self).slots(),
            final(self).pd_handles() == old(self).pd_handles(),
            free_set(final(self).page_table().free_view()) == free_set(old(self).page_table().free_view()),
            ({
                let idx = key_index(mr.key_value());
                let held = idx < MR_TABLE_SIZE && old(self).slots()[idx] is Registered && slot_ctx(
                    old(self).slots()[idx],
                ).key == mr.key_value();
                &&& !held ==> r == Err::<ToCardCtrlRbDescUpdateMrTable, Error>(Error::InvalidMr(idx as u32))
                &&& held && !old(self).pd_handles().contains(slot_ctx(old(self).slots()[idx]).pd.handle) ==> r
                    == Err::<ToCardCtrlRbDescUpdateMrTable, Error>(
                    Error::InvalidPd(slot_ctx(old(self).slots()[idx]).pd.handle),
                )
                &&& held && old(self).pd_handles().contains(slot_ctx(old(self).slots()[idx]).pd.handle) ==> r
                    == Ok::<ToCardCtrlRbDescUpdateMrTable, Error>(
                    ToCardCtrlRbDescUpdateMrTable {
                        op_id: old(self).op_id(),
                        addr: 0,
                        len: 0,
                        key: mr.key_value(),
                        pd_hdl: 0,
                        acc_flags: 0,
                        pgt_offset: 0,
                    },
                )
            }),
    {
        let (_idx, ctx) = match self.registered_slot(mr) {
            Ok(found) => found,
            Err(e) => return Err(e),
        };
        if !self.pd_valid(ctx.pd) {
            return Err(Error::InvalidPd(ctx.pd.handle));
        }
        let op_id = self.get_ctrl_op_id();
        Ok(
            ToCardCtrlRbDescUpdateMrTable {
                op_id,
                addr: 0,
                len: 0,
                key: mr.key.get(),
                pd_hdl: 0,
                acc_flags: 0,
                pgt_offset: 0,
            },
        )
    }

    /// Last step of removing `mr`, with the device's answer to the cleared
    /// table entry. On success the slot and its page-table entries are freed.
    pub fn dereg_mr_finish(&mut self, mr: Mr, result: Option<bool>) -> (r: Result<(), Error>)
        requires
            old(self).wf(),
        ensures
            final(self).wf(),
            final(self).pd_handles() == old(self).pd_handles(),
            final(self).op_id() == old(self).op_id(),
            ({
                let idx = key_index(mr.key_value());
                let held = idx < MR_TABLE_SIZE && old(self).slots()[idx] is Registered && slot_ctx(
                    old(self).slots()[idx],
                ).key == mr.key_value();
                &&& !held ==> r == Err::<(), Error>(Error::InvalidMr(idx as u32)) && final(self).slots() == old(
                    self,
                ).slots()
                &&& held ==> match result {
                    Some(true) => r == Ok::<(), Error>(()) && final(self).slots() == old(self).slots().update(
                        idx,
                        MrSlot::Free,
                    ) && free_set(final(self).page_table().free_view()) == free_set(
                        old(self).page_table().free_view(),
                    ).union(ctx_range(slot_ctx(old(self).slots()[idx]))),
                    Some(false) => r == Err::<(), Error>(Error::DeviceReturnFailed(CtrlOpKind::DeregisterMrTable))
                        && final(self).slots() == old(self).slots(),
                    None => r == Err::<(), Error>(Error::SetCtxResultFailed) && final(self).slots() == old(
                        self,
                    ).slots(),
                }
            }),
    {
        let (idx, _ctx) = match self.registered_slot(mr) {
            Ok(found) => found,
            Err(e) => return Err(e),
        };
        match result {
            Some(true) => {
                self.release_slot(idx);
                Ok(())
            },
            Some(false) => Err(Error::DeviceReturnFailed(CtrlOpKind::DeregisterMrTable)),
            None => Err(Error::SetCtxResultFailed),
        }
    }
}

} // verus!
