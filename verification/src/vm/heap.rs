//! The heap: a fixed arena of bytes that is handed out in blocks, first fit,
//! and taken back with neighbouring free blocks merged.

use vstd::prelude::*;

verus! {

/// Every block starts at a multiple of this and is a multiple of it long.
pub const HEAP_ALIGN: usize = 2;

/// The capacity of the arena of a machine that is made without one.
pub const DEFAULT_HEAP_SIZE: usize = 4096;

/// A stretch of the arena: either a live allocation or free.
#[derive(Copy, Clone, Debug, PartialEq, Eq, Structural)]
pub struct Block {
    /// Where the block starts.
    pub addr: usize,
    /// How many bytes it spans.
    pub len: usize,
    /// How many bytes were asked for; zero in a free block.
    pub size: usize,
    /// Whether it is a live allocation.
    pub used: bool,
}

/// Why the heap refused.
#[derive(Copy, Clone, Debug, PartialEq, Eq, Structural)]
pub enum HeapError {
    /// No free block is large enough.
    OutOfMemory,
    /// The address lies outside the arena.
    OutOfBounds,
    /// No live allocation starts at the address.
    NotLive,
    /// A live allocation starts at the address, with another size.
    SizeMismatch,
}

/// The length of the block that holds an allocation of `size` bytes: the
/// size rounded up to the alignment, and never zero.
pub open spec fn block_len(size: int) -> int {
    if size == 0 {
        HEAP_ALIGN as int
    } else {
        size + size % 2
    }
}

/// The model of the heap: the bytes of the arena and the blocks that tile it.
pub struct HeapView {
    pub bytes: Seq<u8>,
    pub blocks: Seq<Block>,
}

impl HeapView {
    /// The part of the arena that blocks can cover: its length rounded down
    /// to the alignment.
    pub open spec fn usable(self) -> int {
        self.bytes.len() - self.bytes.len() % 2
    }

    /// Where the block at index `i` ends.
    pub open spec fn end_of(self, i: int) -> int {
        self.blocks[i].addr + self.blocks[i].len
    }

    /// Whether the block at index `i` is aligned, not empty and inside the
    /// usable arena, and holds what was asked for if it is live.
    pub open spec fn block_ok(self, i: int) -> bool {
        &&& self.blocks[i].len > 0
        &&& self.blocks[i].len % 2 == 0
        &&& self.blocks[i].addr % 2 == 0
        &&& self.blocks[i].addr + self.blocks[i].len <= self.usable()
        &&& (self.blocks[i].used ==> self.blocks[i].size <= self.blocks[i].len)
        &&& (!self.blocks[i].used ==> self.blocks[i].size == 0)
    }

    /// Whether the block after the one at index `i` starts where that one
    /// ends, and not both are free.
    pub open spec fn joined(self, i: int) -> bool {
        &&& self.blocks[i + 1].addr == self.blocks[i].addr + self.blocks[i].len
        &&& (self.blocks[i].used || self.blocks[i + 1].used)
    }

    /// The blocks tile the usable arena in the order of their addresses,
    /// each is aligned and not empty, a live one holds what was asked for,
    /// and no two free blocks touch.
    pub open spec fn wf(self) -> bool {
        &&& self.bytes.len() <= usize::MAX
        &&& self.blocks.len() == 0 <==> self.usable() == 0
        &&& self.blocks.len() > 0 ==> self.blocks[0].addr == 0 && self.end_of(
            self.blocks.len() - 1,
        ) == self.usable()
        &&& forall|i: int| 0 <= i < self.blocks.len() ==> #[trigger] self.block_ok(i)
        &&& forall|i: int| 0 <= i < self.blocks.len() - 1 ==> #[trigger] self.joined(i)
    }

    /// Whether the block at index `i` is a live allocation at `addr`.
    pub open spec fn live_at(self, i: int, addr: int) -> bool {
        0 <= i < self.blocks.len() && self.blocks[i].used && self.blocks[i].addr == addr
    }

    /// Whether `addr` is the base address of a live allocation.
    pub open spec fn is_live(self, addr: int) -> bool {
        exists|i: int| self.live_at(i, addr)
    }

    /// The index of the live allocation at `addr`.
    pub open spec fn index_of(self, addr: int) -> int {
        choose|i: int| self.live_at(i, addr)
    }

    /// The number of bytes that were asked for at `addr`.
    pub open spec fn size_at(self, addr: int) -> int {
        self.blocks[self.index_of(addr)].size as int
    }

    /// Whether the block at index `i` is free and at least `need` long.
    pub open spec fn fits(self, i: int, need: int) -> bool {
        0 <= i < self.blocks.len() && !self.blocks[i].used && self.blocks[i].len >= need
    }

    /// Whether the block at index `i` is the first that fits.
    pub open spec fn first_fit(self, i: int, need: int) -> bool {
        self.fits(i, need) && forall|j: int| 0 <= j < i ==> !self.fits(j, need)
    }

    /// The heap after `size` bytes have been taken from the free block at
    /// index `k`: the block becomes a live allocation of the needed length,
    /// and what is left of it stays free behind it.
    pub open spec fn with_allocation(self, k: int, size: usize) -> HeapView {
        let b = self.blocks[k];
        let need = block_len(size as int);
        let taken = Block { addr: b.addr, len: need as usize, size, used: true };
        if b.len == need {
            HeapView { blocks: self.blocks.update(k, taken), ..self }
        } else {
            let rest = Block {
                addr: (b.addr + need) as usize,
                len: (b.len - need) as usize,
                size: 0,
                used: false,
            };
            HeapView { blocks: self.blocks.update(k, taken).insert(k + 1, rest), ..self }
        }
    }

    /// The heap after the live allocation at index `k` has been given back:
    /// the block is free, and is one block with each free neighbour.
    pub open spec fn with_release(self, k: int) -> HeapView {
        let first = if k > 0 && !self.blocks[k - 1].used {
            k - 1
        } else {
            k
        };
        let last = if k + 1 < self.blocks.len() && !self.blocks[k + 1].used {
            k + 1
        } else {
            k
        };
        let merged = Block {
            addr: self.blocks[first].addr,
            len: (self.end_of(last) - self.blocks[first].addr) as usize,
            size: 0,
            used: false,
        };
        HeapView {
            blocks: self.blocks.subrange(0, first).push(merged) + self.blocks.subrange(
                last + 1,
                self.blocks.len() as int,
            ),
            ..self
        }
    }

    /// The heap after `data` has been written at `addr`.
    pub open spec fn with_bytes(self, addr: int, data: Seq<u8>) -> HeapView {
        HeapView {
            bytes: Seq::new(
                self.bytes.len(),
                |i: int|
                    if addr <= i < addr + data.len() {
                        data[i - addr]
                    } else {
                        self.bytes[i]
                    },
            ),
            ..self
        }
    }

    /// An arena of `capacity` zero bytes, all of it free.
    pub open spec fn empty(capacity: nat) -> HeapView {
        let usable = capacity - capacity % 2;
        HeapView {
            bytes: Seq::new(capacity, |i: int| 0u8),
            blocks: if usable == 0 {
                Seq::empty()
            } else {
                seq![Block { addr: 0, len: usable as usize, size: 0, used: false }]
            },
        }
    }
}

/// In a well-formed heap a block further back starts further back.
pub proof fn lemma_addresses_increase(h: HeapView, i: int, j: int)
    requires
        h.wf(),
        0 <= i < j < h.blocks.len(),
    ensures
        h.blocks[i].addr + h.blocks[i].len <= h.blocks[j].addr,
    decreases j - i,
{
    if i + 1 < j {
        lemma_addresses_increase(h, i, j - 1);
        assert(h.block_ok(j - 1));
        assert(h.joined(j - 1));
    } else {
        assert(h.joined(i));
    }
}

/// In a well-formed heap at most one block starts at an address.
pub proof fn lemma_one_block_per_address(h: HeapView, i: int, j: int)
    requires
        h.wf(),
        0 <= i < h.blocks.len(),
        0 <= j < h.blocks.len(),
        h.blocks[i].addr == h.blocks[j].addr,
    ensures
        i == j,
{
    if i < j {
        lemma_addresses_increase(h, i, j);
        assert(h.block_ok(i));
    } else if j < i {
        lemma_addresses_increase(h, j, i);
        assert(h.block_ok(j));
    }
}

/// In a well-formed heap two live allocations do not overlap: the one at
/// the lower address ends before the other starts.
pub proof fn lemma_live_allocations_apart(h: HeapView, a: int, b: int)
    requires
        h.wf(),
        h.is_live(a),
        h.is_live(b),
        a < b,
    ensures
        a + h.size_at(a) <= b,
        b + h.size_at(b) <= h.bytes.len(),
{
    let i = h.index_of(a);
    let j = h.index_of(b);
    assert(h.block_ok(i));
    assert(h.block_ok(j));
    if j < i {
        lemma_addresses_increase(h, j, i);
    } else if i < j {
        lemma_addresses_increase(h, i, j);
    }
}

/// Taking an allocation from a free block that fits leaves the heap well
/// formed.
pub proof fn lemma_allocation_wf(h: HeapView, k: int, size: usize)
    requires
        h.wf(),
        h.fits(k, block_len(size as int)),
    ensures
        h.with_allocation(k, size).wf(),
{
    let g = h.with_allocation(k, size);
    let need = block_len(size as int);
    let b = h.blocks[k];
    let n = h.blocks.len() as int;
    assert(need % 2 == 0);
    assert(need > 0);
    assert(h.block_ok(k));
    if b.len == need {
        assert forall|i: int| 0 <= i < g.blocks.len() implies #[trigger] g.block_ok(i) by {
            assert(h.block_ok(i));
        }
        assert forall|i: int| 0 <= i < g.blocks.len() - 1 implies #[trigger] g.joined(i) by {
            assert(h.joined(i));
        }
    } else {
        assert(g.blocks.len() == n + 1);
        assert forall|i: int| 0 <= i < g.blocks.len() implies #[trigger] g.block_ok(i) by {
            if i <= k {
                assert(h.block_ok(i));
            } else if i == k + 1 {
            } else {
                assert(g.blocks[i] == h.blocks[i - 1]);
                assert(h.block_ok(i - 1));
            }
        }
        assert forall|i: int| 0 <= i < g.blocks.len() - 1 implies #[trigger] g.joined(i) by {
            if i < k {
                assert(h.joined(i));
            } else if i == k {
            } else if i == k + 1 {
                assert(g.blocks[i + 1] == h.blocks[k + 1]);
                assert(h.joined(k));
            } else {
                assert(g.blocks[i] == h.blocks[i - 1]);
                assert(g.blocks[i + 1] == h.blocks[i]);
                assert(h.joined(i - 1));
            }
        }
        if k == n - 1 {
            assert(g.blocks[n] == g.blocks[k + 1]);
        } else {
            assert(g.blocks[n] == h.blocks[n - 1]);
        }
        assert(g.blocks[0].addr == 0);
    }
}

/// Giving a live allocation back leaves the heap well formed.
pub proof fn lemma_release_wf(h: HeapView, k: int)
    requires
        h.wf(),
        0 <= k < h.blocks.len(),
        h.blocks[k].used,
    ensures
        h.with_release(k).wf(),
{
    let g = h.with_release(k);
    let first = if k > 0 && !h.blocks[k - 1].used { k - 1 } else { k };
    let last = if k + 1 < h.blocks.len() && !h.blocks[k + 1].used { k + 1 } else { k };
    let n = h.blocks.len() as int;
    let d = last - first;
    assert(g.blocks.len() == n - d);
    if first < k {
        assert(h.joined(k - 1));
    }
    if k < last {
        assert(h.joined(k));
    }
    assert(h.block_ok(first) && h.block_ok(last) && h.block_ok(k));
    assert(g.blocks[first].addr == h.blocks[first].addr);
    assert(g.blocks[first].addr + g.blocks[first].len == h.end_of(last));
    assert forall|i: int| 0 <= i < g.blocks.len() && i < first implies g.blocks[i]
        == h.blocks[i] by {}
    assert forall|i: int| 0 <= i < g.blocks.len() && i > first implies g.blocks[i] == h.blocks[i
        + d] by {}
    assert forall|i: int| 0 <= i < g.blocks.len() implies #[trigger] g.block_ok(i) by {
        if i == first {
        } else if i < first {
            assert(h.block_ok(i));
        } else {
            assert(h.block_ok(i + d));
        }
    }
    assert forall|i: int| 0 <= i < g.blocks.len() - 1 implies #[trigger] g.joined(i) by {
        if i + 1 < first {
            assert(h.joined(i));
        } else if i + 1 == first {
            assert(h.joined(i));
        } else if i == first {
            assert(g.blocks[i + 1] == h.blocks[last + 1]);
            assert(h.joined(last));
        } else {
            assert(g.blocks[i + 1] == h.blocks[i + d + 1]);
            assert(h.joined(i + d));
        }
    }
    if first == 0 {
        assert(g.blocks[0].addr == 0);
    } else {
        assert(g.blocks[0] == h.blocks[0]);
    }
    if last == n - 1 {
        assert(g.blocks.len() - 1 == first);
    } else {
        assert(g.blocks[g.blocks.len() - 1] == h.blocks[n - 1]);
    }
}

/// In a well-formed heap the size recorded at a live address is that of
/// the one live block that starts there.
pub proof fn lemma_size_at(h: HeapView, i: int, addr: int)
    requires
        h.wf(),
        h.live_at(i, addr),
    ensures
        h.is_live(addr),
        h.index_of(addr) == i,
        h.size_at(addr) == h.blocks[i].size,
{
    let j = h.index_of(addr);
    lemma_one_block_per_address(h, i, j);
}

/// In a well-formed heap a live allocation lies in the arena with all that
/// was asked for.
pub proof fn lemma_live_in_bounds(h: HeapView, address: int)
    requires
        h.wf(),
        h.is_live(address),
    ensures
        0 <= address < h.bytes.len(),
        address + h.size_at(address) <= h.bytes.len(),
{
    let i = h.index_of(address);
    assert(h.block_ok(i));
}

/// After an allocation its address is live with the size asked for, it was
/// not live before, and every other address is as it was.
pub proof fn lemma_allocation_live(h: HeapView, k: int, size: usize)
    requires
        h.wf(),
        h.fits(k, block_len(size as int)),
    ensures
        !h.is_live(h.blocks[k].addr as int),
        h.with_allocation(k, size).is_live(h.blocks[k].addr as int),
        h.with_allocation(k, size).size_at(h.blocks[k].addr as int) == size,
        forall|a: int|
            a != h.blocks[k].addr ==> (h.with_allocation(k, size).is_live(a) == h.is_live(a)),
        forall|a: int|
            a != h.blocks[k].addr && h.is_live(a) ==> h.with_allocation(k, size).size_at(a)
                == h.size_at(a),
{
    let g = h.with_allocation(k, size);
    let addr = h.blocks[k].addr as int;
    let need = block_len(size as int);
    lemma_allocation_wf(h, k, size);
    if h.is_live(addr) {
        lemma_one_block_per_address(h, h.index_of(addr), k);
    }
    assert(g.live_at(k, addr));
    lemma_size_at(g, k, addr);
    assert(h.block_ok(k));
    assert forall|a: int| a != addr implies (g.is_live(a) == h.is_live(a)) && (h.is_live(a)
        ==> g.size_at(a) == h.size_at(a)) by {
        if h.is_live(a) {
            let i = h.index_of(a);
            let j = if i < k || h.blocks[k].len == need {
                i
            } else {
                i + 1
            };
            assert(g.live_at(j, a));
            lemma_size_at(g, j, a);
        }
        if g.is_live(a) {
            let j = g.index_of(a);
            let i = if j <= k || h.blocks[k].len == need {
                j
            } else {
                j - 1
            };
            assert(h.live_at(i, a));
        }
    }
}

/// After a live allocation has been given back its address is not live,
/// and every other address is as it was.
pub proof fn lemma_release_live(h: HeapView, k: int)
    requires
        h.wf(),
        0 <= k < h.blocks.len(),
        h.blocks[k].used,
    ensures
        !h.with_release(k).is_live(h.blocks[k].addr as int),
        forall|a: int| a != h.blocks[k].addr ==> (h.with_release(k).is_live(a) == h.is_live(a)),
        forall|a: int|
            a != h.blocks[k].addr && h.is_live(a) ==> h.with_release(k).size_at(a) == h.size_at(a),
{
    let g = h.with_release(k);
    let addr = h.blocks[k].addr as int;
    let first = if k > 0 && !h.blocks[k - 1].used { k - 1 } else { k };
    let last = if k + 1 < h.blocks.len() && !h.blocks[k + 1].used { k + 1 } else { k };
    let d = last - first;
    lemma_release_wf(h, k);
    assert forall|j: int| 0 <= j < g.blocks.len() && j < first implies g.blocks[j]
        == h.blocks[j] by {}
    assert forall|j: int| 0 <= j < g.blocks.len() && j > first implies g.blocks[j] == h.blocks[j
        + d] by {}
    assert(!g.blocks[first].used);
    if g.is_live(addr) {
        let j = g.index_of(addr);
        let i = if j < first { j } else { j + d };
        assert(h.live_at(i, addr));
        lemma_one_block_per_address(h, i, k);
    }
    assert forall|a: int| a != addr implies (g.is_live(a) == h.is_live(a)) && (h.is_live(a)
        ==> g.size_at(a) == h.size_at(a)) by {
        if h.is_live(a) {
            let i = h.index_of(a);
            let j = if i < first { i } else { i - d };
            assert(i != k);
            assert(i < first || i > last);
            assert(g.live_at(j, a));
            lemma_size_at(g, j, a);
        }
        if g.is_live(a) {
            let j = g.index_of(a);
            let i = if j < first { j } else { j + d };
            assert(h.live_at(i, a));
        }
    }
}

/// Writing bytes leaves the heap well formed.
pub proof fn lemma_write_wf(h: HeapView, addr: int, data: Seq<u8>)
    requires
        h.wf(),
    ensures
        h.with_bytes(addr, data).wf(),
{
    let g = h.with_bytes(addr, data);
    assert forall|i: int| 0 <= i < g.blocks.len() implies #[trigger] g.block_ok(i) by {
        assert(h.block_ok(i));
    }
    assert forall|i: int| 0 <= i < g.blocks.len() - 1 implies #[trigger] g.joined(i) by {
        assert(h.joined(i));
    }
}

/// The bytes of an arena and the blocks that tile it.
#[derive(Debug)]
struct Arena {
    memory: Vec<u8>,
    blocks: Vec<Block>,
}

impl Arena {
    /// The model of the arena.
    spec fn model(&self) -> HeapView {
        HeapView { bytes: self.memory@, blocks: self.blocks@ }
    }

    /// An arena without bytes.
    fn hollow() -> (a: Arena)
        ensures
            a.model() == HeapView::empty(0),
    {
        let a = Arena { memory: Vec::new(), blocks: Vec::new() };
        assert(a.model().bytes =~= HeapView::empty(0).bytes);
        a
    }
}

/// The heap of a machine. It is well formed at all times.
#[derive(Debug)]
pub struct Heap {
    arena: Arena,
}

impl View for Heap {
    type V = HeapView;

    closed spec fn view(&self) -> HeapView {
        self.arena.model()
    }
}

impl Heap {
    /// Whether the heap is well formed.
    #[verifier::type_invariant]
    pub open spec fn wf(&self) -> bool {
        self@.wf()
    }

    /// A heap over an arena of `capacity` zero bytes, all of it free.
    pub fn new(capacity: usize) -> (h: Heap)
        ensures
            h.wf(),
            h@ == HeapView::empty(capacity as nat),
    {
        let memory = vec![0u8; capacity];
        let usable = capacity - capacity % HEAP_ALIGN;
        let mut blocks: Vec<Block> = Vec::new();
        if usable > 0 {
            blocks.push(Block { addr: 0, len: usable, size: 0, used: false });
        }
        let arena = Arena { memory, blocks };
        proof {
            assert(arena.model().bytes =~= HeapView::empty(capacity as nat).bytes);
            assert(arena.model().blocks =~= HeapView::empty(capacity as nat).blocks);
            assert forall|i: int| 0 <= i < arena.model().blocks.len() implies #[trigger]
                arena.model().block_ok(i) by {}
        }
        Heap { arena }
    }

    /// The number of bytes in the arena.
    pub fn capacity(&self) -> (n: usize)
        ensures
            n == self@.bytes.len(),
    {
        self.arena.memory.len()
    }

    /// The index of the live allocation that starts at `address`.
    fn find(&self, address: usize) -> (r: Option<usize>)
        ensures
            match r {
                Some(i) => self@.live_at(i as int, address as int),
                None => !self@.is_live(address as int),
            },
    {
        let mut i: usize = 0;
        while i < self.arena.blocks.len()
            invariant
                i <= self.arena.blocks.len(),
                forall|j: int| 0 <= j < i ==> !self@.live_at(j, address as int),
            decreases self.arena.blocks.len() - i,
        {
            if self.arena.blocks[i].used && self.arena.blocks[i].addr == address {
                return Some(i);
            }
            i += 1;
        }
        None
    }

    /// Whether `address` is the base address of a live allocation.
    pub fn contains(&self, address: usize) -> (b: bool)
        ensures
            b == self@.is_live(address as int),
    {
        self.find(address).is_some()
    }

    /// The number of bytes that were asked for at `address`, if a live
    /// allocation starts there. A live allocation lies in the arena with
    /// all that was asked for.
    pub fn size_of(&self, address: usize) -> (r: Option<usize>)
        ensures
            r is Some == self@.is_live(address as int),
            r is Some ==> r->Some_0 == self@.size_at(address as int) && address + r->Some_0
                <= self@.bytes.len(),
    {
        proof {
            use_type_invariant(self);
        }
        match self.find(address) {
            Some(i) => {
                proof {
                    lemma_size_at(self@, i as int, address as int);
                    assert(self@.block_ok(i as int));
                }
                Some(self.arena.blocks[i].size)
            },
            None => None,
        }
    }

    /// Takes `size` bytes from the first free block that is large enough,
    /// and gives the address of the allocation.
    pub fn allocate(&mut self, size: usize) -> (r: Result<usize, HeapError>)
        ensures
            final(self).wf(),
            match r {
                Ok(address) => exists|k: int|
                    {
                        &&& #[trigger] old(self)@.first_fit(k, block_len(size as int))
                        &&& address == old(self)@.blocks[k].addr
                        &&& final(self)@ == old(self)@.with_allocation(k, size)
                    },
                Err(e) => {
                    &&& e == HeapError::OutOfMemory
                    &&& final(self)@ == old(self)@
                    &&& forall|k: int| !old(self)@.fits(k, block_len(size as int))
                },
            },
    {
        proof {
            use_type_invariant(&*self);
        }
        if size == usize::MAX {
            proof {
                assert forall|k: int| !self@.fits(k, block_len(size as int)) by {
                    if 0 <= k < self@.blocks.len() {
                        assert(self@.block_ok(k));
                    }
                }
            }
            return Err(HeapError::OutOfMemory);
        }
        let need: usize = if size == 0 {
            HEAP_ALIGN
        } else {
            size + size % HEAP_ALIGN
        };
        let mut k: usize = 0;
        while k < self.arena.blocks.len() && (self.arena.blocks[k].used
            || self.arena.blocks[k].len < need)
            invariant
                k <= self.arena.blocks.len(),
                forall|j: int| 0 <= j < k ==> !self@.fits(j, need as int),
            decreases self.arena.blocks.len() - k,
        {
            k += 1;
        }
        if k == self.arena.blocks.len() {
            return Err(HeapError::OutOfMemory);
        }
        let b = self.arena.blocks[k];
        proof {
            assert(self@.first_fit(k as int, need as int));
            assert(self@.block_ok(k as int));
            lemma_allocation_wf(self@, k as int, size);
        }
        let mut arena = Arena::hollow();
        core::mem::swap(&mut self.arena, &mut arena);
        arena.blocks[k] = Block { addr: b.addr, len: need, size, used: true };
        if b.len > need {
            arena.blocks.insert(
                k + 1,
                Block { addr: b.addr + need, len: b.len - need, size: 0, used: false },
            );
        }
        proof {
            assert(arena.model().blocks =~= old(self)@.with_allocation(k as int, size).blocks);
        }
        self.arena = arena;
        Ok(b.addr)
    }

    /// Gives back the live allocation of `size` bytes at `address`, and
    /// merges the freed block with each free neighbour.
    pub fn deallocate(&mut self, address: usize, size: usize) -> (r: Result<(), HeapError>)
        ensures
            final(self).wf(),
            match r {
                Ok(_) => {
                    &&& old(self)@.is_live(address as int)
                    &&& old(self)@.size_at(address as int) == size
                    &&& final(self)@ == old(self)@.with_release(
                        old(self)@.index_of(address as int),
                    )
                },
                Err(e) => {
                    &&& final(self)@ == old(self)@
                    &&& e == HeapError::OutOfBounds || e == HeapError::NotLive || e
                        == HeapError::SizeMismatch
                    &&& e == HeapError::OutOfBounds <==> address >= old(self)@.bytes.len()
                    &&& e == HeapError::NotLive <==> address < old(self)@.bytes.len()
                        && !old(self)@.is_live(address as int)
                    &&& e == HeapError::SizeMismatch <==> address < old(self)@.bytes.len()
                        && old(self)@.is_live(address as int) && old(self)@.size_at(
                        address as int,
                    ) != size
                },
            },
    {
        proof {
            use_type_invariant(&*self);
        }
        if address >= self.arena.memory.len() {
            return Err(HeapError::OutOfBounds);
        }
        let k = match self.find(address) {
            Some(k) => k,
            None => {
                return Err(HeapError::NotLive);
            },
        };
        proof {
            lemma_size_at(self@, k as int, address as int);
        }
        if self.arena.blocks[k].size != size {
            return Err(HeapError::SizeMismatch);
        }
        let n = self.arena.blocks.len();
        let first = if k > 0 && !self.arena.blocks[k - 1].used {
            k - 1
        } else {
            k
        };
        let last = if k + 1 < n && !self.arena.blocks[k + 1].used {
            k + 1
        } else {
            k
        };
        proof {
            lemma_release_wf(self@, k as int);
            assert(self@.block_ok(first as int) && self@.block_ok(last as int));
            if first < last {
                lemma_addresses_increase(self@, first as int, last as int);
            }
        }
        let merged = Block {
            addr: self.arena.blocks[first].addr,
            len: self.arena.blocks[last].addr + self.arena.blocks[last].len
                - self.arena.blocks[first].addr,
            size: 0,
            used: false,
        };
        let mut arena = Arena::hollow();
        core::mem::swap(&mut self.arena, &mut arena);
        if last > k {
            arena.blocks.remove(last);
        }
        if first < k {
            arena.blocks.remove(k);
        }
        arena.blocks[first] = merged;
        proof {
            assert(arena.model().blocks =~= old(self)@.with_release(k as int).blocks);
        }
        self.arena = arena;
        Ok(())
    }

    /// The byte at `address`, if the address lies in the arena.
    pub fn read(&self, address: usize) -> (r: Option<u8>)
        ensures
            address < self@.bytes.len() ==> r == Some(self@.bytes[address as int]),
            address >= self@.bytes.len() ==> r is None,
    {
        if address < self.arena.memory.len() {
            Some(self.arena.memory[address])
        } else {
            None
        }
    }

    /// The `len` bytes from `address` on, if they lie in the arena.
    pub fn read_range(&self, address: usize, len: usize) -> (r: Option<Vec<u8>>)
        ensures
            address + len <= self@.bytes.len() ==> r is Some && r->Some_0@
                == self@.bytes.subrange(address as int, address + len),
            address + len > self@.bytes.len() ==> r is None,
    {
        if address > self.arena.memory.len() || len > self.arena.memory.len() - address {
            return None;
        }
        let mut out: Vec<u8> = Vec::new();
        let mut i: usize = 0;
        while i < len
            invariant
                i <= len,
                address + len <= self.arena.memory.len(),
                out@ == self.arena.memory@.subrange(address as int, address + i),
            decreases len - i,
        {
            out.push(self.arena.memory[address + i]);
            i += 1;
        }
        Some(out)
    }

    /// Writes `data` into the arena from `address` on. Nothing is written
    /// unless all of it lies in the arena.
    pub fn write(&mut self, address: usize, data: &[u8]) -> (r: Result<(), HeapError>)
        ensures
            final(self).wf(),
            address + data@.len() <= old(self)@.bytes.len() ==> r is Ok && final(self)@
                == old(self)@.with_bytes(address as int, data@),
            address + data@.len() > old(self)@.bytes.len() ==> r == Err::<(), HeapError>(
                HeapError::OutOfBounds,
            ) && final(self)@ == old(self)@,
    {
        proof {
            use_type_invariant(&*self);
        }
        if address > self.arena.memory.len() || data.len() > self.arena.memory.len() - address {
            return Err(HeapError::OutOfBounds);
        }
        let mut arena = Arena::hollow();
        core::mem::swap(&mut self.arena, &mut arena);
        let mut i: usize = 0;
        while i < data.len()
            invariant
                i <= data.len(),
                address + data.len() <= arena.memory.len(),
                arena.memory.len() == old(self)@.bytes.len(),
                arena.blocks@ == old(self)@.blocks,
                arena.model().bytes == old(self)@.with_bytes(
                    address as int,
                    data@.subrange(0, i as int),
                ).bytes,
            decreases data.len() - i,
        {
            arena.memory[address + i] = data[i];
            i += 1;
        }
        proof {
            assert(data@.subrange(0, i as int) =~= data@);
            lemma_write_wf(old(self)@, address as int, data@);
        }
        self.arena = arena;
        Ok(())
    }

    /// Frees every allocation and fills the arena with zero bytes.
    pub fn reset(&mut self)
        ensures
            final(self).wf(),
            final(self)@ == HeapView::empty(old(self)@.bytes.len()),
    {
        let fresh = Heap::new(self.arena.memory.len());
        *self = fresh;
    }
}

} // verus!
