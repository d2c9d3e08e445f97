use vstd::prelude::*;
use vstd::arithmetic::div_mod::{
    lemma_fundamental_div_mod, lemma_mod_multiples_basic, lemma_mod_pos_bound,
};

verus! {

/// Why an allocation request was refused.
#[derive(Debug, Clone, Copy, PartialEq, Eq, Structural)]
pub enum AllocError {
    /// The aligned block does not fit below the end of the region, or no
    /// further live allocation can be counted.
    OutOfMemory,
    /// The end of the aligned block lies beyond the largest address.
    MemAddrOverflow,
}

/// The abstract state of an [`Allocator`]: region bounds, cursor and the
/// number of outstanding allocations.
pub struct HeapState {
    pub heap_start: int,
    pub heap_end: int,
    pub next: int,
    pub allocations: int,
}

impl HeapState {
    /// The cursor stays within the region, and it rests at the region's start
    /// whenever no allocation is outstanding.
    pub open spec fn wf(self) -> bool {
        &&& 0 <= self.heap_start <= self.next <= self.heap_end <= usize::MAX
        &&& 0 <= self.allocations <= usize::MAX
        &&& self.allocations == 0 ==> self.next == self.heap_start
    }
}

/// The smallest multiple of `align` that is not below `addr`.
pub open spec fn align_up_spec(addr: int, align: int) -> int {
    if addr % align == 0 {
        addr
    } else {
        addr - addr % align + align
    }
}

/// Rounding up yields a multiple of `align` less than `align` above `addr`.
pub proof fn lemma_align_up(addr: int, align: int)
    requires
        0 <= addr,
        0 < align,
    ensures
        align_up_spec(addr, align) % align == 0,
        addr <= align_up_spec(addr, align) < addr + align,
        addr % align <= addr,
{
    let q = addr / align;
    let r = addr % align;
    lemma_fundamental_div_mod(addr, align);
    lemma_mod_pos_bound(addr, align);
    assert(r <= addr) by (nonlinear_arith)
        requires
            addr == align * q + r,
            0 <= r < align,
            0 <= addr,
    ;
    if r != 0 {
        assert(addr - r + align == (q + 1) * align) by (nonlinear_arith)
            requires
                addr == align * q + r,
        ;
        lemma_mod_multiples_basic(q + 1, align);
    }
}

/// What an allocation of `size` bytes at alignment `align` yields in state `s`.
pub open spec fn alloc_outcome(s: HeapState, size: int, align: int) -> Result<int, AllocError> {
    let start = align_up_spec(s.next, align);
    if start + size > usize::MAX {
        Err(AllocError::MemAddrOverflow)
    } else if start + size > s.heap_end || s.allocations == usize::MAX {
        Err(AllocError::OutOfMemory)
    } else {
        Ok(start)
    }
}

/// The state after an allocation of `size` bytes at alignment `align` in `s`.
pub open spec fn alloc_state(s: HeapState, size: int, align: int) -> HeapState {
    match alloc_outcome(s, size, align) {
        Ok(start) => HeapState { next: start + size, allocations: s.allocations + 1, ..s },
        Err(_) => s,
    }
}

/// The state after one outstanding allocation of `s` is released.
pub open spec fn dealloc_state(s: HeapState) -> HeapState {
    if s.allocations == 0 {
        s
    } else if s.allocations == 1 {
        HeapState { next: s.heap_start, allocations: 0, ..s }
    } else {
        HeapState { allocations: s.allocations - 1, ..s }
    }
}

/// One request made of an allocator.
pub enum Request {
    Allocate { size: nat, align: nat },
    Free,
}

/// Every allocation request of `rs` asks for a nonzero alignment.
pub open spec fn valid_requests(rs: Seq<Request>) -> bool {
    forall|k: int| 0 <= k < rs.len() ==> (#[trigger] rs[k] matches Request::Allocate { align, .. } ==> align > 0)
}

/// The state after request `r` in state `s`.
pub open spec fn step(s: HeapState, r: Request) -> HeapState {
    match r {
        Request::Allocate { size, align } => alloc_state(s, size as int, align as int),
        Request::Free => dealloc_state(s),
    }
}

/// The state after the requests of `rs`, in order, starting from `s`.
pub open spec fn run(s: HeapState, rs: Seq<Request>) -> HeapState
    decreases rs.len(),
{
    if rs.len() == 0 {
        s
    } else {
        step(run(s, rs.drop_last()), rs.last())
    }
}

proof fn lemma_run_take_step(s: HeapState, rs: Seq<Request>, k: int)
    requires
        0 <= k < rs.len(),
    ensures
        run(s, rs.take(k + 1)) == step(run(s, rs.take(k)), rs[k]),
{
    assert(rs.take(k + 1).drop_last() =~= rs.take(k));
}

proof fn lemma_valid_prefix(rs: Seq<Request>, n: int)
    requires
        valid_requests(rs),
        0 <= n <= rs.len(),
    ensures
        valid_requests(rs.take(n)),
{
    assert forall|k: int| 0 <= k < rs.take(n).len() implies (#[trigger] rs.take(n)[k] matches Request::Allocate { align, .. } ==> align > 0) by {
        assert(rs.take(n)[k] == rs[k]);
    }
}

/// Any request keeps a well-formed state well formed, with the region fixed.
pub proof fn lemma_step_wf(s: HeapState, r: Request)
    requires
        s.wf(),
        r matches Request::Allocate { align, .. } ==> align > 0,
    ensures
        step(s, r).wf(),
        step(s, r).heap_start == s.heap_start,
        step(s, r).heap_end == s.heap_end,
        step(s, r).allocations > 0 ==> s.next <= step(s, r).next,
{
    if let Request::Allocate { size, align } = r {
        lemma_align_up(s.next, align as int);
    }
}

/// Whatever the requests, the cursor stays between the start and the end of
/// the region, the region itself never changes, and the cursor is back at the
/// start whenever no allocation is outstanding.
pub proof fn lemma_run_wf(s: HeapState, rs: Seq<Request>)
    requires
        s.wf(),
        valid_requests(rs),
    ensures
        run(s, rs).wf(),
        s.heap_start <= run(s, rs).next <= s.heap_end,
        run(s, rs).heap_start == s.heap_start,
        run(s, rs).heap_end == s.heap_end,
    decreases rs.len(),
{
    if rs.len() > 0 {
        let init = rs.drop_last();
        assert(init =~= rs.take(rs.len() - 1));
        lemma_valid_prefix(rs, rs.len() - 1);
        lemma_run_wf(s, init);
        assert(rs.last() == rs[rs.len() - 1]);
        lemma_step_wf(run(s, init), rs.last());
    }
}

/// Once the outstanding count of a run of requests is back to zero, the
/// cursor is back at the start of the region.
pub proof fn lemma_drained_run_resets(s: HeapState, rs: Seq<Request>)
    requires
        s.wf(),
        valid_requests(rs),
        run(s, rs).allocations == 0,
    ensures
        run(s, rs).next == s.heap_start,
{
    lemma_run_wf(s, rs);
}

proof fn lemma_cursor_monotone(s: HeapState, rs: Seq<Request>, i: int, j: int)
    requires
        s.wf(),
        valid_requests(rs),
        0 <= i <= j <= rs.len(),
        forall|k: int| i < k <= j ==> (#[trigger] run(s, rs.take(k))).allocations > 0,
    ensures
        run(s, rs.take(i)).next <= run(s, rs.take(j)).next,
    decreases j - i,
{
    if i < j {
        lemma_cursor_monotone(s, rs, i, j - 1);
        lemma_run_take_step(s, rs, j - 1);
        lemma_valid_prefix(rs, j - 1);
        lemma_run_wf(s, rs.take(j - 1));
        assert(rs[j - 1] matches Request::Allocate { align, .. } ==> align > 0);
        lemma_step_wf(run(s, rs.take(j - 1)), rs[j - 1]);
    }
}

/// Two blocks handed out by a run of requests do not overlap while the first
/// is live, that is while the outstanding count has not fallen back to zero
/// since it was handed out.
pub proof fn lemma_live_blocks_disjoint(s: HeapState, rs: Seq<Request>, i: int, j: int)
    requires
        s.wf(),
        valid_requests(rs),
        0 <= i < j < rs.len(),
        rs[i] is Allocate,
        rs[j] is Allocate,
        alloc_outcome(run(s, rs.take(i)), rs[i]->size as int, rs[i]->align as int) is Ok,
        alloc_outcome(run(s, rs.take(j)), rs[j]->size as int, rs[j]->align as int) is Ok,
        forall|k: int| i < k <= j ==> (#[trigger] run(s, rs.take(k))).allocations > 0,
    ensures
        ({
            let a1 = alloc_outcome(run(s, rs.take(i)), rs[i]->size as int, rs[i]->align as int)->Ok_0;
            let a2 = alloc_outcome(run(s, rs.take(j)), rs[j]->size as int, rs[j]->align as int)->Ok_0;
            a1 + rs[i]->size <= a2 || a2 + rs[j]->size <= a1
        }),
{
    lemma_run_take_step(s, rs, i);
    lemma_cursor_monotone(s, rs, i + 1, j);
    assert(rs[j] matches Request::Allocate { align, .. } ==> align > 0);
    lemma_valid_prefix(rs, j);
    lemma_run_wf(s, rs.take(j));
    lemma_align_up(run(s, rs.take(j)).next, rs[j]->align as int);
}

/// Rounds `ptr_addr` up to the next multiple of `align`, or `None` where that
/// multiple lies beyond `usize::MAX`.
pub fn align_up(ptr_addr: usize, align: usize) -> (r: Option<usize>)
    requires
        align > 0,
    ensures
        align_up_spec(ptr_addr as int, align as int) <= usize::MAX ==> r == Some(
            align_up_spec(ptr_addr as int, align as int) as usize,
        ),
        align_up_spec(ptr_addr as int, align as int) > usize::MAX ==> r is None,
        r matches Some(a) ==> a % align == 0 && ptr_addr <= a < ptr_addr + align,
{
    proof {
        lemma_align_up(ptr_addr as int, align as int);
    }
    let remainder = ptr_addr % align;
    if remainder == 0 {
        Some(ptr_addr)
    } else {
        let base = ptr_addr - remainder;
        base.checked_add(align)
    }
}

/// A bump allocator: blocks are carved from `[heap_start, heap_end)` by
/// advancing `next`; the whole region is reclaimed at once when the count of
/// outstanding allocations falls to zero.
pub struct Allocator {
    heap_start: usize,
    heap_end: usize,
    next: usize,
    allocations: usize,
}

impl View for Allocator {
    type V = HeapState;

    closed spec fn view(&self) -> HeapState {
        HeapState {
            heap_start: self.heap_start as int,
            heap_end: self.heap_end as int,
            next: self.next as int,
            allocations: self.allocations as int,
        }
    }
}

impl Allocator {
    #[verifier::type_invariant]
    spec fn inv(self) -> bool {
        &&& self.heap_start <= self.next <= self.heap_end
        &&& self.allocations == 0 ==> self.next == self.heap_start
    }

    /// An allocator over the empty region at address zero.
    pub fn new() -> (r: Self)
        ensures
            r@ == (HeapState { heap_start: 0, heap_end: 0, next: 0, allocations: 0 }),
    {
        Allocator { heap_start: 0, heap_end: 0, next: 0, allocations: 0 }
    }

    /// Hands the region `[heap_start, heap_start + heap_size)` to the
    /// allocator, with no allocation outstanding. The caller vouches that the
    /// region is otherwise unused and that this is done once, before any
    /// allocation.
    pub fn init(&mut self, heap_start: usize, heap_size: usize)
        requires
            heap_start + heap_size <= usize::MAX,
        ensures
            final(self)@ == (HeapState {
                heap_start: heap_start as int,
                heap_end: heap_start + heap_size,
                next: heap_start as int,
                allocations: 0,
            }),
    {
        *self = Allocator {
            heap_start,
            heap_end: heap_start + heap_size,
            next: heap_start,
            allocations: 0,
        };
    }

    /// Carves a block of `size` bytes at alignment `align` from the region:
    /// the block starts at the cursor rounded up to `align`, and the cursor
    /// moves to its end. A zero-size block advances the cursor to the aligned
    /// position only, so two of them in a row share an address unless the
    /// second asks for a coarser alignment. A refused request changes nothing.
    pub fn allocate(&mut self, size: usize, align: usize) -> (r: Result<usize, AllocError>)
        requires
            align > 0,
        ensures
            r matches Ok(a) ==> alloc_outcome(old(self)@, size as int, align as int) == Ok::<
                int,
                AllocError,
            >(a as int),
            r matches Err(e) ==> alloc_outcome(old(self)@, size as int, align as int) == Err::<
                int,
                AllocError,
            >(e),
            final(self)@ == alloc_state(old(self)@, size as int, align as int),
            final(self)@.wf(),
            r matches Ok(a) ==> a % align == 0,
            align_up_spec(old(self)@.next, align as int) + size > usize::MAX ==> r
                == Err::<usize, AllocError>(AllocError::MemAddrOverflow),
            align_up_spec(old(self)@.next, align as int) + size > old(self)@.heap_end ==> r is Err
                && final(self)@ == old(self)@,
    {
        proof {
            use_type_invariant(&*self);
            lemma_align_up(self.next as int, align as int);
        }
        let start = match align_up(self.next, align) {
            Some(start) => start,
            None => return Err(AllocError::MemAddrOverflow),
        };
        let end = match start.checked_add(size) {
            Some(end) => end,
            None => return Err(AllocError::MemAddrOverflow),
        };
        if end > self.heap_end || self.allocations == usize::MAX {
            return Err(AllocError::OutOfMemory);
        }
        *self = Allocator { next: end, allocations: self.allocations + 1, ..*self };
        Ok(start)
    }

    /// Releases one outstanding allocation; when none is left, the cursor
    /// returns to the start of the region. Returns `false`, and changes
    /// nothing, where no allocation is outstanding: such a release has no
    /// matching allocation.
    pub fn free(&mut self) -> (released: bool)
        ensures
            released == (old(self)@.allocations > 0),
            final(self)@ == dealloc_state(old(self)@),
            final(self)@.wf(),
    {
        proof {
            use_type_invariant(&*self);
        }
        if self.allocations == 0 {
            return false;
        }
        if self.allocations == 1 {
            *self = Allocator { next: self.heap_start, allocations: 0, ..*self };
        } else {
            *self = Allocator { allocations: self.allocations - 1, ..*self };
        }
        true
    }

    /// The first address of the region.
    pub fn heap_start(&self) -> (r: usize)
        ensures
            r == self@.heap_start,
            self@.wf(),
    {
        proof {
            use_type_invariant(self);
        }
        self.heap_start
    }

    /// The address just past the region.
    pub fn heap_end(&self) -> (r: usize)
        ensures
            r == self@.heap_end,
    {
        self.heap_end
    }

    /// The address at which the next block would start before alignment.
    pub fn next(&self) -> (r: usize)
        ensures
            r == self@.next,
    {
        self.next
    }

    /// The number of outstanding allocations.
    pub fn allocations(&self) -> (r: usize)
        ensures
            r == self@.allocations,
    {
        self.allocations
    }
}

} // verus!
