//! A manually reference-counted shared allocation.
//!
//! Each allocation holds an opaque payload co-located with one
//! machine-word-sized reference count, and is described by descriptors that
//! carry its address and its *total* size (payload plus counter). Sharing
//! increments the embedded count and hands out a new descriptor; freeing
//! decrements it and releases the whole block exactly when the count reaches
//! zero. A descriptor is consumed by its own free and cannot be used
//! afterwards.
//!
//! Because the verified library owns no raw memory, the allocator's heap is
//! modelled explicitly: an arena hands out addresses that are never reused,
//! so a released block stays released. The count is not atomic; sharing one
//! allocation across threads without external locking is outside this
//! design's contract.

use vstd::prelude::*;

verus! {

/// The byte size of the embedded reference counter: one machine word.
pub const NSTD_SHARED_PTR_COUNTER_SIZE: usize = 8;

/// One shared allocation: payload bytes co-located with the reference count
/// that governs them.
struct NSTDSharedBlock {
    /// The payload bytes.
    data: Vec<u8>,
    /// The embedded reference count.
    count: usize,
}

/// The arena owning every shared allocation. An address is a slot index;
/// addresses are never reused, and a freed slot stays empty.
pub struct NSTDSharedHeap {
    /// Every block ever allocated; a released slot holds `None`.
    blocks: Vec<Option<NSTDSharedBlock>>,
}

impl NSTDSharedHeap {
    /// The number of addresses ever handed out.
    pub closed spec fn block_count(&self) -> int {
        self.blocks@.len() as int
    }

    /// Whether the block at `addr` is still allocated.
    pub closed spec fn is_live(&self, addr: int) -> bool {
        0 <= addr < self.blocks@.len() && self.blocks@[addr] is Some
    }

    /// The reference count embedded in the block at `addr`.
    pub closed spec fn count(&self, addr: int) -> usize {
        self.blocks@[addr]->Some_0.count
    }

    /// The payload bytes of the block at `addr`.
    pub closed spec fn payload(&self, addr: int) -> Seq<u8> {
        self.blocks@[addr]->Some_0.data@
    }

    /// Well-formedness: while any block is live its count is at least one,
    /// and its total allocation size is addressable.
    pub closed spec fn wf(&self) -> bool {
        forall|a: int|
            #[trigger] self.is_live(a) ==> self.count(a) >= 1 && self.payload(a).len()
                + NSTD_SHARED_PTR_COUNTER_SIZE <= usize::MAX
    }
}

/// A descriptor of one shared allocation: the block's address and the total
/// allocation size, payload plus counter. Descriptors are not cloneable;
/// new ones come only from sharing, and freeing consumes one.
pub struct NSTDSharedPtr {
    /// The address of the allocation.
    addr: usize,
    /// The total allocation size: payload plus counter.
    size: usize,
}

impl NSTDSharedPtr {
    /// The address of the allocation this descriptor refers to.
    pub closed spec fn address(&self) -> usize {
        self.addr
    }

    /// The total allocation size: payload plus counter.
    pub closed spec fn total_size(&self) -> usize {
        self.size
    }

    /// Whether this descriptor refers to a live block of `heap` and carries
    /// that block's exact total size.
    pub open spec fn valid_in(&self, heap: &NSTDSharedHeap) -> bool {
        &&& heap.is_live(self.address() as int)
        &&& heap.payload(self.address() as int).len() + NSTD_SHARED_PTR_COUNTER_SIZE
            == self.total_size() as int
    }
}

/// Whether the block at `addr` is identical in two heap states.
pub open spec fn block_unchanged(pre: NSTDSharedHeap, post: NSTDSharedHeap, addr: int) -> bool {
    &&& post.is_live(addr) == pre.is_live(addr)
    &&& pre.is_live(addr) ==> post.count(addr) == pre.count(addr) && post.payload(addr)
        == pre.payload(addr)
}

/// Creates an empty arena for shared allocations.
pub fn nstd_shared_heap_new() -> (r: NSTDSharedHeap)
    ensures
        r.wf(),
        r.block_count() == 0,
{
    NSTDSharedHeap { blocks: Vec::new() }
}

/// Creates a new shared allocation with a zero-initialized payload of
/// `element_size` bytes and a reference count of one. The allocation holds
/// `element_size + NSTD_SHARED_PTR_COUNTER_SIZE` bytes in total, which must
/// be addressable.
pub fn nstd_shared_ptr_new_zeroed(heap: &mut NSTDSharedHeap, element_size: usize) -> (r:
    NSTDSharedPtr)
    requires
        old(heap).wf(),
        element_size + NSTD_SHARED_PTR_COUNTER_SIZE <= usize::MAX,
    ensures
        final(heap).wf(),
        r.address() as int == old(heap).block_count(),
        r.total_size() as int == element_size + NSTD_SHARED_PTR_COUNTER_SIZE,
        r.valid_in(final(heap)),
        final(heap).block_count() == old(heap).block_count() + 1,
        final(heap).is_live(r.address() as int),
        final(heap).count(r.address() as int) == 1,
        final(heap).payload(r.address() as int) == Seq::new(element_size as nat, |i: int| 0u8),
        forall|a: int|
            a != r.address() as int ==> #[trigger] block_unchanged(*old(heap), *final(heap), a),
{
    let data = vec![0u8; element_size];
    proof {
        assert(data@ =~= Seq::new(element_size as nat, |i: int| 0u8));
    }
    let addr = heap.blocks.len();
    heap.blocks.push(Some(NSTDSharedBlock { data, count: 1 }));
    proof {
        assert forall|a: int| #[trigger] heap.is_live(a) implies heap.count(a) >= 1
            && heap.payload(a).len() + NSTD_SHARED_PTR_COUNTER_SIZE <= usize::MAX by {
            if a != addr as int {
                assert(old(heap).is_live(a));
            }
        }
    }
    NSTDSharedPtr { addr, size: element_size + NSTD_SHARED_PTR_COUNTER_SIZE }
}

/// Shares an allocation: increments the embedded reference count and
/// returns a new descriptor with the same address and total size. This
/// operation never allocates.
pub fn nstd_shared_ptr_share(heap: &mut NSTDSharedHeap, shared_ptr: &NSTDSharedPtr) -> (r:
    NSTDSharedPtr)
    requires
        old(heap).wf(),
        shared_ptr.valid_in(old(heap)),
        old(heap).count(shared_ptr.address() as int) < usize::MAX,
    ensures
        final(heap).wf(),
        final(heap).block_count() == old(heap).block_count(),
        final(heap).is_live(shared_ptr.address() as int),
        final(heap).count(shared_ptr.address() as int) == old(heap).count(
            shared_ptr.address() as int,
        ) + 1,
        final(heap).payload(shared_ptr.address() as int) == old(heap).payload(
            shared_ptr.address() as int,
        ),
        r.address() == shared_ptr.address(),
        r.total_size() == shared_ptr.total_size(),
        r.valid_in(final(heap)),
        shared_ptr.valid_in(final(heap)),
        forall|a: int|
            a != shared_ptr.address() as int ==> #[trigger] block_unchanged(
                *old(heap),
                *final(heap),
                a,
            ),
{
    let addr = shared_ptr.addr;
    let mut slot: Option<NSTDSharedBlock> = None;
    heap.blocks.set_and_swap(addr, &mut slot);
    let block = slot.unwrap();
    let grown = NSTDSharedBlock { data: block.data, count: block.count + 1 };
    heap.blocks.set(addr, Some(grown));
    proof {
        assert forall|a: int| #[trigger] heap.is_live(a) implies heap.count(a) >= 1
            && heap.payload(a).len() + NSTD_SHARED_PTR_COUNTER_SIZE <= usize::MAX by {
            if a != addr as int {
                assert(heap.blocks@[a] == old(heap).blocks@[a]);
                assert(old(heap).is_live(a));
            }
        }
    }
    NSTDSharedPtr { addr, size: shared_ptr.size }
}

/// Returns the size of the shared payload: the total allocation size minus
/// the counter size, computed rather than stored so that there is a single
/// source of truth.
pub fn nstd_shared_ptr_size(shared_ptr: &NSTDSharedPtr) -> (r: usize)
    requires
        shared_ptr.total_size() >= NSTD_SHARED_PTR_COUNTER_SIZE,
    ensures
        r as int == shared_ptr.total_size() - NSTD_SHARED_PTR_COUNTER_SIZE,
{
    shared_ptr.size - NSTD_SHARED_PTR_COUNTER_SIZE
}

/// Returns the address this descriptor refers to.
pub fn nstd_shared_ptr_address(shared_ptr: &NSTDSharedPtr) -> (r: usize)
    ensures
        r == shared_ptr.address(),
{
    shared_ptr.addr
}

/// Returns a read-only view of the shared payload. Other holders of the
/// same allocation may read it concurrently; none may mutate it without
/// external synchronization.
pub fn nstd_shared_ptr_get_const<'a>(heap: &'a NSTDSharedHeap, shared_ptr: &NSTDSharedPtr) -> (r:
    &'a [u8])
    requires
        shared_ptr.valid_in(heap),
    ensures
        r@ == heap.payload(shared_ptr.address() as int),
{
    let block_opt = &heap.blocks[shared_ptr.addr];
    match block_opt {
        Some(block) => block.data.as_slice(),
        None => vstd::pervasive::unreached(),
    }
}

/// Returns the embedded reference count of the allocation.
pub fn nstd_shared_ptr_count(heap: &NSTDSharedHeap, shared_ptr: &NSTDSharedPtr) -> (r: usize)
    requires
        shared_ptr.valid_in(heap),
    ensures
        r == heap.count(shared_ptr.address() as int),
{
    let block_opt = &heap.blocks[shared_ptr.addr];
    match block_opt {
        Some(block) => block.count,
        None => vstd::pervasive::unreached(),
    }
}

/// Returns whether the allocation at `addr` is still live.
pub fn nstd_shared_heap_is_live(heap: &NSTDSharedHeap, addr: usize) -> (r: bool)
    ensures
        r == heap.is_live(addr as int),
{
    if addr < heap.blocks.len() {
        heap.blocks[addr].is_some()
    } else {
        false
    }
}

/// Frees one descriptor of a shared allocation: decrements the embedded
/// count and, exactly when it reaches zero, releases the whole block. When
/// other holders remain, no memory is released and they are unaffected. The
/// descriptor is consumed and cannot be used again.
pub fn nstd_shared_ptr_free(heap: &mut NSTDSharedHeap, shared_ptr: NSTDSharedPtr)
    requires
        old(heap).wf(),
        shared_ptr.valid_in(old(heap)),
    ensures
        final(heap).wf(),
        final(heap).block_count() == old(heap).block_count(),
        old(heap).count(shared_ptr.address() as int) == 1 ==> !final(heap).is_live(
            shared_ptr.address() as int,
        ),
        old(heap).count(shared_ptr.address() as int) > 1 ==> final(heap).is_live(
            shared_ptr.address() as int,
        ) && final(heap).count(shared_ptr.address() as int) == old(heap).count(
            shared_ptr.address() as int,
        ) - 1 && final(heap).payload(shared_ptr.address() as int) == old(heap).payload(
            shared_ptr.address() as int,
        ),
        forall|a: int|
            a != shared_ptr.address() as int ==> #[trigger] block_unchanged(
                *old(heap),
                *final(heap),
                a,
            ),
{
    let addr = shared_ptr.addr;
    let mut slot: Option<NSTDSharedBlock> = None;
    heap.blocks.set_and_swap(addr, &mut slot);
    let block = slot.unwrap();
    if block.count > 1 {
        let shrunk = NSTDSharedBlock { data: block.data, count: block.count - 1 };
        heap.blocks.set(addr, Some(shrunk));
    }
    proof {
        assert forall|a: int| #[trigger] heap.is_live(a) implies heap.count(a) >= 1
            && heap.payload(a).len() + NSTD_SHARED_PTR_COUNTER_SIZE <= usize::MAX by {
            if a != addr as int {
                assert(heap.blocks@[a] == old(heap).blocks@[a]);
                assert(old(heap).is_live(a));
            }
        }
    }
}

/// The embedded count after a fresh block (count one) has been shared
/// `shares` times and then freed `frees` times, one transition at a time.
pub open spec fn lineage_count(shares: nat, frees: nat) -> int
    decreases frees,
{
    if frees == 0 {
        1 + shares as int
    } else {
        lineage_count(shares, (frees - 1) as nat) - 1
    }
}

/// Count law for a sharing lineage: after `n` shares of a fresh allocation,
/// each of the first `n` frees leaves the count at least one, so the block
/// stays live, and the `n + 1`-th free — and only that one — brings the
/// count to zero, the point at which the block is released.
pub proof fn lemma_share_free_protocol(n: nat, k: nat)
    requires
        k <= n + 1,
    ensures
        lineage_count(n, k) == 1 + n - k,
        k <= n ==> lineage_count(n, k) >= 1,
        (k == n + 1) <==> lineage_count(n, k) == 0,
    decreases k,
{
    if k > 0 {
        lemma_share_free_protocol(n, (k - 1) as nat);
    }
}

} // verus!
