//! A dynamically sized, stride-addressed buffer of fixed-size elements.
//!
//! The array is deliberately type-erased: it has no compile-time element
//! type. Every element occupies exactly `stride` bytes, fixed at creation,
//! and all addressing is computed as `index * stride`. The committed range
//! `[0, length * stride)` is the portion of the allocation that holds live
//! element bytes; the rest of the allocation is scratch space.

use vstd::prelude::*;

verus! {

use vstd::arithmetic::div_mod::lemma_fundamental_div_mod;
use vstd::arithmetic::mul::{lemma_mul_basics, lemma_mul_inequality};
use crate::NSTDErrorCode;

/// A growable, stride-addressed buffer of fixed-size elements.
///
/// A stride of zero marks a degenerate zero-sized-element array: it is a
/// valid value that never allocates and never commits any bytes.
pub struct NSTDVec {
    /// The byte size of one element; fixed at creation.
    stride: usize,
    /// The number of committed elements.
    len: usize,
    /// The number of elements the current allocation can hold.
    cap: usize,
    /// The owned allocation, exactly `cap * stride` bytes.
    buffer: Vec<u8>,
}

impl View for NSTDVec {
    type V = Seq<u8>;

    /// The committed bytes: the first `length * stride` bytes of the allocation.
    closed spec fn view(&self) -> Seq<u8> {
        self.buffer@.take(self.len as int * self.stride as int)
    }
}

impl NSTDVec {
    /// The byte size of one element.
    pub closed spec fn stride(&self) -> usize {
        self.stride
    }

    /// The number of committed elements.
    pub closed spec fn length(&self) -> usize {
        self.len
    }

    /// The number of elements the current allocation can hold.
    pub closed spec fn capacity(&self) -> usize {
        self.cap
    }

    /// Well-formedness: the committed range fits in the allocation, the
    /// allocation is exactly `capacity * stride` addressable bytes, and a
    /// zero-stride marker array never allocates.
    pub closed spec fn wf(&self) -> bool {
        &&& self.len <= self.cap
        &&& self.buffer@.len() == self.cap as int * self.stride as int
        &&& self.cap as int * self.stride as int <= usize::MAX as int
        &&& self.stride == 0 ==> self.cap == 0 && self.len == 0
    }
}

/// A well-formed array commits exactly `length * stride` bytes, no more than
/// its capacity can hold.
pub proof fn lemma_vec_wf(v: &NSTDVec)
    requires
        v.wf(),
    ensures
        v@.len() == v.length() as int * v.stride() as int,
        v.length() <= v.capacity(),
        v.length() as int * v.stride() as int <= v.capacity() as int * v.stride() as int,
        v.capacity() as int * v.stride() as int <= usize::MAX as int,
{
    lemma_mul_inequality(v.length() as int, v.capacity() as int, v.stride() as int);
}

/// A byte budget of `m` holds `cap` elements of a positive `stride` exactly
/// when `cap` is at most `m / stride`.
proof fn lemma_cap_bytes(stride: int, cap: int, m: int)
    requires
        stride >= 1,
        cap >= 0,
        m >= 0,
    ensures
        cap <= m / stride <==> cap * stride <= m,
{
    lemma_fundamental_div_mod(m, stride);
    let q = m / stride;
    if cap <= q {
        lemma_mul_inequality(cap, q, stride);
        assert(q * stride <= m) by (nonlinear_arith)
            requires
                m == stride * q + m % stride,
                m % stride >= 0,
        {
        }
    } else {
        lemma_mul_inequality(q + 1, cap, stride);
        assert((q + 1) * stride > m) by (nonlinear_arith)
            requires
                m == stride * q + m % stride,
                m % stride < stride,
        {
        }
    }
}

/// Whether `bytes` is a whole number of `stride`-sized elements. A
/// zero-stride marker array accepts only an empty byte sequence.
pub open spec fn whole_elements(stride: usize, bytes: Seq<u8>) -> bool {
    if stride == 0 {
        bytes.len() == 0
    } else {
        bytes.len() as int % stride as int == 0
    }
}

/// The number of elements that `bytes` contributes to an array of the given
/// stride.
pub open spec fn element_count(stride: usize, bytes: Seq<u8>) -> int {
    if stride == 0 {
        0
    } else {
        bytes.len() as int / stride as int
    }
}

/// Creates a new, empty dynamic array. No memory is allocated; `stride` may
/// be zero, which yields the zero-sized-element marker array.
pub fn nstd_vec_new(stride: usize) -> (r: NSTDVec)
    ensures
        r.wf(),
        r.stride() == stride,
        r.length() == 0,
        r.capacity() == 0,
        r@ == Seq::<u8>::empty(),
{
    let r = NSTDVec { stride, len: 0, cap: 0, buffer: Vec::new() };
    proof {
        lemma_mul_basics(stride as int);
        assert(r@ =~= Seq::<u8>::empty());
    }
    r
}

/// Creates a new dynamic array with `cap` elements eagerly allocated.
///
/// Pre-sizing to zero capacity has no purpose and is a caller error, so
/// `cap` must be at least one. The construction fails, returning `None` and
/// allocating nothing, exactly when `cap * stride` bytes are not
/// addressable. A zero stride yields the marker array, which never
/// allocates.
pub fn nstd_vec_new_with_cap(stride: usize, cap: usize) -> (r: Option<NSTDVec>)
    requires
        cap >= 1,
    ensures
        (r is Some) <==> stride as int * cap as int <= usize::MAX as int,
        r matches Some(v) ==> {
            &&& v.wf()
            &&& v.stride() == stride
            &&& v.length() == 0
            &&& v@ == Seq::<u8>::empty()
            &&& v.capacity() as int == if stride == 0 { 0int } else { cap as int }
        },
{
    if stride == 0 {
        let v = NSTDVec { stride, len: 0, cap: 0, buffer: Vec::new() };
        proof {
            lemma_mul_basics(stride as int);
            assert(v@ =~= Seq::<u8>::empty());
        }
        return Some(v);
    }
    proof {
        lemma_cap_bytes(stride as int, cap as int, usize::MAX as int);
        assert(stride as int * cap as int == cap as int * stride as int) by (nonlinear_arith);
    }
    if cap > usize::MAX / stride {
        return None;
    }
    let bytes = cap * stride;
    let buffer = vec![0u8; bytes];
    let v = NSTDVec { stride, len: 0, cap, buffer };
    proof {
        lemma_mul_basics(stride as int);
        assert(v@ =~= Seq::<u8>::empty());
    }
    Some(v)
}

/// Returns the number of committed elements in `vec`.
pub fn nstd_vec_len(vec: &NSTDVec) -> (r: usize)
    ensures
        r == vec.length(),
{
    vec.len
}

/// Returns the byte size of one of `vec`'s elements.
pub fn nstd_vec_stride(vec: &NSTDVec) -> (r: usize)
    ensures
        r == vec.stride(),
{
    vec.stride
}

/// Returns the number of elements `vec`'s allocation can hold.
pub fn nstd_vec_cap(vec: &NSTDVec) -> (r: usize)
    ensures
        r == vec.capacity(),
{
    vec.cap
}

/// Returns the committed byte at byte offset `index`.
pub fn nstd_vec_byte_at(vec: &NSTDVec, index: usize) -> (r: u8)
    requires
        vec.wf(),
        (index as int) < vec@.len(),
    ensures
        r == vec@[index as int],
{
    proof {
        lemma_vec_wf(vec);
    }
    vec.buffer[index]
}

/// Overwrites one committed byte. This is the mutable counterpart of the
/// committed view; it requires the exclusive access that a mutable borrow
/// grants and never touches length, capacity or scratch space.
pub fn nstd_vec_set_byte(vec: &mut NSTDVec, index: usize, byte: u8)
    requires
        old(vec).wf(),
        (index as int) < old(vec)@.len(),
    ensures
        final(vec).wf(),
        final(vec).stride() == old(vec).stride(),
        final(vec).length() == old(vec).length(),
        final(vec).capacity() == old(vec).capacity(),
        final(vec)@ == old(vec)@.update(index as int, byte),
{
    proof {
        lemma_vec_wf(vec);
    }
    vec.buffer.set(index, byte);
    proof {
        assert(vec@ =~= old(vec)@.update(index as int, byte));
    }
}

/// Appends `bytes`, a whole number of elements, to the end of `vec`.
///
/// When the new length exceeds the capacity, the allocation grows — by
/// doubling, or to the exact new length when the doubled allocation would
/// not be addressable — and the committed bytes are carried over. Either the
/// whole extension succeeds or the array is left exactly as it was.
///
/// Returns 0 on success; 1 when `bytes` is not a whole number of elements;
/// 2 when the extended committed range would not be addressable.
#[verifier::loop_isolation(false)]
pub fn nstd_vec_extend(vec: &mut NSTDVec, bytes: &[u8]) -> (r: NSTDErrorCode)
    requires
        old(vec).wf(),
    ensures
        final(vec).wf(),
        final(vec).stride() == old(vec).stride(),
        r == 0 || r == 1 || r == 2,
        (r == 1) <==> !whole_elements(old(vec).stride(), bytes@),
        (r == 2) <==> whole_elements(old(vec).stride(), bytes@)
            && old(vec)@.len() + bytes@.len() > usize::MAX as int,
        r != 0 ==> *final(vec) == *old(vec),
        r == 0 ==> final(vec)@ == old(vec)@ + bytes@,
        r == 0 ==> final(vec).length() as int == old(vec).length() as int
            + element_count(old(vec).stride(), bytes@),
        r == 0 && old(vec).length() as int + element_count(old(vec).stride(), bytes@)
            <= old(vec).capacity() as int ==> final(vec).capacity() == old(vec).capacity(),
{
    let s = vec.stride;
    if s == 0 {
        if bytes.len() == 0 {
            proof {
                assert(vec@ =~= old(vec)@ + bytes@);
            }
            return 0;
        }
        return 1;
    }
    if bytes.len() % s != 0 {
        return 1;
    }
    proof {
        lemma_vec_wf(vec);
    }
    let committed = vec.len * s;
    if bytes.len() > usize::MAX - committed {
        return 2;
    }
    let total = committed + bytes.len();
    let added = bytes.len() / s;
    proof {
        lemma_fundamental_div_mod(bytes@.len() as int, s as int);
        assert(total as int == (vec.len as int + added as int) * s as int) by (nonlinear_arith)
            requires
                committed as int == vec.len as int * s as int,
                bytes@.len() as int == s as int * added as int,
                total as int == committed as int + bytes@.len(),
        {
        }
        assert(vec.len as int + added as int <= total as int) by (nonlinear_arith)
            requires
                s as int >= 1,
                vec.len as int >= 0,
                added as int >= 0,
                total as int == (vec.len as int + added as int) * s as int,
        {
        }
    }
    let new_len = vec.len + added;
    if new_len > vec.cap {
        let doubled = if vec.cap <= usize::MAX / 2 {
            2 * vec.cap
        } else {
            usize::MAX
        };
        let mut target = if doubled > new_len {
            doubled
        } else {
            new_len
        };
        if target > usize::MAX / s {
            target = new_len;
        }
        proof {
            if target as int <= usize::MAX as int / s as int {
                lemma_cap_bytes(s as int, target as int, usize::MAX as int);
            }
            lemma_mul_inequality(new_len as int, target as int, s as int);
        }
        let grown_bytes = target * s;
        let mut nb: Vec<u8> = Vec::new();
        let mut i: usize = 0;
        while i < committed
            invariant
                i <= committed,
                nb@ == vec.buffer@.take(i as int),
            decreases committed - i,
        {
            let b = vec.buffer[i];
            nb.push(b);
            i += 1;
            proof {
                assert(nb@ =~= vec.buffer@.take(i as int));
            }
        }
        while nb.len() < grown_bytes
            invariant
                committed <= nb@.len() <= grown_bytes,
                nb@.take(committed as int) == vec.buffer@.take(committed as int),
            decreases grown_bytes - nb@.len(),
        {
            nb.push(0);
            proof {
                assert(nb@.take(committed as int) =~= vec.buffer@.take(committed as int));
            }
        }
        vec.buffer = nb;
        vec.cap = target;
        proof {
            assert(vec@ =~= old(vec)@);
        }
    } else {
        proof {
            lemma_mul_inequality(new_len as int, vec.cap as int, s as int);
        }
    }
    let ghost cap_now = vec.cap;
    let ghost buffer_entry = vec.buffer@;
    let mut j: usize = 0;
    while j < bytes.len()
        invariant
            j <= bytes@.len(),
            vec.stride == s,
            vec.len == old(vec).length(),
            vec.cap == cap_now,
            vec.buffer@.len() == buffer_entry.len(),
            committed as int + bytes@.len() <= vec.buffer@.len(),
            vec.buffer@.take(committed as int) == old(vec)@,
            vec.buffer@.subrange(committed as int, committed as int + j as int)
                == bytes@.take(j as int),
        decreases bytes@.len() - j,
    {
        let b = bytes[j];
        vec.buffer.set(committed + j, b);
        j += 1;
        proof {
            assert(vec.buffer@.take(committed as int) =~= old(vec)@);
            assert(vec.buffer@.subrange(committed as int, committed as int + j as int)
                =~= bytes@.take(j as int));
        }
    }
    vec.len = new_len;
    proof {
        assert(bytes@.take(bytes@.len() as int) =~= bytes@);
        assert(vec.len as int * vec.stride as int == total as int);
        assert(vec@ =~= old(vec)@ + bytes@);
    }
    0
}

/// Appends one element, given as its raw bytes, to the end of `vec`.
///
/// Returns 0 on success; 1 when `element` is not exactly one element's
/// bytes; 2 when the extended committed range would not be addressable.
pub fn nstd_vec_push(vec: &mut NSTDVec, element: &[u8]) -> (r: NSTDErrorCode)
    requires
        old(vec).wf(),
    ensures
        final(vec).wf(),
        final(vec).stride() == old(vec).stride(),
        r == 0 || r == 1 || r == 2,
        (r == 1) <==> element@.len() != old(vec).stride(),
        (r == 2) <==> element@.len() == old(vec).stride()
            && old(vec)@.len() + element@.len() > usize::MAX as int,
        r != 0 ==> *final(vec) == *old(vec),
        r == 0 ==> final(vec)@ == old(vec)@ + element@,
        r == 0 && old(vec).stride() >= 1 ==> final(vec).length() == old(vec).length() + 1,
        r == 0 && old(vec).length() < old(vec).capacity() && old(vec).stride() >= 1
            ==> final(vec).capacity() == old(vec).capacity(),
{
    if element.len() != vec.stride {
        return 1;
    }
    proof {
        let s = vec.stride as int;
        if s >= 1 {
            assert(s % s == 0 && s / s == 1) by (nonlinear_arith)
                requires
                    s >= 1,
            {
            }
        }
    }
    nstd_vec_extend(vec, element)
}

/// Shrinks the committed length of `vec` to `new_len` elements.
///
/// Only the length changes: nothing is reallocated, and no byte beyond the
/// new logical end is read or written. Bytes past the new end become
/// scratch space and must not be assumed to keep any value.
pub fn nstd_vec_truncate(vec: &mut NSTDVec, new_len: usize)
    requires
        old(vec).wf(),
        new_len <= old(vec).length(),
    ensures
        final(vec).wf(),
        final(vec).stride() == old(vec).stride(),
        final(vec).capacity() == old(vec).capacity(),
        final(vec).length() == new_len,
        final(vec)@ == old(vec)@.take(new_len as int * old(vec).stride() as int),
{
    proof {
        lemma_vec_wf(vec);
        lemma_mul_inequality(new_len as int, vec.len as int, vec.stride as int);
    }
    vec.len = new_len;
    proof {
        assert(vec@ =~= old(vec)@.take(new_len as int * old(vec).stride() as int));
    }
}

/// Creates a deep copy of `vec` with an exact-fit allocation: the copy's
/// capacity equals its length, and it never shares memory with the source.
#[verifier::loop_isolation(false)]
pub fn nstd_vec_clone(vec: &NSTDVec) -> (r: NSTDVec)
    requires
        vec.wf(),
    ensures
        r.wf(),
        r.stride() == vec.stride(),
        r.length() == vec.length(),
        r.capacity() == vec.length(),
        r@ == vec@,
{
    proof {
        lemma_vec_wf(vec);
    }
    let committed = vec.len * vec.stride;
    let mut nb: Vec<u8> = Vec::new();
    let mut i: usize = 0;
    while i < committed
        invariant
            i <= committed,
            nb@ == vec.buffer@.take(i as int),
        decreases committed - i,
    {
        let b = vec.buffer[i];
        nb.push(b);
        i += 1;
        proof {
            assert(nb@ =~= vec.buffer@.take(i as int));
        }
    }
    let r = NSTDVec { stride: vec.stride, len: vec.len, cap: vec.len, buffer: nb };
    proof {
        assert(r@ =~= vec@);
    }
    r
}

/// Releases `vec`'s allocation (a no-op when the capacity is zero) and
/// resets the descriptor to the empty state.
pub fn nstd_vec_free(vec: &mut NSTDVec)
    requires
        old(vec).wf(),
    ensures
        final(vec).wf(),
        final(vec).stride() == old(vec).stride(),
        final(vec).length() == 0,
        final(vec).capacity() == 0,
        final(vec)@ == Seq::<u8>::empty(),
{
    vec.buffer = Vec::new();
    vec.len = 0;
    vec.cap = 0;
    proof {
        lemma_mul_basics(vec.stride as int);
        assert(vec@ =~= Seq::<u8>::empty());
    }
}

/// Append-only law: extending a committed byte range never disturbs the
/// previously committed bytes, and the byte counts add up.
pub proof fn lemma_append_only(prev: Seq<u8>, added: Seq<u8>)
    ensures
        (prev + added).len() == prev.len() + added.len(),
        (prev + added).take(prev.len() as int) == prev,
        forall|i: int| 0 <= i < prev.len() ==> (prev + added)[i] == prev[i],
{
    assert((prev + added).take(prev.len() as int) =~= prev);
}

/// Returns a read-only view of exactly the committed byte range.
pub fn nstd_vec_as_slice(vec: &NSTDVec) -> (r: &[u8])
    requires
        vec.wf(),
    ensures
        r@ == vec@,
{
    proof {
        lemma_vec_wf(vec);
    }
    let bytes = vec.len * vec.stride;
    vstd::slice::slice_subrange(vec.buffer.as_slice(), 0, bytes)
}

} // verus!
