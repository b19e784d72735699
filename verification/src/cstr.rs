//! Null-terminated byte-string processing.
//!
//! The legacy adapter between C-style null-terminated buffers and the
//! library's text types: length discovery by scanning for the zero byte,
//! lexicographic comparison, copying, and conversion to and from UTF-8
//! string views. Converting into a null-terminated form rejects byte
//! sequences holding an embedded zero byte rather than silently truncating.

use vstd::prelude::*;

verus! {

use crate::string::{NSTDStr, copy_slice, nstd_core_str_as_bytes, str_from_utf8_unchecked};
use crate::utf8::valid_utf8;

/// Whether `s` holds a zero byte anywhere.
pub open spec fn has_nul(s: Seq<u8>) -> bool {
    exists|i: int| 0 <= i < s.len() && s[i] == 0
}

/// Whether `i` indexes the first zero byte of `s`.
pub open spec fn is_first_nul(s: Seq<u8>, i: int) -> bool {
    &&& 0 <= i < s.len()
    &&& s[i] == 0
    &&& forall|j: int| 0 <= j < i ==> s[j] != 0
}

/// The index of the first zero byte of `s`; meaningful when `s` has one.
pub open spec fn first_nul(s: Seq<u8>) -> int
    decreases s.len(),
{
    if s.len() == 0 {
        0
    } else if s[0] == 0 {
        0
    } else {
        1 + first_nul(s.skip(1))
    }
}

/// In a byte sequence holding a zero byte, `first_nul` indexes the first one.
pub proof fn lemma_first_nul(s: Seq<u8>)
    requires
        has_nul(s),
    ensures
        is_first_nul(s, first_nul(s)),
    decreases s.len(),
{
    if s[0] == 0 {
    } else {
        let rest = s.skip(1);
        let w = choose|i: int| 0 <= i < s.len() && s[i] == 0;
        assert(rest[w - 1] == 0);
        lemma_first_nul(rest);
        let f = first_nul(rest);
        assert(s[1 + f] == rest[f]);
        assert forall|j: int| 0 <= j < 1 + f implies s[j] != 0 by {
            if j > 0 {
                assert(s[j] == rest[j - 1]);
            }
        }
    }
}

/// Gets the length of a null-terminated byte string, excluding the null
/// byte: the index of the first zero byte in the buffer.
pub fn nstd_core_cstr_raw_len(cstr: &[u8]) -> (r: usize)
    requires
        has_nul(cstr@),
    ensures
        r as int == first_nul(cstr@),
        is_first_nul(cstr@, r as int),
{
    proof {
        lemma_first_nul(cstr@);
    }
    let ghost f = first_nul(cstr@);
    let mut i: usize = 0;
    while cstr[i] != 0
        invariant
            0 <= i <= f,
            is_first_nul(cstr@, f),
            forall|j: int| 0 <= j < i ==> cstr@[j] != 0,
        decreases f - i,
    {
        i += 1;
    }
    i
}

/// Gets the length of a null-terminated byte string, including the null
/// byte.
pub fn nstd_core_cstr_raw_len_with_null(cstr: &[u8]) -> (r: usize)
    requires
        has_nul(cstr@),
    ensures
        r as int == first_nul(cstr@) + 1,
{
    let n = cstr.len();
    let len = nstd_core_cstr_raw_len(cstr);
    proof {
        assert(len < n);
    }
    len + 1
}

/// Compares two null-terminated byte strings, returning true exactly when
/// their contents up to (and excluding) the first null byte are equal.
pub fn nstd_core_cstr_raw_compare(cstr1: &[u8], cstr2: &[u8]) -> (r: bool)
    requires
        has_nul(cstr1@),
        has_nul(cstr2@),
    ensures
        r <==> cstr1@.take(first_nul(cstr1@)) == cstr2@.take(first_nul(cstr2@)),
{
    proof {
        lemma_first_nul(cstr1@);
        lemma_first_nul(cstr2@);
    }
    let ghost f1 = first_nul(cstr1@);
    let ghost f2 = first_nul(cstr2@);
    let mut i: usize = 0;
    while cstr1[i] == cstr2[i] && cstr1[i] != 0
        invariant
            0 <= i <= f1,
            i <= f2,
            is_first_nul(cstr1@, f1),
            is_first_nul(cstr2@, f2),
            forall|j: int| 0 <= j < i ==> cstr1@[j] == cstr2@[j] && cstr1@[j] != 0,
        decreases f1 - i,
    {
        i += 1;
    }
    if cstr1[i] != 0 || cstr2[i] != 0 {
        proof {
            assert(cstr1@.take(f1) != cstr2@.take(f2)) by {
                if cstr1@.take(f1) == cstr2@.take(f2) {
                    assert(f1 == f2) by {
                        assert(cstr1@.take(f1).len() == cstr2@.take(f2).len());
                    }
                    if i < f1 {
                        assert(cstr1@[i as int] == cstr1@.take(f1)[i as int]);
                        assert(cstr2@[i as int] == cstr2@.take(f2)[i as int]);
                    }
                }
            }
        }
        return false;
    }
    proof {
        assert(i == f1 && i == f2);
        assert(cstr1@.take(f1) =~= cstr2@.take(f2));
    }
    true
}

/// Copies the contents of the null-terminated byte string `src` into the
/// start of `dest`, excluding the null terminator. Bytes of `dest` at and
/// past the copied length keep their previous values.
pub fn nstd_core_cstr_raw_copy(dest: &mut Vec<u8>, src: &[u8])
    requires
        has_nul(src@),
        old(dest)@.len() >= first_nul(src@),
    ensures
        final(dest)@.len() == old(dest)@.len(),
        final(dest)@.take(first_nul(src@)) == src@.take(first_nul(src@)),
        final(dest)@.skip(first_nul(src@)) == old(dest)@.skip(first_nul(src@)),
{
    proof {
        lemma_first_nul(src@);
    }
    let ghost f = first_nul(src@);
    let mut i: usize = 0;
    while src[i] != 0
        invariant
            0 <= i <= f,
            is_first_nul(src@, f),
            f <= dest@.len(),
            dest@.len() == old(dest)@.len(),
            forall|j: int| 0 <= j < i ==> dest@[j] == src@[j],
            forall|j: int| i <= j < dest@.len() ==> dest@[j] == old(dest)@[j],
        decreases f - i,
    {
        let b = src[i];
        dest.set(i, b);
        i += 1;
    }
    proof {
        assert(final(dest)@.take(f) =~= src@.take(f));
        assert(final(dest)@.skip(f) =~= old(dest)@.skip(f));
    }
}

/// Copies the contents of the null-terminated byte string `src` into the
/// start of `dest`, including the null terminator. Bytes of `dest` past the
/// copied length keep their previous values.
pub fn nstd_core_cstr_raw_copy_with_null(dest: &mut Vec<u8>, src: &[u8])
    requires
        has_nul(src@),
        old(dest)@.len() >= first_nul(src@) + 1,
    ensures
        final(dest)@.len() == old(dest)@.len(),
        final(dest)@.take(first_nul(src@) + 1) == src@.take(first_nul(src@) + 1),
        final(dest)@.skip(first_nul(src@) + 1) == old(dest)@.skip(first_nul(src@) + 1),
{
    proof {
        lemma_first_nul(src@);
    }
    let ghost f = first_nul(src@);
    let mut i: usize = 0;
    while src[i] != 0
        invariant
            0 <= i <= f,
            is_first_nul(src@, f),
            f + 1 <= dest@.len(),
            dest@.len() == old(dest)@.len(),
            forall|j: int| 0 <= j < i ==> dest@[j] == src@[j],
            forall|j: int| i <= j < dest@.len() ==> dest@[j] == old(dest)@[j],
        decreases f - i,
    {
        let b = src[i];
        dest.set(i, b);
        i += 1;
    }
    dest.set(i, 0);
    proof {
        assert(final(dest)@.take(f + 1) =~= src@.take(f + 1));
        assert(final(dest)@.skip(f + 1) =~= old(dest)@.skip(f + 1));
    }
}

/// Creates a string view from a UTF-8 encoded, null-terminated byte string,
/// excluding the null terminator. The caller warrants, as with any C string
/// handed across the boundary, that the bytes before the terminator are
/// valid UTF-8.
pub fn nstd_core_str_from_cstr(cstr: &[u8]) -> (r: NSTDStr)
    requires
        has_nul(cstr@),
        valid_utf8(cstr@.take(first_nul(cstr@))),
    ensures
        r.wf(),
        r@ == cstr@.take(first_nul(cstr@)),
{
    let len = nstd_core_cstr_raw_len(cstr);
    let prefix = vstd::slice::slice_subrange(cstr, 0, len);
    str_from_utf8_unchecked(copy_slice(prefix))
}

/// Converts a string view into a null-terminated byte buffer: its bytes
/// followed by one zero byte. A string holding an embedded zero byte cannot
/// be represented and is rejected with `None`, never truncated.
pub fn nstd_core_cstr_raw_from_str(s: &NSTDStr) -> (r: Option<Vec<u8>>)
    requires
        s.wf(),
    ensures
        (r is Some) <==> !has_nul(s@),
        r matches Some(v) ==> v@ == s@ + seq![0u8],
{
    let bytes = nstd_core_str_as_bytes(s);
    let mut i: usize = 0;
    while i < bytes.len()
        invariant
            i <= s@.len(),
            bytes@ == s@,
            forall|j: int| 0 <= j < i ==> s@[j] != 0,
        decreases s@.len() - i,
    {
        if bytes[i] == 0 {
            return None;
        }
        i += 1;
    }
    let mut v = copy_slice(bytes);
    v.push(0);
    proof {
        assert(v@ =~= s@ + seq![0u8]);
    }
    Some(v)
}

} // verus!
