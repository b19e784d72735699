//! Dynamically sized UTF-8 encoded byte string.
//!
//! The text buffer is a stride-1 dynamic array whose committed bytes are
//! valid UTF-8 at all times. Validity is enforced exhaustively at the few
//! mutation entry points — pushing a code point, appending another string,
//! popping the last code point — so read paths need no runtime revalidation.

use vstd::prelude::*;

verus! {

use vstd::arithmetic::div_mod::{
    lemma_div_is_ordered, lemma_fundamental_div_mod, lemma_mod_division_less_than_divisor,
};
use vstd::arithmetic::mul::lemma_mul_basics;
use crate::NSTDErrorCode;
use crate::utf8::{
    decode_head, encode_utf8, head_len, is_continuation, is_unicode_scalar, last_codepoint,
    last_head_index, lemma_encode_utf8_props, lemma_encoding_head_not_continuation,
    lemma_last_head_index_pinpoint, lemma_scalar_encoding_reconstruct,
    lemma_scalar_encoding_valid_utf8, lemma_valid_utf8_append, lemma_valid_utf8_last,
    strip_last_codepoint, utf8_len, valid_scalar_encoding, valid_utf8,
};
use crate::vec::{
    NSTDVec, lemma_vec_wf, nstd_vec_as_slice, nstd_vec_byte_at, nstd_vec_clone, nstd_vec_extend,
    nstd_vec_free, nstd_vec_len, nstd_vec_new, nstd_vec_new_with_cap, nstd_vec_truncate,
};

/// An owned view of a UTF-8 encoded byte string: a snapshot of committed
/// bytes that are valid UTF-8 by construction.
pub struct NSTDStr {
    /// The UTF-8 encoded bytes.
    bytes: Vec<u8>,
}

impl View for NSTDStr {
    type V = Seq<u8>;

    /// The UTF-8 encoded bytes.
    closed spec fn view(&self) -> Seq<u8> {
        self.bytes@
    }
}

impl NSTDStr {
    /// Well-formedness: the bytes are valid UTF-8.
    pub closed spec fn wf(&self) -> bool {
        valid_utf8(self.bytes@)
    }
}

/// Dynamically sized UTF-8 encoded byte string.
pub struct NSTDString {
    /// The underlying UTF-8 encoded byte buffer.
    bytes: NSTDVec,
}

impl View for NSTDString {
    type V = Seq<u8>;

    /// The committed UTF-8 encoded bytes.
    closed spec fn view(&self) -> Seq<u8> {
        self.bytes@
    }
}

impl NSTDString {
    /// Well-formedness: the backing array is a well-formed stride-1 array
    /// whose committed bytes are valid UTF-8.
    pub closed spec fn wf(&self) -> bool {
        &&& self.bytes.wf()
        &&& self.bytes.stride() == 1
        &&& valid_utf8(self.bytes@)
    }

    /// The byte capacity of the backing array.
    pub closed spec fn capacity(&self) -> usize {
        self.bytes.capacity()
    }
}

/// Wraps bytes already known to be valid UTF-8 in a string view.
pub(crate) fn str_from_utf8_unchecked(bytes: Vec<u8>) -> (r: NSTDStr)
    requires
        valid_utf8(bytes@),
    ensures
        r.wf(),
        r@ == bytes@,
{
    NSTDStr { bytes }
}

/// Copies a byte slice into a freshly allocated buffer.
pub(crate) fn copy_slice(src: &[u8]) -> (r: Vec<u8>)
    ensures
        r@ == src@,
{
    let mut r: Vec<u8> = Vec::new();
    let mut i: usize = 0;
    while i < src.len()
        invariant
            i <= src@.len(),
            r@ == src@.take(i as int),
        decreases src@.len() - i,
    {
        let b = src[i];
        r.push(b);
        i += 1;
        proof {
            assert(r@ =~= src@.take(i as int));
        }
    }
    proof {
        assert(src@.take(src@.len() as int) =~= src@);
    }
    r
}

/// Returns the encoding length announced by a UTF-8 head byte, or zero when
/// the byte cannot head a valid encoding.
fn utf8_head_len(b: u8) -> (r: usize)
    ensures
        r as int == head_len(b),
{
    if b < 0x80 {
        1
    } else if b < 0xC0 {
        0
    } else if b < 0xE0 {
        2
    } else if b < 0xF0 {
        3
    } else if b < 0xF8 {
        4
    } else {
        0
    }
}

/// Creates a string view from raw bytes, validating that they are UTF-8.
///
/// Returns `Some` with a view of the same bytes exactly when `bytes` decodes
/// as valid UTF-8 with no trailing partial sequence, and `None` otherwise.
#[verifier::loop_isolation(false)]
pub fn nstd_core_str_from_bytes(bytes: &[u8]) -> (r: Option<NSTDStr>)
    ensures
        (r is Some) <==> valid_utf8(bytes@),
        r matches Some(s) ==> s.wf() && s@ == bytes@,
{
    let n = bytes.len();
    proof {
        assert(bytes@.skip(0) =~= bytes@);
    }
    let mut i: usize = 0;
    while i < n
        invariant
            i <= n,
            valid_utf8(bytes@) <==> valid_utf8(bytes@.skip(i as int)),
        decreases n - i,
    {
        let ghost tail = bytes@.skip(i as int);
        let b0 = bytes[i];
        let hl = utf8_head_len(b0);
        if hl == 0 || hl > n - i {
            return None;
        }
        let ghost block = tail.take(hl as int);
        // Check that the continuation bytes are present and in range, and
        // decode the scalar value announced by the head byte.
        let code: u32;
        if hl == 1 {
            code = b0 as u32;
        } else if hl == 2 {
            let b1 = bytes[i + 1];
            if !(0x80 <= b1 && b1 < 0xC0) {
                return None;
            }
            code = (b0 as u32 - 0xC0) * 0x40 + (b1 as u32 - 0x80);
        } else if hl == 3 {
            let b1 = bytes[i + 1];
            let b2 = bytes[i + 2];
            if !(0x80 <= b1 && b1 < 0xC0) || !(0x80 <= b2 && b2 < 0xC0) {
                return None;
            }
            code = (b0 as u32 - 0xE0) * 0x1000 + (b1 as u32 - 0x80) * 0x40 + (b2 as u32 - 0x80);
        } else {
            let b1 = bytes[i + 1];
            let b2 = bytes[i + 2];
            let b3 = bytes[i + 3];
            if !(0x80 <= b1 && b1 < 0xC0) || !(0x80 <= b2 && b2 < 0xC0) || !(0x80 <= b3 && b3
                < 0xC0) {
                return None;
            }
            code = (b0 as u32 - 0xF0) * 0x40000 + (b1 as u32 - 0x80) * 0x1000 + (b2 as u32 - 0x80)
                * 0x40 + (b3 as u32 - 0x80);
        }
        proof {
            assert(block[0] == b0);
            assert(code == decode_head(block));
        }
        let scalar = code < 0xD800 || (0xE000 <= code && code <= 0x10FFFF);
        let encoded_len: usize = if code < 0x80 {
            1
        } else if code < 0x800 {
            2
        } else if code < 0x10000 {
            3
        } else {
            4
        };
        if !scalar || encoded_len != hl {
            return None;
        }
        proof {
            assert(valid_scalar_encoding(block));
            assert(bytes@.skip(i as int).skip(hl as int) =~= bytes@.skip(i as int + hl as int));
        }
        i += hl;
    }
    proof {
        assert(bytes@.skip(n as int) =~= Seq::<u8>::empty());
    }
    let r = NSTDStr { bytes: copy_slice(bytes) };
    Some(r)
}

/// Returns a read-only view of a string view's bytes.
pub fn nstd_core_str_as_bytes(s: &NSTDStr) -> (r: &[u8])
    ensures
        r@ == s@,
{
    s.bytes.as_slice()
}

/// Returns the length in bytes of a string view.
pub fn nstd_core_str_byte_len(s: &NSTDStr) -> (r: usize)
    ensures
        r as int == s@.len(),
{
    s.bytes.len()
}

/// Creates a new, empty string. No memory is allocated.
pub fn nstd_string_new() -> (r: NSTDString)
    ensures
        r.wf(),
        r@ == Seq::<u8>::empty(),
        r.capacity() == 0,
{
    NSTDString { bytes: nstd_vec_new(1) }
}

/// Creates a new, empty string with `cap` bytes preallocated. Pre-sizing to
/// zero bytes has no purpose and is a caller error.
pub fn nstd_string_new_with_cap(cap: usize) -> (r: NSTDString)
    requires
        cap >= 1,
    ensures
        r.wf(),
        r@ == Seq::<u8>::empty(),
        r.capacity() == cap,
{
    proof {
        lemma_mul_basics(cap as int);
    }
    let v = nstd_vec_new_with_cap(1, cap);
    NSTDString { bytes: v.unwrap() }
}

/// Creates a deep copy of `string` in a fresh exact-fit allocation.
pub fn nstd_string_clone(string: &NSTDString) -> (r: NSTDString)
    requires
        string.wf(),
    ensures
        r.wf(),
        r@ == string@,
{
    NSTDString { bytes: nstd_vec_clone(&string.bytes) }
}

/// Creates a string view of the contents of `string`.
pub fn nstd_string_as_str(string: &NSTDString) -> (r: NSTDStr)
    requires
        string.wf(),
    ensures
        r.wf(),
        r@ == string@,
{
    let sl = nstd_vec_as_slice(&string.bytes);
    NSTDStr { bytes: copy_slice(sl) }
}

/// Returns a read-only view of the string's committed bytes, guaranteed to
/// be valid UTF-8 by construction.
pub fn nstd_string_as_bytes(string: &NSTDString) -> (r: &[u8])
    requires
        string.wf(),
    ensures
        r@ == string@,
{
    nstd_vec_as_slice(&string.bytes)
}

/// Returns the length in bytes of `string`'s committed range.
pub fn nstd_string_byte_len(string: &NSTDString) -> (r: usize)
    requires
        string.wf(),
    ensures
        r as int == string@.len(),
{
    proof {
        lemma_vec_wf(&string.bytes);
        lemma_mul_basics(string.bytes.length() as int);
    }
    nstd_vec_len(&string.bytes)
}

/// Returns the byte capacity of `string`'s backing array.
pub fn nstd_string_cap(string: &NSTDString) -> (r: usize)
    ensures
        r == string.capacity(),
{
    crate::vec::nstd_vec_cap(&string.bytes)
}

/// Pushes one Unicode scalar value onto the end of `string`, encoding it as
/// 1 to 4 UTF-8 bytes. The whole encoding is appended atomically: either
/// every byte of it is committed or the string is left exactly as it was.
///
/// Returns 0 on success; 1 when `chr` is not a Unicode scalar value; 2 when
/// the extended byte range would not be addressable.
pub fn nstd_string_push(string: &mut NSTDString, chr: u32) -> (r: NSTDErrorCode)
    requires
        old(string).wf(),
    ensures
        final(string).wf(),
        r == 0 || r == 1 || r == 2,
        (r == 1) <==> !is_unicode_scalar(chr),
        (r == 2) <==> is_unicode_scalar(chr) && old(string)@.len() + utf8_len(chr)
            > usize::MAX as int,
        r == 0 ==> final(string)@ == old(string)@ + encode_utf8(chr),
        r != 0 ==> *final(string) == *old(string),
{
    if !(chr < 0xD800 || (0xE000 <= chr && chr <= 0x10FFFF)) {
        return 1;
    }
    proof {
        lemma_encode_utf8_props(chr);
        if chr >= 0x80 {
            lemma_div_is_ordered(chr as int, 0x10FFFF, 0x40);
            lemma_div_is_ordered(chr as int, 0x10FFFF, 0x1000);
            lemma_div_is_ordered(chr as int, 0x10FFFF, 0x40000);
            lemma_mod_division_less_than_divisor(chr as int, 0x40);
            lemma_mod_division_less_than_divisor(chr as int / 0x40, 0x40);
            lemma_mod_division_less_than_divisor(chr as int / 0x1000, 0x40);
        }
    }
    let mut buf: Vec<u8> = Vec::new();
    if chr < 0x80 {
        buf.push(chr as u8);
    } else if chr < 0x800 {
        buf.push((0xC0 + chr / 0x40) as u8);
        buf.push((0x80 + chr % 0x40) as u8);
    } else if chr < 0x10000 {
        buf.push((0xE0 + chr / 0x1000) as u8);
        buf.push((0x80 + (chr / 0x40) % 0x40) as u8);
        buf.push((0x80 + chr % 0x40) as u8);
    } else {
        buf.push((0xF0 + chr / 0x40000) as u8);
        buf.push((0x80 + (chr / 0x1000) % 0x40) as u8);
        buf.push((0x80 + (chr / 0x40) % 0x40) as u8);
        buf.push((0x80 + chr % 0x40) as u8);
    }
    proof {
        assert(buf@ =~= encode_utf8(chr));
        assert(buf@.len() as int % 1int == 0);
        assert(buf@.len() as int / 1int == buf@.len() as int);
    }
    let rc = nstd_vec_extend(&mut string.bytes, buf.as_slice());
    if rc == 0 {
        proof {
            lemma_scalar_encoding_valid_utf8(encode_utf8(chr));
            lemma_valid_utf8_append(old(string)@, encode_utf8(chr));
        }
        0
    } else {
        2
    }
}

/// Appends another string view's bytes, already valid UTF-8, verbatim to
/// the end of `string`. No revalidation is needed, only a bulk byte copy.
///
/// Returns 0 on success; 2 when the extended byte range would not be
/// addressable, in which case the string is unchanged.
pub fn nstd_string_push_str(string: &mut NSTDString, suffix: &NSTDStr) -> (r: NSTDErrorCode)
    requires
        old(string).wf(),
        suffix.wf(),
    ensures
        final(string).wf(),
        r == 0 || r == 2,
        (r == 0) <==> old(string)@.len() + suffix@.len() <= usize::MAX as int,
        r == 0 ==> final(string)@ == old(string)@ + suffix@,
        r != 0 ==> *final(string) == *old(string),
{
    proof {
        assert(suffix@.len() as int % 1int == 0);
    }
    let rc = nstd_vec_extend(&mut string.bytes, suffix.bytes.as_slice());
    if rc == 0 {
        proof {
            lemma_valid_utf8_append(old(string)@, suffix@);
        }
        0
    } else {
        2
    }
}

/// Finds the byte index of the head of the last whole code point.
#[verifier::loop_isolation(false)]
fn find_last_head(bytes: &NSTDVec) -> (i: usize)
    requires
        bytes.wf(),
        bytes.stride() == 1,
        valid_utf8(bytes@),
        bytes@.len() > 0,
    ensures
        i as int == last_head_index(bytes@),
{
    let ghost s = bytes@;
    proof {
        lemma_vec_wf(bytes);
        lemma_mul_basics(bytes.length() as int);
        lemma_valid_utf8_last(s);
        lemma_encoding_head_not_continuation(s.skip(last_head_index(s)));
    }
    let len = nstd_vec_len(bytes);
    let mut i: usize = len - 1;
    let mut b = nstd_vec_byte_at(bytes, i);
    while 0x80 <= b && b < 0xC0
        invariant
            last_head_index(s) <= i < len,
            b == s[i as int],
            forall|j: int| i < j < len ==> is_continuation(#[trigger] s[j]),
        decreases i,
    {
        proof {
            assert(s[last_head_index(s)] == s.skip(last_head_index(s))[0]);
        }
        i -= 1;
        b = nstd_vec_byte_at(bytes, i);
    }
    proof {
        lemma_last_head_index_pinpoint(s, i as int);
    }
    i
}

/// Removes the last whole code point from `string` — not the last byte —
/// truncating the backing array by exactly that code point's encoded length,
/// and returns the decoded scalar value. Popping from an empty string is a
/// well-defined no-op that returns the Unicode replacement character.
#[verifier::loop_isolation(false)]
pub fn nstd_string_pop(string: &mut NSTDString) -> (r: u32)
    requires
        old(string).wf(),
    ensures
        final(string).wf(),
        old(string)@.len() == 0 ==> r == 0xFFFD && *final(string) == *old(string),
        old(string)@.len() > 0 ==> {
            &&& r == last_codepoint(old(string)@)
            &&& is_unicode_scalar(r)
            &&& final(string)@ == strip_last_codepoint(old(string)@)
            &&& old(string)@ == final(string)@ + encode_utf8(r)
        },
{
    let ghost s = old(string)@;
    proof {
        lemma_vec_wf(&string.bytes);
        lemma_mul_basics(string.bytes.length() as int);
    }
    let len = nstd_vec_len(&string.bytes);
    if len == 0 {
        return 0xFFFD;
    }
    proof {
        lemma_valid_utf8_last(s);
    }
    let ghost tail = s.skip(last_head_index(s));
    let i = find_last_head(&string.bytes);
    let n = len - i;
    let b0 = nstd_vec_byte_at(&string.bytes, i);
    proof {
        assert(b0 == tail[0]);
        assert(head_len(b0) == n);
        assert forall|j: int| 0 <= j < n implies tail[j] == s[i + j] by {}
    }
    let code: u32;
    if n == 1 {
        code = b0 as u32;
    } else if n == 2 {
        let b1 = nstd_vec_byte_at(&string.bytes, i + 1);
        code = (b0 as u32 - 0xC0) * 0x40 + (b1 as u32 - 0x80);
    } else if n == 3 {
        let b1 = nstd_vec_byte_at(&string.bytes, i + 1);
        let b2 = nstd_vec_byte_at(&string.bytes, i + 2);
        code = (b0 as u32 - 0xE0) * 0x1000 + (b1 as u32 - 0x80) * 0x40 + (b2 as u32 - 0x80);
    } else {
        let b1 = nstd_vec_byte_at(&string.bytes, i + 1);
        let b2 = nstd_vec_byte_at(&string.bytes, i + 2);
        let b3 = nstd_vec_byte_at(&string.bytes, i + 3);
        code = (b0 as u32 - 0xF0) * 0x40000 + (b1 as u32 - 0x80) * 0x1000 + (b2 as u32 - 0x80)
            * 0x40 + (b3 as u32 - 0x80);
    }
    proof {
        assert(code == decode_head(tail));
    }
    nstd_vec_truncate(&mut string.bytes, i);
    proof {
        lemma_mul_basics(i as int);
        assert(string.bytes@ == strip_last_codepoint(s));
        lemma_scalar_encoding_reconstruct(tail);
        assert(s =~= strip_last_codepoint(s) + tail);
    }
    code
}

/// Frees `string`'s allocation and resets it to the empty state.
pub fn nstd_string_free(string: &mut NSTDString)
    requires
        old(string).wf(),
    ensures
        final(string).wf(),
        final(string)@ == Seq::<u8>::empty(),
        final(string).capacity() == 0,
{
    nstd_vec_free(&mut string.bytes);
}

} // verus!
