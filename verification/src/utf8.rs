//! UTF-8 encoding as mathematics.
//!
//! This module defines what it means for a byte sequence to be valid UTF-8,
//! how a Unicode scalar value is encoded, and how the last whole code point
//! of a valid sequence is located and decoded. The text buffer's contracts
//! are stated entirely in these terms; the proofs here show that encoding,
//! appending and popping whole code points preserve validity and invert one
//! another.

use vstd::prelude::*;

verus! {

use vstd::arithmetic::div_mod::{
    lemma_div_denominator, lemma_div_is_ordered, lemma_div_pos_is_pos, lemma_fundamental_div_mod,
    lemma_fundamental_div_mod_converse, lemma_mod_division_less_than_divisor,
};

/// Whether `code` is a Unicode scalar value: any code point outside the
/// surrogate range.
pub open spec fn is_unicode_scalar(code: u32) -> bool {
    code < 0xD800 || (0xE000 <= code && code <= 0x10FFFF)
}

/// The number of bytes in the UTF-8 encoding of a scalar value.
pub open spec fn utf8_len(code: u32) -> int {
    if code < 0x80 {
        1
    } else if code < 0x800 {
        2
    } else if code < 0x10000 {
        3
    } else {
        4
    }
}

/// The UTF-8 encoding of a scalar value.
pub open spec fn encode_utf8(code: u32) -> Seq<u8> {
    let c = code as int;
    if c < 0x80 {
        seq![code as u8]
    } else if c < 0x800 {
        seq![(0xC0 + c / 0x40) as u8, (0x80 + c % 0x40) as u8]
    } else if c < 0x10000 {
        seq![
            (0xE0 + c / 0x1000) as u8,
            (0x80 + (c / 0x40) % 0x40) as u8,
            (0x80 + c % 0x40) as u8,
        ]
    } else {
        seq![
            (0xF0 + c / 0x40000) as u8,
            (0x80 + (c / 0x1000) % 0x40) as u8,
            (0x80 + (c / 0x40) % 0x40) as u8,
            (0x80 + c % 0x40) as u8,
        ]
    }
}

/// Whether `b` is a UTF-8 continuation byte.
pub open spec fn is_continuation(b: u8) -> bool {
    0x80 <= b && b < 0xC0
}

/// The encoding length announced by a head byte, or zero when `b` cannot
/// head a valid encoding.
pub open spec fn head_len(b: u8) -> int {
    if b < 0x80 {
        1
    } else if b < 0xC0 {
        0
    } else if b < 0xE0 {
        2
    } else if b < 0xF0 {
        3
    } else if b < 0xF8 {
        4
    } else {
        0
    }
}

/// The scalar value encoded by the first `head_len(s[0])` bytes of `s`.
/// Meaningful only when those bytes are present.
pub open spec fn decode_head(s: Seq<u8>) -> u32 {
    let n = head_len(s[0]);
    if n == 1 {
        s[0] as u32
    } else if n == 2 {
        ((s[0] - 0xC0) * 0x40 + (s[1] - 0x80)) as u32
    } else if n == 3 {
        ((s[0] - 0xE0) * 0x1000 + (s[1] - 0x80) * 0x40 + (s[2] - 0x80)) as u32
    } else if n == 4 {
        ((s[0] - 0xF0) * 0x40000 + (s[1] - 0x80) * 0x1000 + (s[2] - 0x80) * 0x40 + (s[3]
            - 0x80)) as u32
    } else {
        0
    }
}

/// Whether `t` is exactly the valid encoding of one scalar value: the head
/// byte announces `t`'s length, every later byte is a continuation byte, and
/// the decoded value is a scalar whose shortest encoding has that length
/// (which excludes overlong forms and surrogates).
pub open spec fn valid_scalar_encoding(t: Seq<u8>) -> bool {
    &&& t.len() >= 1
    &&& head_len(t[0]) == t.len()
    &&& forall|i: int| 1 <= i < t.len() ==> is_continuation(#[trigger] t[i])
    &&& is_unicode_scalar(decode_head(t))
    &&& utf8_len(decode_head(t)) == t.len()
}

/// Whether `s` is a valid UTF-8 byte sequence: a concatenation of valid
/// scalar encodings, with no trailing partial sequence.
pub open spec fn valid_utf8(s: Seq<u8>) -> bool
    decreases s.len(),
{
    if s.len() == 0 {
        true
    } else {
        let n = head_len(s[0]);
        if 1 <= n <= s.len() {
            valid_scalar_encoding(s.take(n)) && valid_utf8(s.skip(n))
        } else {
            false
        }
    }
}

/// The index of the head byte of the last code point of `s`: the largest
/// index holding a non-continuation byte, or -1 when there is none.
pub open spec fn last_head_index(s: Seq<u8>) -> int
    decreases s.len(),
{
    if s.len() == 0 {
        -1
    } else if !is_continuation(s[s.len() - 1]) {
        s.len() - 1
    } else {
        last_head_index(s.drop_last())
    }
}

/// The bytes of `s` with its last whole code point removed.
pub open spec fn strip_last_codepoint(s: Seq<u8>) -> Seq<u8> {
    s.take(last_head_index(s))
}

/// The scalar value of the last whole code point of `s`.
pub open spec fn last_codepoint(s: Seq<u8>) -> u32 {
    decode_head(s.skip(last_head_index(s)))
}

/// The encoding of a scalar value is a valid scalar encoding of the
/// announced length, it decodes back to the same value, and only its head
/// byte is a non-continuation byte.
pub proof fn lemma_encode_utf8_props(code: u32)
    requires
        is_unicode_scalar(code),
    ensures
        encode_utf8(code).len() == utf8_len(code),
        valid_scalar_encoding(encode_utf8(code)),
        decode_head(encode_utf8(code)) == code,
        !is_continuation(encode_utf8(code)[0]),
{
    let c = code as int;
    let t = encode_utf8(code);
    if c < 0x80 {
        assert(t =~= seq![code as u8]);
    } else if c < 0x800 {
        let q = c / 0x40;
        let r = c % 0x40;
        lemma_fundamental_div_mod(c, 0x40);
        lemma_mod_division_less_than_divisor(c, 0x40);
        lemma_div_is_ordered(0x80, c, 0x40);
        lemma_div_is_ordered(c, 0x7FF, 0x40);
        assert(2 <= q <= 0x1F);
        assert(t[0] == (0xC0 + q) as u8 && t[1] == (0x80 + r) as u8);
        assert(t[0] as int == 0xC0 + q && t[1] as int == 0x80 + r);
        assert(head_len(t[0]) == 2);
        assert(decode_head(t) as int == q * 0x40 + r);
        assert(decode_head(t) == code);
    } else if c < 0x10000 {
        let q1 = c / 0x40;
        let r0 = c % 0x40;
        let q2 = q1 / 0x40;
        let r1 = q1 % 0x40;
        lemma_fundamental_div_mod(c, 0x40);
        lemma_mod_division_less_than_divisor(c, 0x40);
        lemma_fundamental_div_mod(q1, 0x40);
        lemma_mod_division_less_than_divisor(q1, 0x40);
        lemma_div_denominator(c, 0x40, 0x40);
        assert(q2 == c / 0x1000);
        lemma_div_pos_is_pos(c, 0x1000);
        lemma_div_is_ordered(c, 0xFFFF, 0x1000);
        assert(0 <= q2 <= 0xF);
        assert(t[0] as int == 0xE0 + q2);
        assert(t[1] as int == 0x80 + r1);
        assert(t[2] as int == 0x80 + r0);
        assert(head_len(t[0]) == 3);
        assert(c == q2 * 0x1000 + r1 * 0x40 + r0);
        assert(decode_head(t) as int == q2 * 0x1000 + r1 * 0x40 + r0);
        assert(decode_head(t) == code);
    } else {
        let q1 = c / 0x40;
        let r0 = c % 0x40;
        let q2 = q1 / 0x40;
        let r1 = q1 % 0x40;
        let q3 = q2 / 0x40;
        let r2 = q2 % 0x40;
        lemma_fundamental_div_mod(c, 0x40);
        lemma_mod_division_less_than_divisor(c, 0x40);
        lemma_fundamental_div_mod(q1, 0x40);
        lemma_mod_division_less_than_divisor(q1, 0x40);
        lemma_fundamental_div_mod(q2, 0x40);
        lemma_mod_division_less_than_divisor(q2, 0x40);
        lemma_div_denominator(c, 0x40, 0x40);
        assert(q2 == c / 0x1000);
        lemma_div_denominator(c, 0x1000, 0x40);
        assert(q3 == c / 0x40000);
        lemma_div_pos_is_pos(c, 0x40000);
        lemma_div_is_ordered(c, 0x10FFFF, 0x40000);
        assert(0 <= q3 <= 4);
        assert(t[0] as int == 0xF0 + q3);
        assert(t[1] as int == 0x80 + r2);
        assert(t[2] as int == 0x80 + r1);
        assert(t[3] as int == 0x80 + r0);
        assert(head_len(t[0]) == 4);
        assert(c == q3 * 0x40000 + r2 * 0x1000 + r1 * 0x40 + r0);
        assert(decode_head(t) as int == q3 * 0x40000 + r2 * 0x1000 + r1 * 0x40 + r0);
        assert(decode_head(t) == code);
    }
}

/// A valid scalar encoding is exactly the encoding of the value it decodes
/// to: decoding then re-encoding reproduces the same bytes.
pub proof fn lemma_scalar_encoding_reconstruct(t: Seq<u8>)
    requires
        valid_scalar_encoding(t),
    ensures
        is_unicode_scalar(decode_head(t)),
        t == encode_utf8(decode_head(t)),
{
    let code = decode_head(t);
    let c = code as int;
    let n = head_len(t[0]);
    if n == 1 {
        assert(encode_utf8(code) =~= t);
    } else if n == 2 {
        let a = t[0] - 0xC0;
        let b = t[1] - 0x80;
        assert(c == a * 0x40 + b);
        lemma_fundamental_div_mod_converse(c, 0x40, a as int, b as int);
        assert(c / 0x40 == a && c % 0x40 == b);
        assert(encode_utf8(code) =~= t);
    } else if n == 3 {
        let a = t[0] - 0xE0;
        let b = t[1] - 0x80;
        let d = t[2] - 0x80;
        assert(c == (a * 0x40 + b) * 0x40 + d);
        lemma_fundamental_div_mod_converse(c, 0x40, a * 0x40 + b, d as int);
        assert(c / 0x40 == a * 0x40 + b && c % 0x40 == d);
        lemma_fundamental_div_mod_converse(a * 0x40 + b, 0x40, a as int, b as int);
        assert((c / 0x40) / 0x40 == a && (c / 0x40) % 0x40 == b);
        lemma_div_denominator(c, 0x40, 0x40);
        assert(c / 0x1000 == a);
        assert(encode_utf8(code) =~= t);
    } else {
        let a = t[0] - 0xF0;
        let b = t[1] - 0x80;
        let d = t[2] - 0x80;
        let e = t[3] - 0x80;
        assert(c == ((a * 0x40 + b) * 0x40 + d) * 0x40 + e);
        lemma_fundamental_div_mod_converse(c, 0x40, (a * 0x40 + b) * 0x40 + d, e as int);
        assert(c / 0x40 == (a * 0x40 + b) * 0x40 + d && c % 0x40 == e);
        lemma_fundamental_div_mod_converse((a * 0x40 + b) * 0x40 + d, 0x40, a * 0x40 + b, d as int);
        assert((c / 0x40) / 0x40 == a * 0x40 + b && (c / 0x40) % 0x40 == d);
        lemma_div_denominator(c, 0x40, 0x40);
        assert(c / 0x1000 == a * 0x40 + b);
        lemma_fundamental_div_mod_converse(a * 0x40 + b, 0x40, a as int, b as int);
        assert((c / 0x1000) / 0x40 == a && (c / 0x1000) % 0x40 == b);
        lemma_div_denominator(c, 0x1000, 0x40);
        assert(c / 0x40000 == a);
        assert(encode_utf8(code) =~= t);
    }
}

/// A single valid scalar encoding is, on its own, a valid UTF-8 sequence.
pub proof fn lemma_scalar_encoding_valid_utf8(t: Seq<u8>)
    requires
        valid_scalar_encoding(t),
    ensures
        valid_utf8(t),
{
    let n = head_len(t[0]);
    assert(t.take(n) =~= t);
    assert(t.skip(n) =~= Seq::<u8>::empty());
    assert(valid_utf8(t.skip(n)));
    assert(valid_scalar_encoding(t.take(n)));
}

/// Concatenating two valid UTF-8 sequences yields a valid UTF-8 sequence.
pub proof fn lemma_valid_utf8_append(a: Seq<u8>, b: Seq<u8>)
    requires
        valid_utf8(a),
        valid_utf8(b),
    ensures
        valid_utf8(a + b),
    decreases a.len(),
{
    if a.len() == 0 {
        assert(a + b =~= b);
    } else {
        let n = head_len(a[0]);
        assert((a + b)[0] == a[0]);
        assert((a + b).take(n) =~= a.take(n));
        assert((a + b).skip(n) =~= a.skip(n) + b);
        lemma_valid_utf8_append(a.skip(n), b);
    }
}

/// The head byte of a valid scalar encoding is not a continuation byte.
pub proof fn lemma_encoding_head_not_continuation(t: Seq<u8>)
    requires
        valid_scalar_encoding(t),
    ensures
        !is_continuation(t[0]),
{
}

/// If `s[k]` is a non-continuation byte and every later byte is a
/// continuation byte, then `k` is the last head index of `s`.
pub proof fn lemma_last_head_index_pinpoint(s: Seq<u8>, k: int)
    requires
        0 <= k < s.len(),
        !is_continuation(s[k]),
        forall|j: int| k < j < s.len() ==> is_continuation(#[trigger] s[j]),
    ensures
        last_head_index(s) == k,
    decreases s.len(),
{
    if k == s.len() - 1 {
    } else {
        lemma_last_head_index_pinpoint(s.drop_last(), k);
    }
}

/// A non-empty valid UTF-8 sequence splits at its last head index into a
/// valid UTF-8 prefix and one trailing valid scalar encoding.
pub proof fn lemma_valid_utf8_last(s: Seq<u8>)
    requires
        valid_utf8(s),
        s.len() > 0,
    ensures
        0 <= last_head_index(s) < s.len(),
        last_head_index(s) + head_len(s[last_head_index(s)]) == s.len(),
        valid_utf8(strip_last_codepoint(s)),
        valid_scalar_encoding(s.skip(last_head_index(s))),
    decreases s.len(),
{
    let n = head_len(s[0]);
    let t = s.take(n);
    let rest = s.skip(n);
    if rest.len() == 0 {
        assert(t =~= s);
        lemma_last_head_index_pinpoint(s, 0);
        assert(s.skip(0) =~= s);
        assert(strip_last_codepoint(s) =~= Seq::<u8>::empty());
    } else {
        lemma_valid_utf8_last(rest);
        let i = last_head_index(rest);
        let k = n + i;
        let tail = rest.skip(i);
        assert(s[k] == rest[i]);
        assert(rest[i] == tail[0]);
        assert forall|j: int| k < j < s.len() implies is_continuation(#[trigger] s[j]) by {
            assert(s[j] == rest[j - n]);
            assert(rest[j - n] == tail[j - n - i]);
            assert(1 <= j - n - i < tail.len());
        }
        lemma_last_head_index_pinpoint(s, k);
        assert(s.skip(k) =~= tail);
        assert(s.take(k) =~= t + rest.take(i));
        lemma_scalar_encoding_valid_utf8(t);
        lemma_valid_utf8_append(t, rest.take(i));
    }
}

/// Pushing one encoded scalar value onto a valid UTF-8 sequence keeps it
/// valid, and popping the last code point afterwards recovers exactly the
/// pushed value and the original bytes.
pub proof fn lemma_push_pop(s: Seq<u8>, code: u32)
    requires
        valid_utf8(s),
        is_unicode_scalar(code),
    ensures
        valid_utf8(s + encode_utf8(code)),
        last_head_index(s + encode_utf8(code)) == s.len(),
        strip_last_codepoint(s + encode_utf8(code)) == s,
        last_codepoint(s + encode_utf8(code)) == code,
{
    let enc = encode_utf8(code);
    lemma_encode_utf8_props(code);
    lemma_scalar_encoding_valid_utf8(enc);
    lemma_valid_utf8_append(s, enc);
    let w = s + enc;
    assert forall|j: int| s.len() < j < w.len() implies is_continuation(#[trigger] w[j]) by {
        assert(w[j] == enc[j - s.len()]);
    }
    assert(w[s.len() as int] == enc[0]);
    lemma_last_head_index_pinpoint(w, s.len() as int);
    assert(w.take(s.len() as int) =~= s);
    assert(w.skip(s.len() as int) =~= enc);
}

/// The concatenated UTF-8 encoding of a sequence of scalar values, in order.
pub open spec fn encode_all(codes: Seq<u32>) -> Seq<u8>
    decreases codes.len(),
{
    if codes.len() == 0 {
        Seq::<u8>::empty()
    } else {
        encode_all(codes.drop_last()) + encode_utf8(codes.last())
    }
}

/// The concatenated encoding of scalar values is valid UTF-8.
pub proof fn lemma_encode_all_valid(codes: Seq<u32>)
    requires
        forall|i: int| 0 <= i < codes.len() ==> is_unicode_scalar(#[trigger] codes[i]),
    ensures
        valid_utf8(encode_all(codes)),
    decreases codes.len(),
{
    if codes.len() == 0 {
    } else {
        lemma_encode_all_valid(codes.drop_last());
        lemma_push_pop(encode_all(codes.drop_last()), codes.last());
    }
}

/// Round-trip law: after any sequence of scalar values is pushed in order,
/// removing the last whole code point recovers exactly the last value
/// pushed and leaves exactly the encoding of the earlier values — so
/// repeated pops return the values in reverse order and end with an empty
/// buffer.
pub proof fn lemma_text_round_trip(codes: Seq<u32>)
    requires
        codes.len() > 0,
        forall|i: int| 0 <= i < codes.len() ==> is_unicode_scalar(#[trigger] codes[i]),
    ensures
        valid_utf8(encode_all(codes)),
        encode_all(codes).len() > 0,
        strip_last_codepoint(encode_all(codes)) == encode_all(codes.drop_last()),
        last_codepoint(encode_all(codes)) == codes.last(),
{
    lemma_encode_all_valid(codes.drop_last());
    lemma_encode_all_valid(codes);
    lemma_encode_utf8_props(codes.last());
    lemma_push_pop(encode_all(codes.drop_last()), codes.last());
}

} // verus!
