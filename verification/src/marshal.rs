//! Marshalling between host strings and null-terminated byte buffers.
//!
//! A command crosses the foreign boundary as a null-terminated buffer, so a
//! host string can be sent only when none of its bytes is null; a reply
//! comes back as a null-terminated buffer whose bytes up to the terminator
//! are read into a host string. Both directions are verified here, down to
//! the UTF-8 encoding of the strings involved.

use vstd::prelude::*;
use vstd::string::StringSliceAdditionalSpecFns;
use vstd::utf8::decode_utf8;
use vstd::utf8::encode_utf8;
use vstd::utf8::encode_utf8_decode_utf8;
use vstd::utf8::encode_utf8_valid_utf8;
use vstd::utf8::valid_utf8;
use crate::error::SketchybarError;

verus! {

/// True when some byte of `s` is the null byte.
pub open spec fn contains_nul(s: Seq<u8>) -> bool {
    exists|i: int| 0 <= i < s.len() && s[i] == 0u8
}

/// The prefix of `s` that comes before its first null byte; all of `s` when
/// no byte is null. This is what a reader of a null-terminated buffer sees.
pub open spec fn before_first_nul(s: Seq<u8>) -> Seq<u8>
    decreases s.len(),
{
    if s.len() == 0 || s[0] == 0u8 {
        Seq::<u8>::empty()
    } else {
        seq![s[0]] + before_first_nul(s.drop_first())
    }
}

/// Turns a host string into the bytes of a null-terminated buffer.
///
/// Succeeds exactly when the string holds no embedded null character; the
/// buffer is then the string's UTF-8 bytes followed by one null terminator.
/// A string with an embedded null cannot be represented and is rejected
/// with `MessageConversionError`.
pub fn to_nul_terminated(message: &str) -> (r: Result<Vec<u8>, SketchybarError>)
    ensures
        r is Ok <==> !message@.contains('\0'),
        r matches Ok(buffer) ==> buffer@ == message.spec_bytes() + seq![0u8],
        r matches Err(e) ==> e is MessageConversionError,
{
    let bytes: &[u8] = message.as_bytes();
    let mut buffer: Vec<u8> = Vec::new();
    let mut i: usize = 0;
    while i < bytes.len()
        invariant
            0 <= i <= bytes@.len(),
            bytes@ == encode_utf8(message@),
            buffer@ == bytes@.subrange(0, i as int),
            forall|j: int| 0 <= j < i ==> bytes@[j] != 0u8,
        decreases bytes@.len() - i,
    {
        let b = *vstd::slice::slice_index_get(bytes, i);
        if b == 0u8 {
            proof {
                lemma_nul_byte_iff_nul_char(message@);
                assert(encode_utf8(message@)[i as int] == 0u8);
                assert(contains_nul(encode_utf8(message@)));
            }
            return Err(SketchybarError::MessageConversionError);
        }
        buffer.push(b);
        i = i + 1;
    }
    buffer.push(0u8);
    proof {
        lemma_nul_byte_iff_nul_char(message@);
        assert(!contains_nul(encode_utf8(message@)));
        assert(buffer@ =~= message.spec_bytes() + seq![0u8]);
    }
    Ok(buffer)
}

/// Reads the bytes of a null-terminated reply buffer back into a host
/// string: the bytes before the first null terminator (all of them, when no
/// byte is null), decoded as UTF-8, with ill-formed sequences replaced.
pub fn from_nul_terminated(bytes: &[u8]) -> (r: String)
    ensures
        r@ == lossy_utf8_of(before_first_nul(bytes@)),
        valid_utf8(before_first_nul(bytes@)) ==> r@ == decode_utf8(before_first_nul(bytes@)),
{
    let mut i: usize = 0;
    while i < bytes.len() && *vstd::slice::slice_index_get(bytes, i) != 0u8
        invariant
            0 <= i <= bytes@.len(),
            forall|j: int| 0 <= j < i ==> bytes@[j] != 0u8,
        decreases bytes@.len() - i,
    {
        i = i + 1;
    }
    let prefix: &[u8] = vstd::slice::slice_subrange(bytes, 0, i);
    proof {
        lemma_before_first_nul_of_scan(bytes@, i as int);
    }
    decode_utf8_lossy(prefix)
}

/// The host string that `String::from_utf8_lossy` reads out of a byte
/// sequence: on valid UTF-8 its exact decoding, elsewhere the decoding
/// with ill-formed sequences replaced.
pub uninterp spec fn lossy_utf8_of(bytes: Seq<u8>) -> Seq<char>;

/// Relies on `String::from_utf8_lossy`: the result depends on the bytes
/// alone, and bytes that are valid UTF-8 decode to exactly their scalar
/// values.
#[verifier::external_body]
fn decode_utf8_lossy(bytes: &[u8]) -> (r: String)
    ensures
        r@ == lossy_utf8_of(bytes@),
        valid_utf8(bytes@) ==> r@ == decode_utf8(bytes@),
{
    String::from_utf8_lossy(bytes).into_owned()
}

/// Splitting a byte sequence splits the search for a null byte.
proof fn lemma_contains_nul_concat(a: Seq<u8>, b: Seq<u8>)
    ensures
        contains_nul(a + b) <==> contains_nul(a) || contains_nul(b),
{
    if contains_nul(a) {
        let i = choose|i: int| 0 <= i < a.len() && a[i] == 0u8;
        assert((a + b)[i] == 0u8);
    }
    if contains_nul(b) {
        let i = choose|i: int| 0 <= i < b.len() && b[i] == 0u8;
        assert((a + b)[a.len() + i] == 0u8);
    }
    if contains_nul(a + b) {
        let i = choose|i: int| 0 <= i < (a + b).len() && (a + b)[i] == 0u8;
        if i < a.len() {
            assert(a[i] == 0u8);
        } else {
            assert(b[i - a.len()] == 0u8);
        }
    }
}

/// A scan that stopped at position `i` found exactly the prefix before the
/// first null byte.
proof fn lemma_before_first_nul_of_scan(s: Seq<u8>, i: int)
    requires
        0 <= i <= s.len(),
        forall|j: int| 0 <= j < i ==> s[j] != 0u8,
        i == s.len() || s[i] == 0u8,
    ensures
        before_first_nul(s) == s.subrange(0, i),
    decreases s.len(),
{
    if s.len() == 0 || s[0] == 0u8 {
        assert(before_first_nul(s) =~= s.subrange(0, i));
    } else {
        lemma_before_first_nul_of_scan(s.drop_first(), i - 1);
        assert(s.drop_first().subrange(0, i - 1) =~= s.subrange(1, i));
        assert(before_first_nul(s) =~= s.subrange(0, i));
    }
}

/// A null-free byte sequence, once null-terminated, reads back whole.
proof fn lemma_before_first_nul_of_terminated(s: Seq<u8>)
    requires
        !contains_nul(s),
    ensures
        before_first_nul(s + seq![0u8]) == s,
{
    assert forall|j: int| 0 <= j < s.len() implies (s + seq![0u8])[j] != 0u8 by {
        assert((s + seq![0u8])[j] == s[j]);
    }
    lemma_before_first_nul_of_scan(s + seq![0u8], s.len() as int);
    assert((s + seq![0u8]).subrange(0, s.len() as int) =~= s);
}

/// The UTF-8 encoding of one scalar contains a null byte exactly when the
/// scalar is null itself: every byte of a longer encoding has its high bit
/// or more set.
proof fn lemma_encode_scalar_nul(s: u32)
    requires
        vstd::utf8::is_scalar(s),
    ensures
        contains_nul(vstd::utf8::encode_scalar(s)) <==> s == 0,
{
    let e = vstd::utf8::encode_scalar(s);
    if s == 0 {
        assert((0u32 & 0x7F) as u8 == 0u8) by (bit_vector);
        assert(e[0] == 0u8);
        assert(contains_nul(e));
    } else {
        if vstd::utf8::has_width_1_encoding(s) {
            assert(s <= 0x7F && s != 0 ==> (s & 0x7F) as u8 != 0u8) by (bit_vector);
        } else if vstd::utf8::has_width_2_encoding(s) {
            assert(0xC0u8 | ((s >> 6) & 0x1F) as u8 != 0u8) by (bit_vector);
            assert(0x80u8 | (s & 0x3F) as u8 != 0u8) by (bit_vector);
        } else if vstd::utf8::has_width_3_encoding(s) {
            assert(0xE0u8 | ((s >> 12) & 0x0F) as u8 != 0u8) by (bit_vector);
            assert(0x80u8 | ((s >> 6) & 0x3F) as u8 != 0u8) by (bit_vector);
            assert(0x80u8 | (s & 0x3F) as u8 != 0u8) by (bit_vector);
        } else {
            assert(0xF0u8 | ((s >> 18) & 0x7) as u8 != 0u8) by (bit_vector);
            assert(0x80u8 | ((s >> 12) & 0x3F) as u8 != 0u8) by (bit_vector);
            assert(0x80u8 | ((s >> 6) & 0x3F) as u8 != 0u8) by (bit_vector);
            assert(0x80u8 | (s & 0x3F) as u8 != 0u8) by (bit_vector);
        }
        assert(forall|i: int| 0 <= i < e.len() ==> e[i] != 0u8);
        assert(!contains_nul(e));
    }
}

/// A string's UTF-8 bytes contain a null byte exactly when the string
/// contains the null character.
pub proof fn lemma_nul_byte_iff_nul_char(chars: Seq<char>)
    ensures
        contains_nul(encode_utf8(chars)) <==> chars.contains('\0'),
    decreases chars.len(),
{
    if chars.len() == 0 {
        assert(!chars.contains('\0'));
    } else {
        let first = vstd::utf8::encode_scalar(chars[0] as u32);
        let rest = encode_utf8(chars.drop_first());
        vstd::utf8::char_is_scalar(chars[0]);
        lemma_encode_scalar_nul(chars[0] as u32);
        lemma_contains_nul_concat(first, rest);
        lemma_nul_byte_iff_nul_char(chars.drop_first());
        vstd::utf8::char_u32_cast(chars[0], chars[0] as u32);
        assert(chars[0] as u32 == 0 <==> chars[0] == '\0');
        if chars[0] == '\0' {
            assert(chars.contains('\0'));
        }
        if chars.drop_first().contains('\0') {
            let i = choose|i: int|
                0 <= i < chars.drop_first().len() && chars.drop_first()[i] == '\0';
            assert(chars[i + 1] == '\0');
            assert(chars.contains('\0'));
        }
        if chars.contains('\0') {
            let i = choose|i: int| 0 <= i < chars.len() && chars[i] == '\0';
            if i > 0 {
                assert(chars.drop_first()[i - 1] == '\0');
                assert(chars.drop_first().contains('\0'));
            }
        }
    }
}

/// The round trip that one foreign call performs on a command: a host
/// string without embedded nulls, turned into a null-terminated buffer and
/// read back, comes back as exactly the same string.
pub proof fn lemma_nul_terminated_round_trip(message: Seq<char>)
    requires
        !message.contains('\0'),
    ensures
        valid_utf8(before_first_nul(encode_utf8(message) + seq![0u8])),
        decode_utf8(before_first_nul(encode_utf8(message) + seq![0u8])) == message,
{
    lemma_nul_byte_iff_nul_char(message);
    lemma_before_first_nul_of_terminated(encode_utf8(message));
    encode_utf8_valid_utf8(message);
    encode_utf8_decode_utf8(message);
}

} // verus!
