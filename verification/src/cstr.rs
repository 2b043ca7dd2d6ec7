//! Decoding of a zero-terminated string that lies in an untrusted region of
//! memory. The scan never leaves the region it is given.

use vstd::prelude::*;
use vstd::slice::slice_subrange;
use vstd::string::StringSliceAdditionalSpecFns;
use vstd::utf8::{decode_utf8, encode_scalar, encode_utf8, valid_utf8};

verus! {

/// Why a region or a buffer could not be read as text.
#[derive(Clone, Copy, Debug, PartialEq, Eq, Structural)]
pub enum DecodeError {
    /// The region holds no zero byte.
    NotTerminated,
    /// The bytes are not valid UTF-8.
    InvalidText,
}

/// `core::str::Utf8Error`, the error of `core::str::from_utf8`. Nothing is
/// claimed of what it holds.
#[verifier::external_type_specification]
#[verifier::external_body]
pub struct ExUtf8Error(core::str::Utf8Error);

/// `core::str::from_utf8` succeeds exactly on valid UTF-8, and the string
/// slice it returns consists of the bytes it was given.
pub assume_specification<'a>[ core::str::from_utf8 ](v: &'a [u8]) -> (r: Result<
    &'a str,
    core::str::Utf8Error,
>)
    ensures
        r is Ok <==> valid_utf8(v@),
        r matches Ok(s) ==> s.spec_bytes() == v@,
;

/// True when the first zero byte of `region` is at index `n`.
pub open spec fn terminated_at(region: Seq<u8>, n: int) -> bool {
    &&& 0 <= n < region.len()
    &&& region[n] == 0
    &&& forall|i: int| 0 <= i < n ==> region[i] != 0
}

/// The number of bytes before the first zero byte of `region`, if it has one.
pub open spec fn text_length(region: Seq<u8>) -> Option<int> {
    if exists|n: int| terminated_at(region, n) {
        Some(choose|n: int| terminated_at(region, n))
    } else {
        None
    }
}

/// The text that `region` holds: the bytes before its first zero byte, where
/// there is one and they are valid UTF-8.
pub open spec fn decoded(region: Seq<u8>) -> Result<Seq<u8>, DecodeError> {
    match text_length(region) {
        None => Err(DecodeError::NotTerminated),
        Some(n) => if valid_utf8(region.subrange(0, n)) {
            Ok(region.subrange(0, n))
        } else {
            Err(DecodeError::InvalidText)
        },
    }
}

/// A region has at most one first zero byte.
pub proof fn lemma_terminator_unique(region: Seq<u8>, a: int, b: int)
    requires
        terminated_at(region, a),
        terminated_at(region, b),
    ensures
        a == b,
{
    if a < b {
        assert(region[a] != 0);
    } else if b < a {
        assert(region[b] != 0);
    }
}

/// Where the first zero byte is at `n`, the text is `n` bytes long.
pub proof fn lemma_text_length_is(region: Seq<u8>, n: int)
    requires
        terminated_at(region, n),
    ensures
        text_length(region) == Some(n),
{
    let m = choose|m: int| terminated_at(region, m);
    lemma_terminator_unique(region, n, m);
}

/// The index of the first zero byte of `region`, or `None` if it holds none.
pub fn find_terminator(region: &[u8]) -> (found: Option<usize>)
    ensures
        found matches Some(n) ==> text_length(region@) == Some(n as int),
        found is None ==> text_length(region@) is None,
{
    let mut i: usize = 0;
    while i < region.len()
        invariant
            i <= region@.len(),
            forall|k: int| 0 <= k < i ==> region@[k] != 0,
        decreases region@.len() - i,
    {
        if region[i] == 0 {
            proof {
                lemma_text_length_is(region@, i as int);
            }
            return Some(i);
        }
        i = i + 1;
    }
    assert forall|n: int| !terminated_at(region@, n) by {
        if 0 <= n < region@.len() {
            assert(region@[n] != 0);
        }
    }
    None
}

/// Reads `bytes` as text: `Ok` exactly when they are valid UTF-8, and then
/// the string borrows those bytes.
pub fn text_of<'a>(bytes: &'a [u8]) -> (r: Result<&'a str, DecodeError>)
    ensures
        r is Ok <==> valid_utf8(bytes@),
        r matches Ok(s) ==> s.spec_bytes() == bytes@ && s@ == decode_utf8(bytes@),
        r matches Err(e) ==> e == DecodeError::InvalidText,
{
    match core::str::from_utf8(bytes) {
        Ok(s) => {
            proof {
                vstd::utf8::encode_utf8_decode_utf8(s@);
            }
            Ok(s)
        },
        Err(_) => Err(DecodeError::InvalidText),
    }
}

/// Decodes the zero-terminated string at the start of `region`.
///
/// The result borrows the bytes before the first zero byte. A region without
/// a zero byte is `NotTerminated`; bytes that are not valid UTF-8 are
/// `InvalidText`.
pub fn from_cstr<'a>(region: &'a [u8]) -> (r: Result<&'a str, DecodeError>)
    ensures
        match decoded(region@) {
            Ok(text) => r matches Ok(s) && s.spec_bytes() == text && s@ == decode_utf8(text),
            Err(e) => r == Err::<&str, DecodeError>(e),
        },
{
    match find_terminator(region) {
        None => Err(DecodeError::NotTerminated),
        Some(n) => {
            proof {
                let m = choose|m: int| terminated_at(region@, m);
                assert(terminated_at(region@, m));
            }
            text_of(slice_subrange(region, 0, n))
        },
    }
}

/// A text that holds no zero byte, followed by a zero byte and anything
/// after it, decodes to that text.
pub proof fn lemma_decoded_ignores_tail(text: Seq<u8>, tail: Seq<u8>)
    requires
        valid_utf8(text),
        forall|i: int| 0 <= i < text.len() ==> text[i] != 0,
    ensures
        decoded(text.push(0) + tail) == Ok::<Seq<u8>, DecodeError>(text),
{
    let region = text.push(0) + tail;
    let n = text.len() as int;
    assert(terminated_at(region, n)) by {
        assert(region[n] == 0);
        assert forall|i: int| 0 <= i < n implies region[i] != 0 by {
            assert(region[i] == text[i]);
        }
    }
    lemma_text_length_is(region, n);
    assert(region.subrange(0, n) == text);
}

/// Round trip: a text that holds no zero byte, with a zero byte appended,
/// decodes to exactly that text.
pub proof fn lemma_decode_round_trip(text: Seq<u8>)
    requires
        valid_utf8(text),
        forall|i: int| 0 <= i < text.len() ==> text[i] != 0,
    ensures
        decoded(text.push(0)) == Ok::<Seq<u8>, DecodeError>(text),
{
    lemma_decoded_ignores_tail(text, Seq::empty());
    assert(text.push(0) + Seq::<u8>::empty() == text.push(0));
}

/// The UTF-8 encoding of a scalar other than zero holds no zero byte.
proof fn lemma_scalar_encoding_has_no_zero(scalar: u32)
    by (bit_vector)
    requires
        scalar != 0,
    ensures
        scalar <= 0x7F ==> (scalar & 0x7F) as u8 != 0,
        (0xC0 | ((scalar >> 6) & 0x1F) as u8) != 0,
        (0xE0 | ((scalar >> 12) & 0x0F) as u8) != 0,
        (0xF0 | ((scalar >> 18) & 0x7) as u8) != 0,
        (0x80 | (scalar & 0x3F) as u8) != 0,
        (0x80 | ((scalar >> 6) & 0x3F) as u8) != 0,
        (0x80 | ((scalar >> 12) & 0x3F) as u8) != 0,
{
}

/// The UTF-8 encoding of characters other than NUL holds no zero byte.
pub proof fn lemma_encoding_has_no_zero(chars: Seq<char>)
    requires
        forall|i: int| 0 <= i < chars.len() ==> chars[i] as u32 != 0,
    ensures
        forall|k: int| 0 <= k < encode_utf8(chars).len() ==> encode_utf8(chars)[k] != 0,
    decreases chars.len(),
{
    if chars.len() > 0 {
        let scalar = chars[0] as u32;
        let head = encode_scalar(scalar);
        let rest = chars.drop_first();
        lemma_scalar_encoding_has_no_zero(scalar);
        assert forall|i: int| 0 <= i < rest.len() implies rest[i] as u32 != 0 by {
            assert(rest[i] == chars[i + 1]);
        }
        lemma_encoding_has_no_zero(rest);
        assert(encode_utf8(chars) == head + encode_utf8(rest));
        assert forall|k: int| 0 <= k < head.len() implies head[k] != 0 by {}
        assert forall|k: int| 0 <= k < encode_utf8(chars).len() implies encode_utf8(chars)[k]
            != 0 by {
            if k < head.len() {
                assert(encode_utf8(chars)[k] == head[k]);
            } else {
                assert(encode_utf8(chars)[k] == encode_utf8(rest)[k - head.len()]);
            }
        }
    }
}

/// Characters other than NUL, encoded as UTF-8 and followed by a zero byte,
/// decode to their encoding.
pub proof fn lemma_decoded_encoding(chars: Seq<char>)
    requires
        forall|i: int| 0 <= i < chars.len() ==> chars[i] as u32 != 0,
    ensures
        decoded(encode_utf8(chars).push(0)) == Ok::<Seq<u8>, DecodeError>(encode_utf8(chars)),
{
    vstd::utf8::encode_utf8_valid_utf8(chars);
    lemma_encoding_has_no_zero(chars);
    lemma_decode_round_trip(encode_utf8(chars));
}

} // verus!
