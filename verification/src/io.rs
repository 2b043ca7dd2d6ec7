//! Printing, and the syscall-style entry points `open`, `write` and `close`
//! over the two fixed pseudo-descriptors.

use crate::channel::{emitted, Channel, ChannelState};
use crate::color::Color;
use crate::cstr::{decoded, from_cstr, lemma_decoded_encoding, text_of, DecodeError};
use crate::render::{render, rendered};
use vstd::prelude::*;
use vstd::string::StringSliceAdditionalSpecFns;
use vstd::utf8::{decode_utf8, encode_utf8, valid_utf8};

verus! {

/// The descriptor of `stdin:`.
pub const STDIN: i32 = 0;

/// The descriptor of `stdout:`.
pub const STDOUT: i32 = 1;

/// What `open` answers for a path that names neither.
pub const UNKNOWN_PATH: i32 = -1;

/// The status of a call that succeeded.
pub const SUCCESS: i32 = 0;

/// The descriptor that a path names: 0 for `stdin:`, 1 for `stdout:`, and -1
/// for every other path.
pub open spec fn descriptor_of(path: Seq<char>) -> i32 {
    if path == "stdin:"@ {
        STDIN
    } else if path == "stdout:"@ {
        STDOUT
    } else {
        UNKNOWN_PATH
    }
}

/// What `open` answers for the zero-terminated path in `region`.
pub open spec fn opened(region: Seq<u8>) -> Result<i32, DecodeError> {
    match decoded(region) {
        Ok(text) => Ok(descriptor_of(decode_utf8(text))),
        Err(e) => Err(e),
    }
}

/// The channel after `buffer` was handed to `write`, and what the caller is
/// told: valid text is emitted as it is and the status is 0; anything else is
/// refused and the channel stays as it was.
pub open spec fn written(before: ChannelState, buffer: Seq<u8>) -> (
    ChannelState,
    Result<i32, DecodeError>,
) {
    if valid_utf8(buffer) {
        (emitted(before, buffer), Ok(SUCCESS))
    } else {
        (before, Err(DecodeError::InvalidText))
    }
}

/// Whether two byte slices hold the same bytes.
pub fn same_bytes(a: &[u8], b: &[u8]) -> (same: bool)
    ensures
        same == (a@ == b@),
{
    if a.len() != b.len() {
        return false;
    }
    let mut i: usize = 0;
    while i < a.len()
        invariant
            a@.len() == b@.len(),
            i <= a@.len(),
            forall|k: int| 0 <= k < i ==> a@[k] == b@[k],
        decreases a@.len() - i,
    {
        if a[i] != b[i] {
            return false;
        }
        i = i + 1;
    }
    assert(a@ =~= b@);
    true
}

/// Whether two strings hold the same characters.
pub fn same_text(a: &str, b: &str) -> (same: bool)
    ensures
        same == (a@ == b@),
{
    proof {
        vstd::utf8::encode_utf8_decode_utf8(a@);
        vstd::utf8::encode_utf8_decode_utf8(b@);
    }
    same_bytes(a.as_bytes(), b.as_bytes())
}

/// Looks a path up among the fixed pseudo-descriptors.
pub fn lookup(path: &str) -> (fd: i32)
    ensures
        fd == descriptor_of(path@),
{
    if same_text(path, "stdin:") {
        STDIN
    } else if same_text(path, "stdout:") {
        STDOUT
    } else {
        UNKNOWN_PATH
    }
}

/// Prints `text` to the channel as it is, with no wrapping.
pub fn print(channel: &mut Channel, text: &str)
    ensures
        final(channel)@ == emitted(old(channel)@, text.spec_bytes()),
{
    channel.emit(text.as_bytes());
}

/// Prints `text` to the channel between the escape sequences of `color`.
pub fn print_in_color(channel: &mut Channel, text: &str, color: Color)
    ensures
        final(channel)@ == emitted(old(channel)@, rendered(text.spec_bytes(), color)),
{
    let out = render(text, color);
    channel.emit(out.as_slice());
}

/// Writes `buffer` to the channel and returns 0. The buffer must be valid
/// text; one that is not is refused and nothing is written.
///
/// Exactly the bytes of the buffer are written: no terminator is added. The
/// descriptor is accepted as it is and plays no part.
pub fn write(channel: &mut Channel, fd: usize, buffer: &[u8]) -> (r: Result<i32, DecodeError>)
    ensures
        (final(channel)@, r) == written(old(channel)@, buffer@),
{
    match text_of(buffer) {
        Ok(text) => {
            print(channel, text);
            Ok(SUCCESS)
        },
        Err(e) => Err(e),
    }
}

/// Opens the zero-terminated path in `path`: 0 for `stdin:`, 1 for
/// `stdout:`, -1 for any other path. A path that cannot be decoded is an
/// error. The flags are accepted and not interpreted.
pub fn open(path: &[u8], flags: usize) -> (r: Result<i32, DecodeError>)
    ensures
        r == opened(path@),
{
    match from_cstr(path) {
        Ok(text) => Ok(lookup(text)),
        Err(e) => Err(e),
    }
}

/// Closes a descriptor. There is nothing to release: the answer is 0 for
/// every descriptor.
pub fn close(fd: usize) -> (status: i32)
    ensures
        status == SUCCESS,
{
    SUCCESS
}

/// Opening the zero-terminated encoding of a path answers with the
/// descriptor that the path names, for every path without a NUL character.
pub proof fn lemma_open_finds_descriptor(path: Seq<char>)
    requires
        forall|i: int| 0 <= i < path.len() ==> path[i] as u32 != 0,
    ensures
        opened(encode_utf8(path).push(0)) == Ok::<i32, DecodeError>(descriptor_of(path)),
{
    lemma_decoded_encoding(path);
    vstd::utf8::encode_utf8_decode_utf8(path);
}

/// `open` answers 0 only for `stdin:` and 1 only for `stdout:`.
pub proof fn lemma_descriptor_names(path: Seq<char>)
    ensures
        descriptor_of(path) == STDIN <==> path == "stdin:"@,
        descriptor_of(path) == STDOUT <==> path == "stdout:"@,
        descriptor_of(path) == STDIN || descriptor_of(path) == STDOUT || descriptor_of(path)
            == UNKNOWN_PATH,
{
    reveal_strlit("stdin:");
    reveal_strlit("stdout:");
    assert("stdin:"@.len() == 6);
    assert("stdout:"@.len() == 7);
}

} // verus!
