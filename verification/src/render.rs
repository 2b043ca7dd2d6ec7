//! Rendering of a message between a colour escape sequence and a reset.

use crate::color::{color_to_console_code, console_code, Color};
use vstd::prelude::*;
use vstd::string::StringSliceAdditionalSpecFns;
use vstd::utf8::valid_utf8;

verus! {

/// The escape control byte.
pub const ESC: u8 = 27;

/// The decimal digits of `n` as ASCII bytes, most significant first.
pub open spec fn decimal(n: nat) -> Seq<u8>
    decreases n,
{
    if n < 10 {
        seq![(48 + n) as u8]
    } else {
        decimal(n / 10).push((48 + n % 10) as u8)
    }
}

/// The sequence that switches the terminal to `color`:
/// ESC `[` intensity `;` base+30 `m`, the two numbers in decimal.
pub open spec fn color_prefix(color: Color) -> Seq<u8> {
    let code = console_code(color);
    seq![ESC, 0x5bu8] + decimal(code.0 as nat) + seq![0x3bu8] + decimal((code.1 + 30) as nat)
        + seq![0x6du8]
}

/// The sequence that resets the terminal's colour: ESC `[0m`.
pub open spec fn color_reset() -> Seq<u8> {
    seq![ESC, 0x5bu8, 0x30u8, 0x6du8]
}

/// A message wrapped in the escape sequences of a colour, with nothing
/// between them but the message itself.
pub open spec fn rendered(message: Seq<u8>, color: Color) -> Seq<u8> {
    color_prefix(color) + message + color_reset()
}

/// Appends `bytes` to `out`.
pub fn append_bytes(out: &mut Vec<u8>, bytes: &[u8])
    ensures
        final(out)@ == old(out)@ + bytes@,
{
    let mut i: usize = 0;
    while i < bytes.len()
        invariant
            i <= bytes@.len(),
            out@ == old(out)@ + bytes@.subrange(0, i as int),
        decreases bytes@.len() - i,
    {
        out.push(bytes[i]);
        i = i + 1;
        assert(bytes@.subrange(0, i as int) == bytes@.subrange(0, i - 1).push(bytes@[i - 1]));
    }
    assert(bytes@.subrange(0, i as int) == bytes@);
}

/// Appends the decimal digits of `n` to `out`.
pub fn append_decimal(out: &mut Vec<u8>, n: u8)
    ensures
        final(out)@ == old(out)@ + decimal(n as nat),
{
    proof {
        reveal_with_fuel(decimal, 3);
    }
    if n >= 100 {
        out.push(48 + n / 100);
        out.push(48 + (n / 10) % 10);
        out.push(48 + n % 10);
        assert(decimal(n as nat) == seq![
            (48 + n / 100) as u8,
            (48 + (n / 10) % 10) as u8,
            (48 + n % 10) as u8,
        ]);
    } else if n >= 10 {
        out.push(48 + n / 10);
        out.push(48 + n % 10);
        assert(decimal(n as nat) == seq![(48 + n / 10) as u8, (48 + n % 10) as u8]);
    } else {
        out.push(48 + n);
    }
}

/// Renders the bytes of a message in `color`: the colour's escape sequence,
/// the message, then the reset sequence.
pub fn render_bytes(message: &[u8], color: Color) -> (out: Vec<u8>)
    ensures
        out@ == rendered(message@, color),
{
    let code = color_to_console_code(color);
    let mut out: Vec<u8> = Vec::new();
    out.push(ESC);
    out.push(0x5b);
    append_decimal(&mut out, code.0);
    out.push(0x3b);
    append_decimal(&mut out, code.1 + 30);
    out.push(0x6d);
    assert(out@ == color_prefix(color));
    append_bytes(&mut out, message);
    out.push(ESC);
    out.push(0x5b);
    out.push(0x30);
    out.push(0x6d);
    out
}

/// Renders `message` in `color`. The result is text again.
pub fn render(message: &str, color: Color) -> (out: Vec<u8>)
    ensures
        out@ == rendered(message.spec_bytes(), color),
        valid_utf8(out@),
{
    proof {
        vstd::utf8::encode_utf8_valid_utf8(message@);
        lemma_rendered_is_text(message.spec_bytes(), color);
    }
    render_bytes(message.as_bytes(), color)
}

/// The escape sequence of a colour is seven bytes: ESC `[`, the intensity
/// digit, `;`, the digit 3, the base digit and `m`.
pub proof fn lemma_color_prefix_bytes(color: Color)
    ensures
        color_prefix(color) == seq![
            ESC,
            0x5bu8,
            (0x30 + console_code(color).0) as u8,
            0x3bu8,
            0x33u8,
            (0x30 + console_code(color).1) as u8,
            0x6du8,
        ],
{
    reveal_with_fuel(decimal, 2);
    let code = console_code(color);
    assert(decimal(code.0 as nat) == seq![(0x30 + code.0) as u8]);
    assert(decimal((code.1 + 30) as nat) == seq![0x33u8, (0x30 + code.1) as u8]);
}

/// A rendered message starts with the colour's escape sequence, ends with the
/// reset sequence, and holds the message unchanged between the two.
pub proof fn lemma_rendered_brackets_message(message: Seq<u8>, color: Color)
    ensures
        rendered(message, color).len() == message.len() + 11,
        rendered(message, color).subrange(0, 7) == color_prefix(color),
        rendered(message, color).subrange(7, 7 + message.len() as int) == message,
        rendered(message, color).subrange(7 + message.len() as int, 11 + message.len() as int)
            == color_reset(),
{
    lemma_color_prefix_bytes(color);
}

/// Rendering keeps text valid: the rendered form of valid UTF-8 is valid
/// UTF-8.
pub proof fn lemma_rendered_is_text(message: Seq<u8>, color: Color)
    requires
        valid_utf8(message),
    ensures
        valid_utf8(rendered(message, color)),
{
    lemma_color_prefix_bytes(color);
    lemma_ascii_is_text(color_prefix(color));
    lemma_ascii_is_text(color_reset());
    vstd::utf8::valid_utf8_concat(color_prefix(color), message);
    vstd::utf8::valid_utf8_concat(color_prefix(color) + message, color_reset());
}

/// Bytes below 128 are valid UTF-8.
pub proof fn lemma_ascii_is_text(bytes: Seq<u8>)
    requires
        forall|i: int| 0 <= i < bytes.len() ==> bytes[i] < 128,
    ensures
        valid_utf8(bytes),
    decreases bytes.len(),
{
    if bytes.len() > 0 {
        let b = bytes[0];
        assert(vstd::utf8::is_leading_byte_width_1(b)) by (bit_vector)
            requires
                b < 128,
        ;
        assert(vstd::utf8::valid_first_scalar(bytes)) by {
            assert(vstd::utf8::codepoint_width_1(b) < 0x80) by (bit_vector)
                requires
                    b < 128,
            ;
        }
        let rest = vstd::utf8::pop_first_scalar(bytes);
        assert(rest == bytes.subrange(1, bytes.len() as int));
        assert forall|i: int| 0 <= i < rest.len() implies rest[i] < 128 by {
            assert(rest[i] == bytes[i + 1]);
        }
        lemma_ascii_is_text(rest);
    }
}

} // verus!
