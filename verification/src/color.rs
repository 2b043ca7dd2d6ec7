//! Severities, display colours and the console code of each colour.

use vstd::prelude::*;

verus! {

/// The importance level attached to a log record, most severe first.
#[derive(Clone, Copy, Debug, PartialEq, Eq, Structural)]
pub enum Severity {
    Error,
    Warn,
    Info,
    Debug,
    Trace,
}

/// The standard 4-bit display palette.
#[derive(Clone, Copy, Debug, PartialEq, Eq, Structural)]
pub enum Color {
    Black,
    Blue,
    Green,
    Cyan,
    Red,
    Magenta,
    Brown,
    LightGray,
    DarkGray,
    LightBlue,
    LightGreen,
    LightCyan,
    LightRed,
    Pink,
    Yellow,
    White,
}

/// The colour in which a record of the given severity is shown.
pub open spec fn severity_color(severity: Severity) -> Color {
    match severity {
        Severity::Error => Color::Red,
        Severity::Warn => Color::Yellow,
        Severity::Info => Color::Blue,
        Severity::Debug => Color::LightRed,
        Severity::Trace => Color::DarkGray,
    }
}

/// The console code of a colour: an intensity flag and a base colour number.
pub open spec fn console_code(color: Color) -> (u8, u8) {
    match color {
        Color::Black => (0u8, 0u8),
        Color::Blue => (0u8, 4u8),
        Color::Green => (0u8, 2u8),
        Color::Cyan => (0u8, 6u8),
        Color::Red => (0u8, 1u8),
        Color::Magenta => (0u8, 5u8),
        Color::Brown => (0u8, 3u8),
        Color::LightGray => (1u8, 7u8),
        Color::DarkGray => (0u8, 7u8),
        Color::LightBlue => (1u8, 4u8),
        Color::LightGreen => (1u8, 2u8),
        Color::LightCyan => (1u8, 6u8),
        Color::LightRed => (1u8, 1u8),
        Color::Pink => (1u8, 5u8),
        Color::Yellow => (1u8, 3u8),
        Color::White => (1u8, 0u8),
    }
}

/// Maps a severity to its display colour.
pub fn severity_to_color(severity: Severity) -> (color: Color)
    ensures
        color == severity_color(severity),
{
    match severity {
        Severity::Error => Color::Red,
        Severity::Warn => Color::Yellow,
        Severity::Info => Color::Blue,
        Severity::Debug => Color::LightRed,
        Severity::Trace => Color::DarkGray,
    }
}

impl From<Severity> for Color {
    fn from(severity: Severity) -> (color: Color) {
        severity_to_color(severity)
    }
}

impl vstd::std_specs::convert::FromSpecImpl<Severity> for Color {
    open spec fn obeys_from_spec() -> bool {
        true
    }

    open spec fn from_spec(severity: Severity) -> Color {
        severity_color(severity)
    }
}

/// Maps a colour to its console code `(intensity, base)`.
pub fn color_to_console_code(color: Color) -> (code: (u8, u8))
    ensures
        code == console_code(color),
        code.0 <= 1,
        code.1 <= 7,
{
    match color {
        Color::Black => (0, 0),
        Color::Blue => (0, 4),
        Color::Green => (0, 2),
        Color::Cyan => (0, 6),
        Color::Red => (0, 1),
        Color::Magenta => (0, 5),
        Color::Brown => (0, 3),
        Color::LightGray => (1, 7),
        Color::DarkGray => (0, 7),
        Color::LightBlue => (1, 4),
        Color::LightGreen => (1, 2),
        Color::LightCyan => (1, 6),
        Color::LightRed => (1, 1),
        Color::Pink => (1, 5),
        Color::Yellow => (1, 3),
        Color::White => (1, 0),
    }
}

/// Distinct severities are shown in distinct colours.
pub proof fn lemma_severity_color_injective(a: Severity, b: Severity)
    requires
        severity_color(a) == severity_color(b),
    ensures
        a == b,
{
}

/// Every console code has an intensity of 0 or 1 and a base between 0 and 7.
pub proof fn lemma_console_code_in_range(color: Color)
    ensures
        console_code(color).0 <= 1,
        console_code(color).1 <= 7,
{
}

/// Distinct colours have distinct console codes.
pub proof fn lemma_console_code_injective(a: Color, b: Color)
    requires
        console_code(a) == console_code(b),
    ensures
        a == b,
{
}

/// Every pair of an intensity and a base is the console code of some colour.
pub proof fn lemma_console_code_surjective(intensity: u8, base: u8) -> (color: Color)
    requires
        intensity <= 1,
        base <= 7,
    ensures
        console_code(color) == (intensity, base),
{
    if intensity == 0 {
        if base == 0 {
            Color::Black
        } else if base == 1 {
            Color::Red
        } else if base == 2 {
            Color::Green
        } else if base == 3 {
            Color::Brown
        } else if base == 4 {
            Color::Blue
        } else if base == 5 {
            Color::Magenta
        } else if base == 6 {
            Color::Cyan
        } else {
            Color::DarkGray
        }
    } else {
        if base == 0 {
            Color::White
        } else if base == 1 {
            Color::LightRed
        } else if base == 2 {
            Color::LightGreen
        } else if base == 3 {
            Color::Yellow
        } else if base == 4 {
            Color::LightBlue
        } else if base == 5 {
            Color::Pink
        } else if base == 6 {
            Color::LightCyan
        } else {
            Color::LightGray
        }
    }
}

} // verus!
