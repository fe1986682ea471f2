//! In-memory rendering of task output.
//!
//! A task's bytes and style changes are rendered by `termcolor::Buffer`, which
//! either embeds ANSI escape sequences or drops every style change. Verus does
//! not look inside that type: the functions of this module state what the
//! buffer's methods do to the bytes it holds, and the rest of the library is
//! proved from these statements.

use vstd::prelude::*;
use crate::color::Color;
use std::io::Write;
use termcolor::WriteColor;

verus! {

/// `termcolor::Buffer`, carried as an opaque value.
#[verifier::external_type_specification]
#[verifier::external_body]
pub struct ExBuffer(termcolor::Buffer);

/// The bytes that a buffer holds, in the order in which they were rendered
/// (what `termcolor::Buffer::as_slice` shows).
pub uninterp spec fn buffer_bytes(buffer: termcolor::Buffer) -> Seq<u8>;

/// Whether a buffer was made by `termcolor::Buffer::ansi` (true) or by
/// `termcolor::Buffer::no_color` (false).
pub uninterp spec fn buffer_is_ansi(buffer: termcolor::Buffer) -> bool;

/// The digit by which ANSI names one of the eight basic colors.
pub open spec fn basic_digit(color: Color) -> Option<u8> {
    match color {
        Color::Black => Some(0x30u8),
        Color::Red => Some(0x31u8),
        Color::Green => Some(0x32u8),
        Color::Yellow => Some(0x33u8),
        Color::Blue => Some(0x34u8),
        Color::Magenta => Some(0x35u8),
        Color::Cyan => Some(0x36u8),
        Color::White => Some(0x37u8),
        _ => None,
    }
}

/// The decimal digits of `n` in ASCII, without leading zeros.
pub open spec fn decimal(n: u8) -> Seq<u8> {
    if n >= 100 {
        seq![(0x30 + n / 100) as u8, (0x30 + n / 10 % 10) as u8, (0x30 + n % 10) as u8]
    } else if n >= 10 {
        seq![(0x30 + n / 10) as u8, (0x30 + n % 10) as u8]
    } else {
        seq![(0x30 + n) as u8]
    }
}

/// The escape sequence by which an ANSI buffer selects `color` as the
/// foreground color: `ESC [ 3 d m` for a basic color with digit `d`,
/// `ESC [ 3 8 ; 5 ; n m` for the indexed color `n`, and
/// `ESC [ 3 8 ; 2 ; r ; g ; b m` for a color given by its parts, each number
/// in decimal.
pub open spec fn foreground_code(color: Color) -> Seq<u8> {
    match color {
        Color::Ansi256(n) => seq![0x1bu8, 0x5bu8, 0x33u8, 0x38u8, 0x3bu8, 0x35u8, 0x3bu8]
            + decimal(n) + seq![0x6du8],
        Color::Rgb(r, g, b) => seq![0x1bu8, 0x5bu8, 0x33u8, 0x38u8, 0x3bu8, 0x32u8, 0x3bu8]
            + decimal(r) + seq![0x3bu8] + decimal(g) + seq![0x3bu8] + decimal(b) + seq![0x6du8],
        _ => seq![0x1bu8, 0x5bu8, 0x33u8, basic_digit(color).unwrap(), 0x6du8],
    }
}

/// The escape sequence `ESC [ 0 m`, which an ANSI buffer appends on reset.
pub open spec fn reset_code() -> Seq<u8> {
    seq![0x1bu8, 0x5bu8, 0x30u8, 0x6du8]
}

/// The escape sequence `ESC [ 1 m`, which an ANSI buffer appends for bold.
pub open spec fn bold_code() -> Seq<u8> {
    seq![0x1bu8, 0x5bu8, 0x31u8, 0x6du8]
}

/// What an ANSI buffer appends for bold, or for not bold.
pub open spec fn weight_code(bold: bool) -> Seq<u8> {
    if bold {
        bold_code()
    } else {
        Seq::empty()
    }
}

/// What an ANSI buffer appends when a style is set on it: a reset, then the
/// weight, then the foreground color where there is one.
pub open spec fn style_code(bold: bool, color: Option<Color>) -> Seq<u8> {
    reset_code() + weight_code(bold) + match color {
        Some(color) => foreground_code(color),
        None => Seq::empty(),
    }
}

/// What a reset appends to a buffer of the given kind.
pub open spec fn reset_bytes(ansi: bool) -> Seq<u8> {
    if ansi {
        reset_code()
    } else {
        Seq::empty()
    }
}

/// What setting a style appends to a buffer of the given kind.
pub open spec fn style_bytes(ansi: bool, bold: bool, color: Option<Color>) -> Seq<u8> {
    if ansi {
        style_code(bold, color)
    } else {
        Seq::empty()
    }
}

/// Calls `termcolor::Buffer::ansi`: the new buffer is empty and renders style
/// changes as ANSI escape sequences.
#[verifier::external_body]
pub(crate) fn ansi_buffer() -> (buffer: termcolor::Buffer)
    ensures
        buffer_bytes(buffer) == Seq::<u8>::empty(),
        buffer_is_ansi(buffer),
{
    termcolor::Buffer::ansi()
}

/// Calls `termcolor::Buffer::no_color`: the new buffer is empty and drops
/// every style change.
#[verifier::external_body]
pub(crate) fn plain_buffer() -> (buffer: termcolor::Buffer)
    ensures
        buffer_bytes(buffer) == Seq::<u8>::empty(),
        !buffer_is_ansi(buffer),
{
    termcolor::Buffer::no_color()
}

/// Calls `write_all` of `termcolor::Buffer`, which appends the data to the
/// vector inside the buffer and cannot fail.
#[verifier::external_body]
pub(crate) fn buffer_write(buffer: &mut termcolor::Buffer, data: &[u8])
    ensures
        buffer_bytes(*final(buffer)) == buffer_bytes(*old(buffer)) + data@,
        buffer_is_ansi(*final(buffer)) == buffer_is_ansi(*old(buffer)),
{
    let _ = buffer.write_all(data);
}

/// Calls `set_color` of `termcolor::Buffer` with a fresh `ColorSpec` on which
/// only boldness is set. A fresh `ColorSpec` asks for a reset first, so an
/// ANSI buffer appends `ESC [ 0 m` and then, for bold, `ESC [ 1 m`; a buffer
/// without color stays as it is.
#[verifier::external_body]
pub(crate) fn buffer_set_bold(buffer: &mut termcolor::Buffer, bold: bool)
    ensures
        buffer_is_ansi(*old(buffer)) ==> buffer_bytes(*final(buffer)) == buffer_bytes(
            *old(buffer),
        ) + reset_code() + weight_code(bold),
        !buffer_is_ansi(*old(buffer)) ==> buffer_bytes(*final(buffer)) == buffer_bytes(
            *old(buffer),
        ),
        buffer_is_ansi(*final(buffer)) == buffer_is_ansi(*old(buffer)),
{
    let mut spec = termcolor::ColorSpec::new();
    spec.set_bold(bold);
    let _ = buffer.set_color(&spec);
}

/// Calls `set_color` of `termcolor::Buffer` with a fresh `ColorSpec` on which
/// boldness and the foreground color are set. An ANSI buffer appends
/// `ESC [ 0 m`, then `ESC [ 1 m` for bold, then the escape sequence that
/// `write_color` of `termcolor::Ansi` writes for a foreground that is not
/// intense; a buffer without color stays as it is.
#[verifier::external_body]
pub(crate) fn buffer_set_color(buffer: &mut termcolor::Buffer, bold: bool, color: Color)
    ensures
        buffer_is_ansi(*old(buffer)) ==> buffer_bytes(*final(buffer)) == buffer_bytes(
            *old(buffer),
        ) + reset_code() + weight_code(bold) + foreground_code(color),
        !buffer_is_ansi(*old(buffer)) ==> buffer_bytes(*final(buffer)) == buffer_bytes(
            *old(buffer),
        ),
        buffer_is_ansi(*final(buffer)) == buffer_is_ansi(*old(buffer)),
{
    let fg = match color {
        Color::Black => termcolor::Color::Black,
        Color::Blue => termcolor::Color::Blue,
        Color::Green => termcolor::Color::Green,
        Color::Red => termcolor::Color::Red,
        Color::Cyan => termcolor::Color::Cyan,
        Color::Magenta => termcolor::Color::Magenta,
        Color::Yellow => termcolor::Color::Yellow,
        Color::White => termcolor::Color::White,
        Color::Ansi256(n) => termcolor::Color::Ansi256(n),
        Color::Rgb(r, g, b) => termcolor::Color::Rgb(r, g, b),
    };
    let _ = buffer.set_color(termcolor::ColorSpec::new().set_bold(bold).set_fg(Some(fg)));
}

/// Calls `reset` of `termcolor::Buffer`: an ANSI buffer appends `ESC [ 0 m`,
/// a buffer without color stays as it is.
#[verifier::external_body]
pub(crate) fn buffer_reset(buffer: &mut termcolor::Buffer)
    ensures
        buffer_bytes(*final(buffer)) == buffer_bytes(*old(buffer)) + reset_bytes(
            buffer_is_ansi(*old(buffer)),
        ),
        buffer_is_ansi(*final(buffer)) == buffer_is_ansi(*old(buffer)),
{
    let _ = buffer.reset();
}

/// Calls `termcolor::Buffer::clear`, which empties the buffer and keeps its
/// kind.
#[verifier::external_body]
pub(crate) fn buffer_clear(buffer: &mut termcolor::Buffer)
    ensures
        buffer_bytes(*final(buffer)) == Seq::<u8>::empty(),
        buffer_is_ansi(*final(buffer)) == buffer_is_ansi(*old(buffer)),
{
    buffer.clear();
}

/// Calls `termcolor::Buffer::as_slice` and copies the bytes it shows.
#[verifier::external_body]
pub(crate) fn buffer_contents(buffer: &termcolor::Buffer) -> (bytes: Vec<u8>)
    ensures
        bytes@ == buffer_bytes(*buffer),
{
    buffer.as_slice().to_vec()
}

/// Calls `termcolor::Buffer::into_inner`, which hands out the vector inside
/// the buffer.
#[verifier::external_body]
pub(crate) fn buffer_into_bytes(buffer: termcolor::Buffer) -> (bytes: Vec<u8>)
    ensures
        bytes@ == buffer_bytes(buffer),
{
    buffer.into_inner()
}

} // verus!
