//! Foreground colors that a task can select for its output.

use vstd::prelude::*;

verus! {

/// A foreground color of the terminal.
#[derive(Clone, Copy, Debug, PartialEq, Eq, Structural)]
pub enum Color {
    Black,
    Blue,
    Green,
    Red,
    Cyan,
    Magenta,
    Yellow,
    White,
    /// One of the 256 indexed colors.
    Ansi256(u8),
    /// A color given by its red, green and blue parts.
    Rgb(u8, u8, u8),
}

} // verus!
