use vstd::prelude::*;

verus! {

/// A terminal color: the terminal's own default, one of the sixteen basic
/// colors, a 24-bit RGB triple, or an index into the 256-color palette.
#[derive(Debug, Clone, Copy, PartialEq, Eq, Hash, Structural)]
pub enum Color {
    /// The terminal's default color (nothing is set).
    Reset,
    Black,
    Red,
    Green,
    Yellow,
    Blue,
    Magenta,
    Cyan,
    Gray,
    DarkGray,
    LightRed,
    LightGreen,
    LightYellow,
    LightBlue,
    LightMagenta,
    LightCyan,
    White,
    /// Red, green and blue channels.
    Rgb(u8, u8, u8),
    /// An index into the fixed 256-color palette.
    Indexed(u8),
}

} // verus!
