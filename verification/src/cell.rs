use vstd::prelude::*;

verus! {

/// A terminal color as the canvas records it. `Reset` stands for the
/// terminal's default color and doubles as the "unset" half of the empty
/// sentinel cell.
#[derive(Clone, Copy, Debug, PartialEq, Eq, Structural)]
pub enum Color {
    Reset,
    Black,
    Red,
    Green,
    Yellow,
    Blue,
    Magenta,
    Cyan,
    Gray,
    DarkGray,
    LightRed,
    LightGreen,
    LightYellow,
    LightBlue,
    LightMagenta,
    LightCyan,
    White,
    Rgb(u8, u8, u8),
    Indexed(u8),
}

/// One styled character: a foreground color, a background color and a glyph.
/// Cells are plain values, copied rather than shared.
#[derive(Clone, Copy, Debug, PartialEq, Eq, Structural)]
pub struct Cell {
    pub fg: Color,
    pub bg: Color,
    pub glyph: char,
}

/// The distinguished "empty" cell: both colors unset and a space glyph.
/// A coordinate absent from a layer's data is implicitly this value, and a
/// cell equal to it never occludes anything during compositing.
pub open spec fn empty_cell() -> Cell {
    Cell { fg: Color::Reset, bg: Color::Reset, glyph: ' ' }
}

impl Cell {
    /// The empty sentinel value, used by the undo history to record a
    /// coordinate that held nothing before a paint.
    pub fn empty() -> (c: Cell)
        ensures
            c == empty_cell(),
    {
        Cell { fg: Color::Reset, bg: Color::Reset, glyph: ' ' }
    }

    /// The glyph of this cell.
    pub fn glyph_char(&self) -> (c: char)
        ensures
            c == self.glyph,
    {
        self.glyph
    }
}

impl Default for Cell {
    fn default() -> (c: Cell)
        ensures
            c == empty_cell(),
    {
        Cell::empty()
    }
}

} // verus!
