use vstd::prelude::*;
use crate::cell::{Cell, Color};
use crate::strutil::char_to_string;
use crate::tools::Tool;
use crate::{BRUSH_MAX, BRUSH_MIN};

verus! {

/// What the next paint request will put down: a glyph, its two colors,
/// the footprint size and the tool that shapes it.
#[derive(Clone, Copy, Debug)]
pub struct Brush {
    pub size: u16,
    pub fg: Color,
    pub bg: Color,
    pub glyph: char,
    pub tool: Tool,
}

impl Default for Brush {
    fn default() -> (b: Brush)
        ensures
            b.size == 1,
            b.fg == Color::Black,
            b.bg == Color::White,
            b.glyph == '\u{2591}',
            b.tool == Tool::Point,
    {
        Brush {
            size: 1,
            fg: Color::Black,
            bg: Color::White,
            glyph: '\u{2591}',
            tool: Tool::Point,
        }
    }
}

impl Brush {
    /// The cell this brush paints.
    pub fn as_cell(&self) -> (c: Cell)
        ensures
            c == (Cell { fg: self.fg, bg: self.bg, glyph: self.glyph }),
    {
        Cell { fg: self.fg, bg: self.bg, glyph: self.glyph }
    }

    /// The brush glyph as a one-character string.
    pub fn char(&self) -> (s: String)
        ensures
            s@ == seq![self.glyph],
    {
        char_to_string(self.glyph)
    }

    /// Shrinks the brush by `val`, never below the smallest size.
    pub fn down(&mut self, val: u16)
        ensures
            final(self).size == if old(self).size - val > BRUSH_MIN as int {
                old(self).size - val
            } else {
                BRUSH_MIN as int
            },
            final(self).fg == old(self).fg,
            final(self).bg == old(self).bg,
            final(self).glyph == old(self).glyph,
            final(self).tool == old(self).tool,
    {
        let shrunk = if self.size >= val {
            self.size - val
        } else {
            0
        };
        self.size = if shrunk > BRUSH_MIN {
            shrunk
        } else {
            BRUSH_MIN
        };
    }

    /// Grows the brush by `val`, never past the largest size.
    pub fn up(&mut self, val: u16)
        requires
            old(self).size + val <= u16::MAX as int,
        ensures
            final(self).size == if old(self).size + val < BRUSH_MAX as int {
                old(self).size + val
            } else {
                BRUSH_MAX as int
            },
            final(self).fg == old(self).fg,
            final(self).bg == old(self).bg,
            final(self).glyph == old(self).glyph,
            final(self).tool == old(self).tool,
    {
        let grown = self.size + val;
        self.size = if grown < BRUSH_MAX {
            grown
        } else {
            BRUSH_MAX
        };
    }
}

} // verus!
