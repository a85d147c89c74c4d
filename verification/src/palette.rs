use vstd::prelude::*;
use crate::cell::Color;

verus! {

/// The sixteen default palette entries, in palette order.
pub open spec fn default_palette() -> Seq<Color> {
    seq![
        Color::Black,
        Color::Red,
        Color::Yellow,
        Color::Green,
        Color::Blue,
        Color::Magenta,
        Color::Cyan,
        Color::Gray,
        Color::DarkGray,
        Color::LightRed,
        Color::LightYellow,
        Color::LightGreen,
        Color::LightBlue,
        Color::LightMagenta,
        Color::LightCyan,
        Color::White,
    ]
}

/// A ring of sixteen colors with one cursor for the foreground and one
/// for the background.
#[derive(Clone, Debug)]
pub struct Palette {
    pub colors: Vec<Color>,
    pub fg: usize,
    pub bg: usize,
}

impl Palette {
    /// Sixteen slots, both cursors on one of them.
    pub open spec fn wf(self) -> bool {
        &&& self.colors@.len() == 16
        &&& self.fg < 16
        &&& self.bg < 16
    }

    /// The palette entries, by value.
    pub fn colors(&self) -> (v: Vec<Color>)
        requires
            self.wf(),
        ensures
            v@ == self.colors@,
    {
        let mut v: Vec<Color> = Vec::new();
        let n = self.colors.len();
        for i in 0..n
            invariant
                n == self.colors@.len(),
                v@ == self.colors@.take(i as int),
        {
            v.push(self.colors[i]);
            proof {
                assert(v@ =~= self.colors@.take(i + 1));
            }
        }
        proof {
            assert(self.colors@.take(n as int) =~= self.colors@);
        }
        v
    }

    /// Replaces the entry at `index`; positions past the palette are
    /// ignored.
    pub fn replace(&mut self, index: usize, color: Color)
        requires
            old(self).wf(),
        ensures
            final(self).wf(),
            index < 16 ==> final(self).colors@ == old(self).colors@.update(index as int, color),
            index >= 16 ==> final(self).colors@ == old(self).colors@,
            final(self).fg == old(self).fg,
            final(self).bg == old(self).bg,
    {
        if index > 15 {
            return ;
        }
        self.colors.set(index, color);
    }

    fn next(&self, index: usize) -> (r: usize)
        requires
            self.wf(),
            index < 16,
        ensures
            r == (index + 1) % 16,
    {
        (index + 1) % self.colors.len()
    }

    fn prev(&self, index: usize) -> (r: usize)
        requires
            self.wf(),
            index < 16,
        ensures
            r == if index > 0 {
                index - 1
            } else {
                15int
            },
    {
        if index > 0 {
            index - 1
        } else {
            self.colors.len() - 1
        }
    }

    /// Steps the foreground cursor forward and hands back its color.
    pub fn fg_next(&mut self) -> (c: Color)
        requires
            old(self).wf(),
        ensures
            final(self).wf(),
            final(self).fg == (old(self).fg + 1) % 16,
            c == final(self).colors@[final(self).fg as int],
            final(self).colors@ == old(self).colors@,
            final(self).bg == old(self).bg,
    {
        self.fg = self.next(self.fg);
        self.colors[self.fg]
    }

    /// Steps the foreground cursor backward and hands back its color.
    pub fn fg_prev(&mut self) -> (c: Color)
        requires
            old(self).wf(),
        ensures
            final(self).wf(),
            final(self).fg == if old(self).fg > 0 {
                old(self).fg - 1
            } else {
                15int
            },
            c == final(self).colors@[final(self).fg as int],
            final(self).colors@ == old(self).colors@,
            final(self).bg == old(self).bg,
    {
        self.fg = self.prev(self.fg);
        self.colors[self.fg]
    }

    /// Steps the background cursor forward and hands back its color.
    pub fn bg_next(&mut self) -> (c: Color)
        requires
            old(self).wf(),
        ensures
            final(self).wf(),
            final(self).bg == (old(self).bg + 1) % 16,
            c == final(self).colors@[final(self).bg as int],
            final(self).colors@ == old(self).colors@,
            final(self).fg == old(self).fg,
    {
        self.bg = self.next(self.bg);
        self.colors[self.bg]
    }

    /// Steps the background cursor backward and hands back its color.
    pub fn bg_prev(&mut self) -> (c: Color)
        requires
            old(self).wf(),
        ensures
            final(self).wf(),
            final(self).bg == if old(self).bg > 0 {
                old(self).bg - 1
            } else {
                15int
            },
            c == final(self).colors@[final(self).bg as int],
            final(self).colors@ == old(self).colors@,
            final(self).fg == old(self).fg,
    {
        self.bg = self.prev(self.bg);
        self.colors[self.bg]
    }
}

impl Default for Palette {
    /// The standard sixteen colors, foreground on black, background on
    /// white.
    fn default() -> (p: Palette)
        ensures
            p.wf(),
            p.colors@ == default_palette(),
            p.fg == 0,
            p.bg == 15,
    {
        let mut colors: Vec<Color> = Vec::new();
        colors.push(Color::Black);
        colors.push(Color::Red);
        colors.push(Color::Yellow);
        colors.push(Color::Green);
        colors.push(Color::Blue);
        colors.push(Color::Magenta);
        colors.push(Color::Cyan);
        colors.push(Color::Gray);
        colors.push(Color::DarkGray);
        colors.push(Color::LightRed);
        colors.push(Color::LightYellow);
        colors.push(Color::LightGreen);
        colors.push(Color::LightBlue);
        colors.push(Color::LightMagenta);
        colors.push(Color::LightCyan);
        colors.push(Color::White);
        proof {
            assert(colors@ =~= default_palette());
        }
        Palette { colors, fg: 0, bg: 15 }
    }
}

} // verus!
