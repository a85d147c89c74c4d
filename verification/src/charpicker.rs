use vstd::prelude::*;
use crate::grid::{Coord, CoordMap};

verus! {

/// Relies on `char::from_u32`: yields the character of a valid scalar
/// value (not a surrogate, at most the largest code point) and nothing
/// otherwise, as its documentation states.
pub assume_specification[ std::primitive::char::from_u32 ](v: u32) -> (r: Option<char>)
    ensures
        (r is Some) == (v < 0xD800 || (0xE000 <= v && v <= 0x10FFFF)),
        r matches Option::Some(c) ==> c as u32 == v,
;

/// The table of pickable characters, keyed by grid position.
pub type CharMap = CoordMap<char>;

/// The positions the default table fills: six rows of printable ASCII
/// (the delete control left out) and ten rows of box-drawing characters.
pub open spec fn table_coords(c: Coord) -> bool {
    c.0 < 16 && c.1 < 16 && !(c.0 == 15 && c.1 == 5)
}

/// The code point the default table shows at a position: ASCII from 0x20
/// in the first six rows, box-drawing from 0x2500 in the remaining ten,
/// their rows reversed.
pub open spec fn table_code(c: Coord) -> u32 {
    if c.1 < 6 {
        (0x20 + c.1 * 16 + c.0) as u32
    } else {
        (0x2500 + (15 - c.1) * 16 + c.0) as u32
    }
}

/// The characters of half-row `x .. 16` of `row`, in column order.
pub open spec fn row_chars(m: Map<Coord, char>, row: u16, upto: int) -> Seq<char>
    decreases upto,
{
    if upto <= 0 {
        Seq::empty()
    } else {
        row_chars(m, row, upto - 1) + if m.contains_key(((upto - 1) as u16, row)) {
            seq![m[((upto - 1) as u16, row)]]
        } else {
            Seq::empty()
        }
    }
}

/// The characters of page `n`: its two rows, top first.
pub open spec fn page_chars(m: Map<Coord, char>, n: u16) -> Seq<char> {
    row_chars(m, (2 * n) as u16, 16) + row_chars(m, (2 * n + 1) as u16, 16)
}

/// The page shown for a requested number: the nearest non-empty page at
/// or below it, or nothing when all of them are empty.
pub open spec fn best_page(m: Map<Coord, char>, n: u16) -> Seq<char>
    decreases n,
{
    if page_chars(m, n).len() > 0 {
        page_chars(m, n)
    } else if n == 0 {
        Seq::empty()
    } else {
        best_page(m, (n - 1) as u16)
    }
}

/// A paged table of characters the brush can pick its glyph from.
#[derive(Debug)]
pub struct CharPicker {
    pub chars: CharMap,
    pub selected: (u16, u16),
    pub page: u16,
}

impl CharPicker {
    /// How many page steps the pager cycles through.
    pub fn rows(&self) -> (r: u16)
        ensures
            r == 7,
    {
        7
    }

    fn get_page(&self, number: u16) -> (v: Vec<char>)
        requires
            number <= 7,
        ensures
            v@ == best_page(self.chars.as_map(), number),
        decreases number,
    {
        let mut out: Vec<char> = Vec::new();
        let row = number * 2;
        for x in 0..16u16
            invariant
                row == number * 2,
                number <= 7,
                out@ == row_chars(self.chars.as_map(), row, x as int),
        {
            if let Option::Some(ch) = self.chars.get((x, row)) {
                out.push(ch);
            }
            proof {
                assert(out@ =~= row_chars(self.chars.as_map(), row, x + 1));
            }
        }
        let ghost first = out@;
        for x in 0..16u16
            invariant
                row == number * 2,
                number <= 7,
                first == row_chars(self.chars.as_map(), row, 16),
                out@ == first + row_chars(self.chars.as_map(), (row + 1) as u16, x as int),
        {
            if let Option::Some(ch) = self.chars.get((x, row + 1)) {
                out.push(ch);
            }
            proof {
                assert(out@ =~= first + row_chars(self.chars.as_map(), (row + 1) as u16, x + 1));
            }
        }
        proof {
            assert(out@ == page_chars(self.chars.as_map(), number));
        }
        if out.len() == 0 && number > 0 {
            return self.get_page(number - 1);
        }
        out
    }

    /// The page number points at one of the pager's steps.
    pub open spec fn wf(self) -> bool {
        self.page <= 7
    }

    /// The characters of the current page, falling back to the nearest
    /// earlier page that has any.
    pub fn page(&self) -> (v: Vec<char>)
        requires
            self.wf(),
        ensures
            v@ == best_page(self.chars.as_map(), self.page),
    {
        self.get_page(self.page)
    }

    /// Turns to the next page, wrapping past the last.
    pub fn next(&mut self)
        ensures
            final(self).page == if old(self).page + 1 > 7 {
                0int
            } else {
                old(self).page + 1
            },
            final(self).chars == old(self).chars,
            final(self).selected == old(self).selected,
    {
        if self.page >= 7 {
            self.page = 0;
        } else {
            self.page = self.page + 1;
        }
    }

    /// Turns to the previous page, wrapping before the first.
    pub fn prev(&mut self)
        ensures
            final(self).page == if old(self).page > 0 {
                old(self).page - 1
            } else {
                7int
            },
            final(self).chars == old(self).chars,
            final(self).selected == old(self).selected,
    {
        if self.page > 0 {
            self.page = self.page - 1;
        } else {
            self.page = 7;
        }
    }
}

impl Default for CharPicker {
    /// The standard table: printable ASCII and box-drawing characters.
    fn default() -> (r: CharPicker)
        ensures
            forall|c: Coord| #[trigger]
                r.chars.as_map().contains_key(c) <==> table_coords(c),
            forall|c: Coord|
                r.chars.as_map().contains_key(c) ==> (#[trigger] r.chars.as_map()[c]) as u32
                    == table_code(c),
            r.selected == (0u16, 0u16),
            r.page == 0,
    {
        let mut map: CharMap = CoordMap::new();
        for y in 0..6u16
            invariant
                forall|c: Coord| #[trigger]
                    map.as_map().contains_key(c) <==> (c.0 < 16 && c.1 < y && !(c.0 == 15 && c.1
                        == 5)),
                forall|c: Coord|
                    map.as_map().contains_key(c) ==> (#[trigger] map.as_map()[c]) as u32
                        == table_code(c),
        {
            for x in 0..16u16
                invariant
                    y < 6,
                    forall|c: Coord| #[trigger]
                        map.as_map().contains_key(c) <==> ((c.0 < 16 && c.1 < y && !(c.0 == 15
                            && c.1 == 5)) || (c.1 == y && c.0 < x && !(c.0 == 15 && c.1 == 5))),
                    forall|c: Coord|
                        map.as_map().contains_key(c) ==> (#[trigger] map.as_map()[c]) as u32
                            == table_code(c),
            {
                let code: u16 = 0x20 + y * 16 + x;
                if code != 0x7f {
                    let b = code as u8;
                    map.insert((x, y), b as char);
                }
            }
        }
        for y in 6..16u16
            invariant
                forall|c: Coord| #[trigger]
                    map.as_map().contains_key(c) <==> (c.0 < 16 && c.1 < y && !(c.0 == 15 && c.1
                        == 5)),
                forall|c: Coord|
                    map.as_map().contains_key(c) ==> (#[trigger] map.as_map()[c]) as u32
                        == table_code(c),
        {
            for x in 0..16u16
                invariant
                    6 <= y < 16,
                    forall|c: Coord| #[trigger]
                        map.as_map().contains_key(c) <==> ((c.0 < 16 && c.1 < y && !(c.0 == 15
                            && c.1 == 5)) || (c.1 == y && c.0 < x)),
                    forall|c: Coord|
                        map.as_map().contains_key(c) ==> (#[trigger] map.as_map()[c]) as u32
                            == table_code(c),
            {
                let code: u32 = 0x2500 + ((15 - y) as u32) * 16 + (x as u32);
                if let Option::Some(ch) = char::from_u32(code) {
                    map.insert((x, y), ch);
                }
            }
        }
        CharPicker { chars: map, selected: (0, 0), page: 0 }
    }
}

} // verus!
