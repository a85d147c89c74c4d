use vstd::prelude::*;
use crate::app::App;
use crate::cell::Cell;
use crate::grid::Coord;
use crate::layer::LayerData;
use crate::strutil::chars_to_string;

verus! {

/// Whether `l..=r` and `b..=t` are the tight bounding box of the
/// occupied coordinates of `m`: every cell lies inside it, and every
/// edge is touched.
pub open spec fn is_bounds(m: Map<Coord, Cell>, l: int, r: int, b: int, t: int) -> bool {
    &&& (forall|c: Coord|
        #[trigger] m.contains_key(c) ==> l <= c.0 <= r && b <= c.1 <= t)
    &&& (exists|c: Coord| #[trigger] m.contains_key(c) && c.0 == l)
    &&& (exists|c: Coord| #[trigger] m.contains_key(c) && c.0 == r)
    &&& (exists|c: Coord| #[trigger] m.contains_key(c) && c.1 == b)
    &&& (exists|c: Coord| #[trigger] m.contains_key(c) && c.1 == t)
}

/// One text row of the canvas: the glyphs of columns `l .. l + n` of row
/// `y`, a space standing in for an absent cell.
pub open spec fn line_of(m: Map<Coord, Cell>, y: u16, l: u16, n: int) -> Seq<char>
    decreases n,
{
    if n <= 0 {
        Seq::empty()
    } else {
        line_of(m, y, l, n - 1).push(
            if m.contains_key(((l + n - 1) as u16, y)) {
                m[((l + n - 1) as u16, y)].glyph
            } else {
                ' '
            },
        )
    }
}

/// The canvas as text: the rows `b ..< b + k`, each of width `w`, joined
/// with line breaks.
pub open spec fn text_of(m: Map<Coord, Cell>, l: u16, b: u16, w: int, k: int) -> Seq<char>
    decreases k,
{
    if k <= 0 {
        Seq::empty()
    } else if k == 1 {
        line_of(m, b, l, w)
    } else {
        text_of(m, l, b, w, k - 1) + seq!['\n'] + line_of(m, (b + k - 1) as u16, l, w)
    }
}

/// The tight bounding box of the composite, together with the composite
/// itself; nothing when the canvas shows nothing. The box comes back as
/// left, right, bottom, top, all inclusive.
pub fn get_drawing_region(app: &mut App) -> (r: Option<(u16, u16, u16, u16, LayerData)>)
    requires
        old(app).wf(),
    ensures
        final(app).wf(),
        final(app).layers.lviews() == old(app).layers.lviews(),
        final(app).layers.active == old(app).layers.active,
        final(app).layers.id_list == old(app).layers.id_list,
        final(app).layers.last_pos == old(app).layers.last_pos,
        final(app).history == old(app).history,
        crate::app::core_unchanged(*old(app), *final(app)),
        match r {
            Option::Some(region) => region.4.as_map() == old(app).layers.composite()
                && is_bounds(
                region.4.as_map(),
                region.0 as int,
                region.1 as int,
                region.2 as int,
                region.3 as int,
            ),
            Option::None => old(app).layers.composite() == Map::<Coord, Cell>::empty(),
        },
{
    let page = app.layers.render();
    proof {
        use_type_invariant(&page);
        page.lemma_pairs();
    }
    let n = page.len();
    if n == 0 {
        proof {
            assert(page.as_map() =~= Map::<Coord, Cell>::empty());
        }
        return Option::None;
    }
    let first = page.pair_at(0);
    let mut left = first.0.0;
    let mut right = first.0.0;
    let mut bottom = first.0.1;
    let mut top = first.0.1;
    for i in 1..n
        invariant
            n == page.pairs().len(),
            n >= 1,
            crate::grid::unique_keys(page.pairs()),
            page.as_map() == crate::grid::map_of(page.pairs()),
            forall|j: int|
                0 <= j < page.pairs().len() ==> page.as_map().contains_key(
                    (#[trigger] page.pairs()[j]).0,
                ),
            forall|k: Coord|
                #[trigger] page.as_map().contains_key(k) ==> exists|j: int|
                    0 <= j < page.pairs().len() && (#[trigger] page.pairs()[j]).0 == k,
            forall|j: int|
                0 <= j < i ==> left <= (#[trigger] page.pairs()[j]).0.0 <= right && bottom
                    <= page.pairs()[j].0.1 <= top,
            exists|j: int| 0 <= j < i && (#[trigger] page.pairs()[j]).0.0 == left,
            exists|j: int| 0 <= j < i && (#[trigger] page.pairs()[j]).0.0 == right,
            exists|j: int| 0 <= j < i && (#[trigger] page.pairs()[j]).0.1 == bottom,
            exists|j: int| 0 <= j < i && (#[trigger] page.pairs()[j]).0.1 == top,
    {
        let ((x, y), _cell) = page.pair_at(i);
        if x < left {
            left = x;
        }
        if x > right {
            right = x;
        }
        if y < bottom {
            bottom = y;
        }
        if y > top {
            top = y;
        }
    }
    proof {
        assert forall|c: Coord| #[trigger] page.as_map().contains_key(c) implies left as int
            <= c.0 <= right as int && bottom as int <= c.1 <= top as int by {
            let j = choose|j: int|
                0 <= j < page.pairs().len() && (#[trigger] page.pairs()[j]).0 == c;
        }
        let jl = choose|j: int| 0 <= j < n && (#[trigger] page.pairs()[j]).0.0 == left;
        assert(page.as_map().contains_key(page.pairs()[jl].0));
        let jr = choose|j: int| 0 <= j < n && (#[trigger] page.pairs()[j]).0.0 == right;
        assert(page.as_map().contains_key(page.pairs()[jr].0));
        let jb = choose|j: int| 0 <= j < n && (#[trigger] page.pairs()[j]).0.1 == bottom;
        assert(page.as_map().contains_key(page.pairs()[jb].0));
        let jt = choose|j: int| 0 <= j < n && (#[trigger] page.pairs()[j]).0.1 == top;
        assert(page.as_map().contains_key(page.pairs()[jt].0));
    }
    Option::Some((left, right, bottom, top, page))
}

/// The visible canvas as plain text, glyphs only: the composite's
/// bounding box row by row, absent cells shown as spaces, rows joined
/// with line breaks. Nothing when the canvas shows nothing.
pub fn get_canvas_text(app: &mut App) -> (r: Option<String>)
    requires
        old(app).wf(),
    ensures
        final(app).wf(),
        final(app).layers.lviews() == old(app).layers.lviews(),
        final(app).layers.active == old(app).layers.active,
        final(app).layers.id_list == old(app).layers.id_list,
        final(app).layers.last_pos == old(app).layers.last_pos,
        final(app).history == old(app).history,
        crate::app::core_unchanged(*old(app), *final(app)),
        match r {
            Option::Some(s) => exists|l: u16, rr: u16, b: u16, t: u16|
                is_bounds(
                    old(app).layers.composite(),
                    l as int,
                    rr as int,
                    b as int,
                    t as int,
                ) && s@ == text_of(
                    old(app).layers.composite(),
                    l,
                    b,
                    rr - l + 1,
                    t - b + 1,
                ),
            Option::None => old(app).layers.composite() == Map::<Coord, Cell>::empty(),
        },
{
    let region = match get_drawing_region(app) {
        Option::Some(region) => region,
        Option::None => {
            return Option::None;
        },
    };
    let (left, right, bottom, top, page) = region;
    let ghost m = page.as_map();
    let width: usize = (right - left) as usize + 1;
    let mut chars: Vec<char> = Vec::new();
    let mut y: u32 = bottom as u32;
    while y <= top as u32
        invariant
            m == page.as_map(),
            bottom <= y <= top + 1,
            bottom <= top,
            y > bottom ==> chars@ == text_of(m, left, bottom, width as int, y - bottom),
            y == bottom ==> chars@ == Seq::<char>::empty(),
            left <= right,
            width == right - left + 1,
        decreases top + 1 - y,
    {
        if y > bottom as u32 {
            chars.push('\n');
        }
        let yy = y as u16;
        let ghost row_start = chars@;
        let mut x: usize = 0;
        while x < width
            invariant
                m == page.as_map(),
                width == right - left + 1,
                left <= right,
                x <= width,
                yy == y as u16,
                bottom <= y <= top,
                chars@ == row_start + line_of(m, yy, left, x as int),
            decreases width - x,
        {
            let cx = left + (x as u16);
            match page.get((cx, yy)) {
                Option::Some(cell) => chars.push(cell.glyph),
                Option::None => chars.push(' '),
            }
            proof {
                assert(chars@ =~= row_start + line_of(m, yy, left, x as int + 1));
            }
            x = x + 1;
        }
        proof {
            if y == bottom {
                assert(chars@ =~= text_of(m, left, bottom, width as int, 1));
            } else {
                assert(chars@ =~= text_of(m, left, bottom, width as int, y - bottom + 1));
            }
        }
        y = y + 1;
    }
    proof {
        assert(chars@ == text_of(m, left, bottom, width as int, top - bottom + 1));
    }
    Option::Some(chars_to_string(&chars))
}

} // verus!
