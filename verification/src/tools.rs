use vstd::prelude::*;
use crate::app::{core_unchanged, App};
use crate::cell::{empty_cell, Cell};
use crate::grid::{Coord, CoordMap};
use crate::history::ActionView;
use crate::layer::{capture, LayerData, LayerView};
use crate::strutil::char_to_string;

verus! {

/// The closed set of drawing tools.
#[derive(Clone, Copy, Debug, PartialEq, Eq, Structural)]
pub enum Tool {
    Eraser,
    Square,
    Box,
    Disk,
    Circle,
    Point,
    Plus,
    Vertical,
    Horizontal,
}

impl Default for Tool {
    fn default() -> (t: Tool)
        ensures
            t == Tool::Point,
    {
        Tool::Point
    }
}

impl Tool {
    /// The tool's display name.
    pub fn name(&self) -> (s: String)
        ensures
            s@ == match self {
                Tool::Eraser => "Eraser"@,
                Tool::Square => "Square"@,
                Tool::Box => "Box"@,
                Tool::Disk => "Disk"@,
                Tool::Circle => "Circle"@,
                Tool::Point => "Point"@,
                Tool::Plus => "Plus"@,
                Tool::Vertical => "Vertical"@,
                Tool::Horizontal => "Horizontal"@,
            },
    {
        match self {
            Tool::Eraser => String::from_str("Eraser"),
            Tool::Square => String::from_str("Square"),
            Tool::Box => String::from_str("Box"),
            Tool::Disk => String::from_str("Disk"),
            Tool::Circle => String::from_str("Circle"),
            Tool::Point => String::from_str("Point"),
            Tool::Plus => String::from_str("Plus"),
            Tool::Vertical => String::from_str("Vertical"),
            Tool::Horizontal => String::from_str("Horizontal"),
        }
    }

    /// Every tool, in display order.
    pub fn all() -> (v: Vec<Tool>)
        ensures
            v@ == seq![
                Tool::Eraser,
                Tool::Square,
                Tool::Box,
                Tool::Disk,
                Tool::Circle,
                Tool::Point,
                Tool::Plus,
                Tool::Vertical,
                Tool::Horizontal,
            ],
    {
        let mut v: Vec<Tool> = Vec::new();
        v.push(Tool::Eraser);
        v.push(Tool::Square);
        v.push(Tool::Box);
        v.push(Tool::Disk);
        v.push(Tool::Circle);
        v.push(Tool::Point);
        v.push(Tool::Plus);
        v.push(Tool::Vertical);
        v.push(Tool::Horizontal);
        proof {
            assert(v@ =~= seq![
                Tool::Eraser,
                Tool::Square,
                Tool::Box,
                Tool::Disk,
                Tool::Circle,
                Tool::Point,
                Tool::Plus,
                Tool::Vertical,
                Tool::Horizontal,
            ]);
        }
        v
    }

    /// The one-character icon shown in the tool picker.
    pub fn char(&self) -> (s: String)
        ensures
            s@.len() == 1,
    {
        char_to_string(
            match self {
                Tool::Eraser => '\u{d7}',
                Tool::Square => '\u{25a0}',
                Tool::Box => '\u{25a1}',
                Tool::Disk => '\u{25cf}',
                Tool::Circle => '\u{25cb}',
                Tool::Point => '\u{2219}',
                Tool::Plus => '\u{1f7a3}',
                Tool::Vertical => '|',
                Tool::Horizontal => '\u{2500}',
            },
        )
    }
}

/// The rectangle a sized brush covers around a center: left and bottom
/// edges inclusive, right and top exclusive.
pub open spec fn rect_of(x: u16, y: u16, size: u16) -> (int, int, int, int) {
    let off = (size as int - 1) / 2;
    (x - off, x - off + size, y - off, y - off + size)
}

/// The footprint of the square brush: a size-by-size block, coordinates
/// off the grid dropped.
pub open spec fn square_fp(x: u16, y: u16, size: u16) -> Set<Coord> {
    let r = rect_of(x, y, size);
    Set::new(|c: Coord| r.0 <= c.0 < r.1 && r.2 <= c.1 < r.3)
}

/// The footprint of the box outline: the border cells of the square.
pub open spec fn box_fp(x: u16, y: u16, size: u16) -> Set<Coord> {
    let r = rect_of(x, y, size);
    Set::new(
        |c: Coord|
            r.0 <= c.0 < r.1 && r.2 <= c.1 < r.3 && (c.0 == r.0 || c.0 == r.1 - 1 || c.1 == r.2
                || c.1 == r.3 - 1),
    )
}

/// The footprint of the filled disk: every offset within radius `size`.
pub open spec fn disk_fp(x: u16, y: u16, size: u16) -> Set<Coord> {
    Set::new(
        |c: Coord|
            (c.0 - x) * (c.0 - x) + (c.1 - y) * (c.1 - y) <= size * size,
    )
}

/// One ring step's offsets under eightfold symmetry; the diagonal pair
/// collapses to four.
pub open spec fn ring_octet(xx: int, yy: int) -> Set<(int, int)> {
    let base = set![(xx, yy), (-xx, yy), (xx, -yy), (-xx, -yy)];
    if xx != yy {
        base + set![(yy, xx), (-yy, xx), (yy, -xx), (-yy, -xx)]
    } else {
        base
    }
}

/// The offsets the midpoint circle walk still emits from state
/// `(xx, yy, p)`.
pub open spec fn ring_rest(xx: int, yy: int, p: int) -> Set<(int, int)>
    decreases xx - yy,
{
    if xx <= yy {
        Set::empty()
    } else {
        let yy2 = yy + 1;
        let xx2 = if p <= 0 {
            xx
        } else {
            xx - 1
        };
        let p2 = if p <= 0 {
            p + 2 * yy2 + 1
        } else {
            p + 2 * yy2 - 2 * (xx - 1) + 1
        };
        if xx2 < yy2 {
            Set::empty()
        } else {
            ring_octet(xx2, yy2) + ring_rest(xx2, yy2, p2)
        }
    }
}

/// The four axis points the ring starts from.
pub open spec fn ring_init(size: u16) -> Set<(int, int)> {
    set![(size as int, 0), (-(size as int), 0), (0, size as int), (0, -(size as int))]
}

/// The grid coordinates at the given offsets from a center; offsets that
/// leave the grid drop out.
pub open spec fn at_offsets(x: u16, y: u16, offs: Set<(int, int)>) -> Set<Coord> {
    Set::new(|c: Coord| offs.contains((c.0 - x, c.1 - y)))
}

/// The footprint of the ring: the midpoint circle walk of radius `size`.
pub open spec fn circle_fp(x: u16, y: u16, size: u16) -> Set<Coord> {
    at_offsets(x, y, ring_init(size) + ring_rest(size as int, 0, 1 - size as int))
}

/// The single center coordinate.
pub open spec fn point_fp(x: u16, y: u16) -> Set<Coord> {
    Set::new(|c: Coord| c.0 == x && c.1 == y)
}

/// The footprint of the four-armed cross: arms of length `size` in each
/// direction, or just the center at size one.
pub open spec fn plus_fp(x: u16, y: u16, size: u16) -> Set<Coord> {
    if size == 1 {
        point_fp(x, y)
    } else {
        Set::new(
            |c: Coord|
                (c.1 == y && x - size <= c.0 <= x + size) || (c.0 == x && y - size <= c.1 <= y
                    + size),
        )
    }
}

/// The footprint of the horizontal bar.
pub open spec fn horiz_fp(x: u16, y: u16, size: u16) -> Set<Coord> {
    if size == 1 {
        point_fp(x, y)
    } else {
        Set::new(|c: Coord| c.1 == y && x - size <= c.0 <= x + size)
    }
}

/// The footprint of the vertical bar.
pub open spec fn vert_fp(x: u16, y: u16, size: u16) -> Set<Coord> {
    if size == 1 {
        point_fp(x, y)
    } else {
        Set::new(|c: Coord| c.0 == x && y - size <= c.1 <= y + size)
    }
}

/// The coordinates a tool touches for one paint request.
pub open spec fn tool_fp(t: Tool, x: u16, y: u16, size: u16) -> Set<Coord> {
    match t {
        Tool::Eraser => square_fp(x, y, size),
        Tool::Square => square_fp(x, y, size),
        Tool::Box => box_fp(x, y, size),
        Tool::Disk => disk_fp(x, y, size),
        Tool::Circle => circle_fp(x, y, size),
        Tool::Point => point_fp(x, y),
        Tool::Plus => plus_fp(x, y, size),
        Tool::Vertical => vert_fp(x, y, size),
        Tool::Horizontal => horiz_fp(x, y, size),
    }
}

/// The union of a tool's footprints over a sequence of path points.
pub open spec fn path_fp(t: Tool, size: u16, pts: Seq<(u16, u16)>) -> Set<Coord>
    decreases pts.len(),
{
    if pts.len() == 0 {
        Set::empty()
    } else {
        path_fp(t, size, pts.drop_last()).union(
            tool_fp(t, pts.last().0, pts.last().1, size),
        )
    }
}

/// A cell map after painting `cell` over a whole footprint.
pub open spec fn painted_cells(m: Map<Coord, Cell>, fp: Set<Coord>, cell: Cell) -> Map<
    Coord,
    Cell,
> {
    Map::new(
        |c: Coord| m.contains_key(c) || fp.contains(c),
        |c: Coord|
            if fp.contains(c) {
                cell
            } else {
                m[c]
            },
    )
}

/// A cell map after erasing a whole footprint.
pub open spec fn erased_cells(m: Map<Coord, Cell>, fp: Set<Coord>) -> Map<Coord, Cell> {
    m.remove_keys(fp)
}

/// The cell the brush of `a` paints.
pub open spec fn brush_cell(a: App) -> Cell {
    Cell { fg: a.brush.fg, bg: a.brush.bg, glyph: a.brush.glyph }
}

/// What painting (or erasing) the footprint `fp` on the active layer
/// does to the whole editor: the layer's cells change accordingly, the
/// memoized composite is dropped, the redo stack empties, and everything
/// else stays put.
pub open spec fn paint_effect(pre: App, post: App, fp: Set<Coord>, erase: bool) -> bool {
    &&& post.layers.lviews() == pre.layers.lviews().update(
        pre.layers.active as int,
        LayerView {
            cells: if erase {
                erased_cells(pre.active_cells(), fp)
            } else {
                painted_cells(pre.active_cells(), fp, brush_cell(pre))
            },
            ..pre.layers.lviews()[pre.layers.active as int]
        },
    )
    &&& post.layers.active == pre.layers.active
    &&& post.layers.id_list == pre.layers.id_list
    &&& post.layers.last_pos == pre.layers.last_pos
    &&& post.layers.rendered is None
    &&& post.history.past_v() == pre.history.past_v()
    &&& post.history.future_v() == Seq::<ActionView>::empty()
    &&& post.history.partial_v() == pre.history.partial_v()
    &&& core_unchanged(pre, post)
}

/// The one coordinate at `(cx, cy)`, or nothing when that point is off
/// the grid.
pub open spec fn coord_at(cx: int, cy: int) -> Set<Coord> {
    Set::new(|c: Coord| c.0 == cx && c.1 == cy)
}

/// The running state of a footprint walk: the editor shows exactly the
/// stamped coordinates painted, and the patch captures their pre-images.
pub open spec fn stamp_inv(
    pre: App,
    cur: App,
    patch: CoordMap<Cell>,
    done: Set<Coord>,
    erase: bool,
) -> bool {
    &&& paint_effect(pre, cur, done, erase)
    &&& patch.as_map() == capture(pre.active_cells(), done)
}

/// Clears the redo stack and the memoized composite, as the first step
/// of any paint request.
fn begin_paint(app: &mut App)
    requires
        old(app).wf(),
    ensures
        final(app).wf(),
        paint_effect(*old(app), *final(app), Set::empty(), true),
        paint_effect(*old(app), *final(app), Set::empty(), false),
{
    app.history.forget_redo();
    app.layers.queue_render();
    proof {
        let pre = *old(app);
        let a = pre.layers.active as int;
        assert(erased_cells(pre.active_cells(), Set::empty()) =~= pre.active_cells());
        assert(painted_cells(pre.active_cells(), Set::empty(), brush_cell(pre))
            =~= pre.active_cells());
        assert(final(app).layers.lviews() =~= pre.layers.lviews().update(
            a,
            LayerView {
                cells: erased_cells(pre.active_cells(), Set::empty()),
                ..pre.layers.lviews()[a]
            },
        ));
        assert(final(app).layers.lviews() =~= pre.layers.lviews().update(
            a,
            LayerView {
                cells: painted_cells(pre.active_cells(), Set::empty(), brush_cell(pre)),
                ..pre.layers.lviews()[a]
            },
        ));
    }
}

/// Paints or erases a single candidate point, skipping it when it lies
/// off the grid, and records its pre-image into the patch unless the
/// walk already did.
fn stamp(
    app: &mut App,
    cx: i64,
    cy: i64,
    erase: bool,
    patch: &mut LayerData,
    Ghost(pre): Ghost<App>,
    Ghost(done): Ghost<Set<Coord>>,
) -> (r: Ghost<Set<Coord>>)
    requires
        pre.wf(),
        old(app).wf(),
        stamp_inv(pre, *old(app), *old(patch), done, erase),
    ensures
        final(app).wf(),
        stamp_inv(pre, *final(app), *final(patch), r@, erase),
        r@ == done.union(coord_at(cx as int, cy as int)),
{
    if !(0 <= cx && cx <= u16::MAX as i64 && 0 <= cy && cy <= u16::MAX as i64) {
        proof {
            assert(done.union(coord_at(cx as int, cy as int)) =~= done);
        }
        return Ghost(done.union(coord_at(cx as int, cy as int)));
    }
    let x = cx as u16;
    let y = cy as u16;
    let ghost done2 = done.union(coord_at(cx as int, cy as int));
    let old_cell = if erase {
        app.erase(x, y)
    } else {
        app.put_cell(x, y)
    };
    proof {
        let m = pre.active_cells();
        if erase {
            assert(erased_cells(m, done).remove((x, y)) =~= erased_cells(m, done2));
        } else {
            assert(painted_cells(m, done, brush_cell(pre)).insert((x, y), brush_cell(pre))
                =~= painted_cells(m, done2, brush_cell(pre)));
        }
        assert(final(app).layers.lviews() =~= pre.layers.lviews().update(
            pre.layers.active as int,
            LayerView {
                cells: if erase {
                    erased_cells(m, done2)
                } else {
                    painted_cells(m, done2, brush_cell(pre))
                },
                ..pre.layers.lviews()[pre.layers.active as int]
            },
        ));
    }
    if !patch.contains_key((x, y)) {
        proof {
            let m = pre.active_cells();
            assert(!done.contains((x, y)));
            if erase {
                assert(old_cell == if m.contains_key((x, y)) {
                    m[(x, y)]
                } else {
                    empty_cell()
                });
            }
            assert(capture(m, done).insert(
                (x, y),
                if m.contains_key((x, y)) {
                    m[(x, y)]
                } else {
                    empty_cell()
                },
            ) =~= capture(m, done2));
        }
        patch.insert((x, y), old_cell);
    } else {
        proof {
            assert(capture(pre.active_cells(), done) =~= capture(pre.active_cells(), done2));
        }
    }
    Ghost(done2)
}

/// A block of cells painted with the square brush; the patch of replaced
/// cells comes back, each coordinate recorded once.
pub fn square_tool(x: u16, y: u16, size: u16, app: &mut App) -> (old_cells: LayerData)
    requires
        old(app).wf(),
        size >= 1,
    ensures
        final(app).wf(),
        paint_effect(*old(app), *final(app), square_fp(x, y, size), false),
        old_cells.as_map() == capture(old(app).active_cells(), square_fp(x, y, size)),
{
    rect_walk(x, y, size, false, app)
}

/// The square footprint cleared back to nothing: the eraser.
pub fn eraser_tool(x: u16, y: u16, size: u16, app: &mut App) -> (old_cells: LayerData)
    requires
        old(app).wf(),
        size >= 1,
    ensures
        final(app).wf(),
        paint_effect(*old(app), *final(app), square_fp(x, y, size), true),
        old_cells.as_map() == capture(old(app).active_cells(), square_fp(x, y, size)),
{
    rect_walk(x, y, size, true, app)
}

/// The coordinates of the square already walked: whole columns below
/// `cx`, and the part of column `cx` below `cy`.
pub open spec fn rect_prefix(x: u16, y: u16, size: u16, cx: int, cy: int) -> Set<Coord> {
    let r = rect_of(x, y, size);
    Set::new(
        |c: Coord|
            r.0 <= c.0 < r.1 && r.2 <= c.1 < r.3 && (c.0 < cx || (c.0 == cx && c.1 < cy)),
    )
}

fn rect_walk(x: u16, y: u16, size: u16, erase: bool, app: &mut App) -> (old_cells: LayerData)
    requires
        old(app).wf(),
        size >= 1,
    ensures
        final(app).wf(),
        paint_effect(*old(app), *final(app), square_fp(x, y, size), erase),
        old_cells.as_map() == capture(old(app).active_cells(), square_fp(x, y, size)),
{
    begin_paint(app);
    let ghost pre = *old(app);
    let mut patch: LayerData = CoordMap::new();
    let ghost mut done: Set<Coord> = Set::empty();
    proof {
        assert(patch.as_map() =~= capture(pre.active_cells(), done));
    }
    let off = ((size - 1) / 2) as i64;
    let left = x as i64 - off;
    let right = left + size as i64;
    let bottom = y as i64 - off;
    let top = bottom + size as i64;
    let mut cx = left;
    while cx < right
        invariant
            pre == *old(app),
            pre.wf(),
            app.wf(),
            left == x - ((size as int - 1) / 2),
            right == left + size,
            bottom == y - ((size as int - 1) / 2),
            top == bottom + size,
            left <= cx <= right,
            stamp_inv(pre, *app, patch, done, erase),
            done == rect_prefix(x, y, size, cx as int, bottom as int),
        decreases right - cx,
    {
        let mut cy = bottom;
        while cy < top
            invariant
                pre == *old(app),
                pre.wf(),
                app.wf(),
                left == x - ((size as int - 1) / 2),
                right == left + size,
                bottom == y - ((size as int - 1) / 2),
                top == bottom + size,
                left <= cx < right,
                bottom <= cy <= top,
                stamp_inv(pre, *app, patch, done, erase),
                done == rect_prefix(x, y, size, cx as int, cy as int),
            decreases top - cy,
        {
            let g = stamp(app, cx, cy, erase, &mut patch, Ghost(pre), Ghost(done));
            proof {
                done = g@;
                assert(done =~= rect_prefix(x, y, size, cx as int, cy as int + 1));
            }
            cy = cy + 1;
        }
        proof {
            assert(done =~= rect_prefix(x, y, size, cx as int + 1, bottom as int));
        }
        cx = cx + 1;
    }
    proof {
        assert(done =~= square_fp(x, y, size));
    }
    patch
}

/// The single cell under the pointer, painted with the brush.
pub fn point_tool(x: u16, y: u16, app: &mut App) -> (old_cells: LayerData)
    requires
        old(app).wf(),
    ensures
        final(app).wf(),
        paint_effect(*old(app), *final(app), point_fp(x, y), false),
        old_cells.as_map() == capture(old(app).active_cells(), point_fp(x, y)),
{
    begin_paint(app);
    let ghost pre = *old(app);
    let mut patch: LayerData = CoordMap::new();
    proof {
        assert(patch.as_map() =~= capture(pre.active_cells(), Set::<Coord>::empty()));
    }
    let g = stamp(app, x as i64, y as i64, false, &mut patch, Ghost(pre), Ghost(Set::empty()));
    proof {
        assert(g@ =~= point_fp(x, y));
    }
    patch
}


/// The part of the box outline already walked: whole rows below `cy`,
/// and the cells of row `cy` left of `cxb`.
pub open spec fn box_prefix(x: u16, y: u16, size: u16, cy: int, cxb: int) -> Set<Coord> {
    let r = rect_of(x, y, size);
    Set::new(
        |c: Coord|
            r.0 <= c.0 < r.1 && r.2 <= c.1 < r.3 && (c.0 == r.0 || c.0 == r.1 - 1 || c.1 == r.2
                || c.1 == r.3 - 1) && (c.1 < cy || (c.1 == cy && c.0 < cxb)),
    )
}

/// The box outline painted with the brush.
pub fn box_tool(x: u16, y: u16, size: u16, app: &mut App) -> (old_cells: LayerData)
    requires
        old(app).wf(),
        size >= 1,
    ensures
        final(app).wf(),
        paint_effect(*old(app), *final(app), box_fp(x, y, size), false),
        old_cells.as_map() == capture(old(app).active_cells(), box_fp(x, y, size)),
{
    begin_paint(app);
    let ghost pre = *old(app);
    let mut patch: LayerData = CoordMap::new();
    let ghost mut done: Set<Coord> = Set::empty();
    proof {
        assert(patch.as_map() =~= capture(pre.active_cells(), done));
    }
    let off = ((size - 1) / 2) as i64;
    let left = x as i64 - off;
    let right = left + size as i64;
    let bottom = y as i64 - off;
    let top = bottom + size as i64;
    let mut cy = bottom;
    while cy < top
        invariant
            pre == *old(app),
            pre.wf(),
            app.wf(),
            left == x - ((size as int - 1) / 2),
            right == left + size,
            bottom == y - ((size as int - 1) / 2),
            top == bottom + size,
            size >= 1,
            bottom <= cy <= top,
            stamp_inv(pre, *app, patch, done, false),
            done == box_prefix(x, y, size, cy as int, left as int),
        decreases top - cy,
    {
        if cy == bottom || cy == top - 1 {
            let mut cx = left;
            while cx < right
                invariant
                    pre == *old(app),
                    pre.wf(),
                    app.wf(),
                    left == x - ((size as int - 1) / 2),
                    right == left + size,
                    bottom == y - ((size as int - 1) / 2),
                    top == bottom + size,
                    size >= 1,
                    bottom <= cy < top,
                    cy == bottom || cy == top - 1,
                    left <= cx <= right,
                    stamp_inv(pre, *app, patch, done, false),
                    done == box_prefix(x, y, size, cy as int, cx as int),
                decreases right - cx,
            {
                let g = stamp(app, cx, cy, false, &mut patch, Ghost(pre), Ghost(done));
                proof {
                    done = g@;
                    assert(done =~= box_prefix(x, y, size, cy as int, cx as int + 1));
                }
                cx = cx + 1;
            }
            proof {
                assert(done =~= box_prefix(x, y, size, cy as int + 1, left as int));
            }
        } else {
            let g = stamp(app, left, cy, false, &mut patch, Ghost(pre), Ghost(done));
            proof {
                done = g@;
                assert(done =~= box_prefix(x, y, size, cy as int, left as int + 1));
                assert(done =~= box_prefix(x, y, size, cy as int, right as int - 1));
            }
            let g2 = stamp(app, right - 1, cy, false, &mut patch, Ghost(pre), Ghost(done));
            proof {
                done = g2@;
                assert(done =~= box_prefix(x, y, size, cy as int + 1, left as int));
            }
        }
        cy = cy + 1;
    }
    proof {
        assert(done =~= box_fp(x, y, size));
    }
    patch
}

/// The part of the disk already walked: offset rows below `dy`, and the
/// cells of offset row `dy` left of offset `dx`.
pub open spec fn disk_prefix(x: u16, y: u16, size: u16, dy: int, dx: int) -> Set<Coord> {
    Set::new(
        |c: Coord|
            (c.0 - x) * (c.0 - x) + (c.1 - y) * (c.1 - y) <= size * size && (c.1 - y < dy || (c.1
                - y == dy && c.0 - x < dx)),
    )
}

/// The filled disk painted with the brush: every cell within the radius.
pub fn disk_tool(x: u16, y: u16, size: u16, app: &mut App) -> (old_cells: LayerData)
    requires
        old(app).wf(),
        size >= 1,
    ensures
        final(app).wf(),
        paint_effect(*old(app), *final(app), disk_fp(x, y, size), false),
        old_cells.as_map() == capture(old(app).active_cells(), disk_fp(x, y, size)),
{
    begin_paint(app);
    let ghost pre = *old(app);
    let mut patch: LayerData = CoordMap::new();
    let ghost mut done: Set<Coord> = Set::empty();
    proof {
        assert(patch.as_map() =~= capture(pre.active_cells(), done));
    }
    let r = size as i64;
    proof {
        lemma_disk_bounds(x, y, size);
        assert forall|c: Coord| !(#[trigger] disk_prefix(x, y, size, -(r as int), -(
        r as int)).contains(c)) by {
            if disk_prefix(x, y, size, -(r as int), -(r as int)).contains(c) {
                assert(disk_fp(x, y, size).contains(c));
            }
        }
        assert(done =~= disk_prefix(x, y, size, -(r as int), -(r as int)));
    }
    let mut dy = -r;
    while dy <= r
        invariant
            pre == *old(app),
            pre.wf(),
            app.wf(),
            r == size,
            size >= 1,
            -r <= dy <= r + 1,
            stamp_inv(pre, *app, patch, done, false),
            done == disk_prefix(x, y, size, dy as int, -r as int),
        decreases r + 1 - dy,
    {
        let mut dx = -r;
        while dx <= r
            invariant
                pre == *old(app),
                pre.wf(),
                app.wf(),
                r == size,
                size >= 1,
                -r <= dy <= r,
                -r <= dx <= r + 1,
                stamp_inv(pre, *app, patch, done, false),
                done == disk_prefix(x, y, size, dy as int, dx as int),
            decreases r + 1 - dx,
        {
            proof {
                assert(0 <= dx * dx <= 65535 * 65535 && 0 <= dy * dy <= 65535 * 65535 && 0 <= r
                    * r <= 65535 * 65535) by (nonlinear_arith)
                    requires
                        -65535 <= dx <= 65535,
                        -65535 <= dy <= 65535,
                        0 <= r <= 65535,
                ;
            }
            if dx * dx + dy * dy <= r * r {
                let g = stamp(app, x as i64 + dx, y as i64 + dy, false, &mut patch, Ghost(pre),
                    Ghost(done));
                proof {
                    done = g@;
                    assert(done =~= disk_prefix(x, y, size, dy as int, dx as int + 1));
                }
            } else {
                proof {
                    assert(done =~= disk_prefix(x, y, size, dy as int, dx as int + 1));
                }
            }
            dx = dx + 1;
        }
        proof {
            lemma_disk_bounds(x, y, size);
            assert forall|c: Coord|
                #[trigger] disk_prefix(x, y, size, dy as int, r as int + 1).contains(c)
                    == disk_prefix(x, y, size, dy as int + 1, -(r as int)).contains(c) by {
                if disk_prefix(x, y, size, dy as int, r as int + 1).contains(c) {
                    assert(disk_fp(x, y, size).contains(c));
                }
                if disk_prefix(x, y, size, dy as int + 1, -(r as int)).contains(c) {
                    assert(disk_fp(x, y, size).contains(c));
                }
            }
            assert(done =~= disk_prefix(x, y, size, dy as int + 1, -r as int));
        }
        dy = dy + 1;
    }
    proof {
        lemma_disk_bounds(x, y, size);
        assert forall|c: Coord| #[trigger] disk_fp(x, y, size).contains(c) == disk_prefix(
            x,
            y,
            size,
            r as int + 1,
            -(r as int),
        ).contains(c) by {
            if disk_prefix(x, y, size, r as int + 1, -(r as int)).contains(c) {
                assert(disk_fp(x, y, size).contains(c));
            }
        }
        assert(done =~= disk_fp(x, y, size));
    }
    patch
}

/// Every cell of the disk lies within `size` of the center on each axis.
proof fn lemma_disk_bounds(x: u16, y: u16, size: u16)
    ensures
        forall|c: Coord| #[trigger]
            disk_fp(x, y, size).contains(c) ==> -(size as int) <= c.0 - x <= size as int && -(
            size as int) <= c.1 - y <= size as int,
{
    assert forall|c: Coord| #[trigger] disk_fp(x, y, size).contains(c) implies -(size as int)
        <= c.0 - x <= size as int && -(size as int) <= c.1 - y <= size as int by {
        let a = c.0 - x;
        let b = c.1 - y;
        assert(-(size as int) <= a <= size as int && -(size as int) <= b <= size as int)
            by (nonlinear_arith)
            requires
                a * a + b * b <= size * size,
        ;
    }
}

/// The horizontal bar already walked: the center, the left arm out to
/// `il`, and the right arm out to `ir`.
pub open spec fn bar_h_prefix(x: u16, y: u16, il: int, ir: int) -> Set<Coord> {
    Set::new(|c: Coord| c.1 == y && x - il <= c.0 <= x + ir)
}

/// The horizontal bar painted with the brush.
pub fn horiz(x: u16, y: u16, size: u16, app: &mut App) -> (old_cells: LayerData)
    requires
        old(app).wf(),
        size >= 1,
    ensures
        final(app).wf(),
        paint_effect(*old(app), *final(app), horiz_fp(x, y, size), false),
        old_cells.as_map() == capture(old(app).active_cells(), horiz_fp(x, y, size)),
{
    begin_paint(app);
    let ghost pre = *old(app);
    let mut patch: LayerData = CoordMap::new();
    let ghost mut done: Set<Coord> = Set::empty();
    proof {
        assert(patch.as_map() =~= capture(pre.active_cells(), done));
    }
    let g = stamp(app, x as i64, y as i64, false, &mut patch, Ghost(pre), Ghost(done));
    proof {
        done = g@;
        assert(done =~= bar_h_prefix(x, y, 0, 0));
    }
    if size == 1 {
        proof {
            assert(done =~= horiz_fp(x, y, size));
        }
        return patch;
    }
    let mut i: i64 = 1;
    while i <= size as i64
        invariant
            pre == *old(app),
            pre.wf(),
            app.wf(),
            2 <= size,
            1 <= i <= size + 1,
            stamp_inv(pre, *app, patch, done, false),
            done == bar_h_prefix(x, y, i - 1, 0),
        decreases size as int + 1 - i,
    {
        let g1 = stamp(app, x as i64 - i, y as i64, false, &mut patch, Ghost(pre), Ghost(done));
        proof {
            done = g1@;
            assert(done =~= bar_h_prefix(x, y, i as int, 0));
        }
        i = i + 1;
    }
    let mut j: i64 = 1;
    while j <= size as i64
        invariant
            pre == *old(app),
            pre.wf(),
            app.wf(),
            2 <= size,
            1 <= j <= size + 1,
            stamp_inv(pre, *app, patch, done, false),
            done == bar_h_prefix(x, y, size as int, j - 1),
        decreases size as int + 1 - j,
    {
        let g1 = stamp(app, x as i64 + j, y as i64, false, &mut patch, Ghost(pre), Ghost(done));
        proof {
            done = g1@;
            assert(done =~= bar_h_prefix(x, y, size as int, j as int));
        }
        j = j + 1;
    }
    proof {
        assert(done =~= horiz_fp(x, y, size));
    }
    patch
}

/// The vertical bar already walked.
pub open spec fn bar_v_prefix(x: u16, y: u16, id: int, iu: int) -> Set<Coord> {
    Set::new(|c: Coord| c.0 == x && y - id <= c.1 <= y + iu)
}

/// The vertical bar painted with the brush.
pub fn vert(x: u16, y: u16, size: u16, app: &mut App) -> (old_cells: LayerData)
    requires
        old(app).wf(),
        size >= 1,
    ensures
        final(app).wf(),
        paint_effect(*old(app), *final(app), vert_fp(x, y, size), false),
        old_cells.as_map() == capture(old(app).active_cells(), vert_fp(x, y, size)),
{
    begin_paint(app);
    let ghost pre = *old(app);
    let mut patch: LayerData = CoordMap::new();
    let ghost mut done: Set<Coord> = Set::empty();
    proof {
        assert(patch.as_map() =~= capture(pre.active_cells(), done));
    }
    let g = stamp(app, x as i64, y as i64, false, &mut patch, Ghost(pre), Ghost(done));
    proof {
        done = g@;
        assert(done =~= bar_v_prefix(x, y, 0, 0));
    }
    if size == 1 {
        proof {
            assert(done =~= vert_fp(x, y, size));
        }
        return patch;
    }
    let mut i: i64 = 1;
    while i <= size as i64
        invariant
            pre == *old(app),
            pre.wf(),
            app.wf(),
            2 <= size,
            1 <= i <= size + 1,
            stamp_inv(pre, *app, patch, done, false),
            done == bar_v_prefix(x, y, i - 1, 0),
        decreases size as int + 1 - i,
    {
        let g1 = stamp(app, x as i64, y as i64 - i, false, &mut patch, Ghost(pre), Ghost(done));
        proof {
            done = g1@;
            assert(done =~= bar_v_prefix(x, y, i as int, 0));
        }
        i = i + 1;
    }
    let mut j: i64 = 1;
    while j <= size as i64
        invariant
            pre == *old(app),
            pre.wf(),
            app.wf(),
            2 <= size,
            1 <= j <= size + 1,
            stamp_inv(pre, *app, patch, done, false),
            done == bar_v_prefix(x, y, size as int, j - 1),
        decreases size as int + 1 - j,
    {
        let g1 = stamp(app, x as i64, y as i64 + j, false, &mut patch, Ghost(pre), Ghost(done));
        proof {
            done = g1@;
            assert(done =~= bar_v_prefix(x, y, size as int, j as int));
        }
        j = j + 1;
    }
    proof {
        assert(done =~= vert_fp(x, y, size));
    }
    patch
}

/// The cross already walked: both arms out to the given extents on each
/// side, the center included.
pub open spec fn plus_prefix(x: u16, y: u16, il: int, ir: int, id: int, iu: int) -> Set<
    Coord,
> {
    Set::new(
        |c: Coord|
            (c.1 == y && x - il <= c.0 <= x + ir) || (c.0 == x && y - id <= c.1 <= y + iu),
    )
}

/// The four-armed cross painted with the brush.
pub fn plus(x: u16, y: u16, size: u16, app: &mut App) -> (old_cells: LayerData)
    requires
        old(app).wf(),
        size >= 1,
    ensures
        final(app).wf(),
        paint_effect(*old(app), *final(app), plus_fp(x, y, size), false),
        old_cells.as_map() == capture(old(app).active_cells(), plus_fp(x, y, size)),
{
    begin_paint(app);
    let ghost pre = *old(app);
    let mut patch: LayerData = CoordMap::new();
    let ghost mut done: Set<Coord> = Set::empty();
    proof {
        assert(patch.as_map() =~= capture(pre.active_cells(), done));
    }
    let g = stamp(app, x as i64, y as i64, false, &mut patch, Ghost(pre), Ghost(done));
    proof {
        done = g@;
        assert(done =~= plus_prefix(x, y, 0, 0, 0, 0));
    }
    if size == 1 {
        proof {
            assert(done =~= plus_fp(x, y, size));
        }
        return patch;
    }
    let mut i: i64 = 1;
    while i <= size as i64
        invariant
            pre == *old(app),
            pre.wf(),
            app.wf(),
            2 <= size,
            1 <= i <= size + 1,
            stamp_inv(pre, *app, patch, done, false),
            done == plus_prefix(x, y, i - 1, 0, i - 1, 0),
        decreases size as int + 1 - i,
    {
        let g1 = stamp(app, x as i64 - i, y as i64, false, &mut patch, Ghost(pre), Ghost(done));
        proof {
            done = g1@;
            assert(done =~= plus_prefix(x, y, i as int, 0, i - 1, 0));
        }
        let g2 = stamp(app, x as i64, y as i64 - i, false, &mut patch, Ghost(pre), Ghost(done));
        proof {
            done = g2@;
            assert(done =~= plus_prefix(x, y, i as int, 0, i as int, 0));
        }
        i = i + 1;
    }
    let mut j: i64 = 1;
    while j <= size as i64
        invariant
            pre == *old(app),
            pre.wf(),
            app.wf(),
            2 <= size,
            1 <= j <= size + 1,
            stamp_inv(pre, *app, patch, done, false),
            done == plus_prefix(x, y, size as int, j - 1, size as int, j - 1),
        decreases size as int + 1 - j,
    {
        let g1 = stamp(app, x as i64 + j, y as i64, false, &mut patch, Ghost(pre), Ghost(done));
        proof {
            done = g1@;
            assert(done =~= plus_prefix(x, y, size as int, j as int, size as int, j - 1));
        }
        let g2 = stamp(app, x as i64, y as i64 + j, false, &mut patch, Ghost(pre), Ghost(done));
        proof {
            done = g2@;
            assert(done =~= plus_prefix(x, y, size as int, j as int, size as int, j as int));
        }
        j = j + 1;
    }
    proof {
        assert(done =~= plus_fp(x, y, size));
    }
    patch
}

/// The ring painted with the brush: the midpoint circle walk of radius
/// `size`, stamping eight symmetric points per step.
pub fn circle_tool(x: u16, y: u16, size: u16, app: &mut App) -> (old_cells: LayerData)
    requires
        old(app).wf(),
        size >= 1,
    ensures
        final(app).wf(),
        paint_effect(*old(app), *final(app), circle_fp(x, y, size), false),
        old_cells.as_map() == capture(old(app).active_cells(), circle_fp(x, y, size)),
{
    begin_paint(app);
    let ghost pre = *old(app);
    let mut patch: LayerData = CoordMap::new();
    let ghost mut done: Set<Coord> = Set::empty();
    proof {
        assert(patch.as_map() =~= capture(pre.active_cells(), done));
    }
    let r = size as i64;
    let xb = x as i64;
    let yb = y as i64;
    let g1 = stamp(app, xb + r, yb, false, &mut patch, Ghost(pre), Ghost(done));
    proof {
        done = g1@;
    }
    let g2 = stamp(app, xb - r, yb, false, &mut patch, Ghost(pre), Ghost(done));
    proof {
        done = g2@;
    }
    let g3 = stamp(app, xb, yb + r, false, &mut patch, Ghost(pre), Ghost(done));
    proof {
        done = g3@;
    }
    let g4 = stamp(app, xb, yb - r, false, &mut patch, Ghost(pre), Ghost(done));
    proof {
        done = g4@;
        assert(done =~= at_offsets(x, y, ring_init(size)));
        assert(at_offsets(x, y, ring_init(size) + ring_rest(r as int, 0, 1 - r as int))
            =~= at_offsets(x, y, ring_init(size)).union(
            at_offsets(x, y, ring_rest(r as int, 0, 1 - r as int)),
        ));
    }
    let mut xx = r;
    let mut yy: i64 = 0;
    let mut p = 1 - r;
    while xx > yy
        invariant
            pre == *old(app),
            pre.wf(),
            app.wf(),
            r == size,
            xb == x as i64,
            yb == y as i64,
            1 <= r <= 65535,
            0 <= yy,
            yy <= xx + 1,
            xx <= r,
            -((yy + 2) * 140000) <= p <= (yy + 2) * 140000,
            stamp_inv(pre, *app, patch, done, false),
            done.union(at_offsets(x, y, ring_rest(xx as int, yy as int, p as int))) == circle_fp(
                x,
                y,
                size,
            ),
        decreases xx + 1 - yy,
    {
        let ghost xx0 = xx as int;
        let ghost yy0 = yy as int;
        let ghost p0 = p as int;
        yy = yy + 1;
        if p <= 0 {
            p = p + 2 * yy + 1;
        } else {
            xx = xx - 1;
            p = p + 2 * yy - 2 * xx + 1;
        }
        if xx >= yy {
            proof {
                assert(ring_rest(xx0, yy0, p0) == ring_octet(xx as int, yy as int) + ring_rest(
                    xx as int,
                    yy as int,
                    p as int,
                ));
            }
            let ghost before = done;
            let h1 = stamp(app, xb + xx, yb + yy, false, &mut patch, Ghost(pre), Ghost(done));
            proof {
                done = h1@;
            }
            let h2 = stamp(app, xb - xx, yb + yy, false, &mut patch, Ghost(pre), Ghost(done));
            proof {
                done = h2@;
            }
            let h3 = stamp(app, xb + xx, yb - yy, false, &mut patch, Ghost(pre), Ghost(done));
            proof {
                done = h3@;
            }
            let h4 = stamp(app, xb - xx, yb - yy, false, &mut patch, Ghost(pre), Ghost(done));
            proof {
                done = h4@;
            }
            if xx != yy {
                let h5 = stamp(app, xb + yy, yb + xx, false, &mut patch, Ghost(pre), Ghost(done));
                proof {
                    done = h5@;
                }
                let h6 = stamp(app, xb - yy, yb + xx, false, &mut patch, Ghost(pre), Ghost(done));
                proof {
                    done = h6@;
                }
                let h7 = stamp(app, xb + yy, yb - xx, false, &mut patch, Ghost(pre), Ghost(done));
                proof {
                    done = h7@;
                }
                let h8 = stamp(app, xb - yy, yb - xx, false, &mut patch, Ghost(pre), Ghost(done));
                proof {
                    done = h8@;
                }
            }
            proof {
                assert(done =~= before.union(at_offsets(x, y, ring_octet(xx as int, yy as int))));
                assert(at_offsets(x, y, ring_octet(xx as int, yy as int) + ring_rest(
                    xx as int,
                    yy as int,
                    p as int,
                )) =~= at_offsets(x, y, ring_octet(xx as int, yy as int)).union(
                    at_offsets(x, y, ring_rest(xx as int, yy as int, p as int)),
                ));
                assert(done.union(at_offsets(x, y, ring_rest(xx as int, yy as int, p as int)))
                    =~= circle_fp(x, y, size));
            }
        } else {
            proof {
                assert(ring_rest(xx0, yy0, p0) == Set::<(int, int)>::empty());
                assert(ring_rest(xx as int, yy as int, p as int) == Set::<(int, int)>::empty());
                assert(done.union(at_offsets(x, y, ring_rest(xx as int, yy as int, p as int)))
                    =~= circle_fp(x, y, size));
            }
        }
    }
    proof {
        assert(ring_rest(xx as int, yy as int, p as int) == Set::<(int, int)>::empty());
        assert(done =~= circle_fp(x, y, size));
    }
    patch
}

impl Tool {
    /// One paint request: enumerates the tool's footprint around the
    /// pointer, paints or erases it on the active layer, and hands back
    /// the patch of replaced cells, each coordinate recorded once.
    pub fn draw(&self, x: u16, y: u16, size: u16, app: &mut App) -> (old_cells: LayerData)
        requires
            old(app).wf(),
            size >= 1,
        ensures
            final(app).wf(),
            paint_effect(
                *old(app),
                *final(app),
                tool_fp(*self, x, y, size),
                *self is Eraser,
            ),
            old_cells.as_map() == capture(
                old(app).active_cells(),
                tool_fp(*self, x, y, size),
            ),
    {
        match self {
            Tool::Eraser => eraser_tool(x, y, size, app),
            Tool::Square => square_tool(x, y, size, app),
            Tool::Box => box_tool(x, y, size, app),
            Tool::Disk => disk_tool(x, y, size, app),
            Tool::Circle => circle_tool(x, y, size, app),
            Tool::Point => point_tool(x, y, app),
            Tool::Plus => plus(x, y, size, app),
            Tool::Vertical => vert(x, y, size, app),
            Tool::Horizontal => horiz(x, y, size, app),
        }
    }
}


/// The brush rectangle clamped to the grid: left and bottom saturate at
/// zero, right and top extend by the half-size.
pub fn get_brush_rect_u16(x: u16, y: u16, size: u16) -> (r: (u16, u16, u16, u16))
    requires
        x + (if size >= 1 { (size - 1) as int / 2 } else { 0 }) <= u16::MAX as int,
        y + (if size >= 1 { (size - 1) as int / 2 } else { 0 }) <= u16::MAX as int,
    ensures
        ({
            let off = if size >= 1 { (size - 1) as int / 2 } else { 0int };
            &&& r.0 == if x >= off { x - off } else { 0int }
            &&& r.2 == if y >= off { y - off } else { 0int }
            &&& r.1 == x + off
            &&& r.3 == y + off
        }),
{
    let off = if size >= 1 { (size - 1) / 2 } else { 0 };
    let left = if x >= off { x - off } else { 0 };
    let bottom = if y >= off { y - off } else { 0 };
    (left, x + off, bottom, y + off)
}

/// A pointer-centered brush footprint, kept around while a shape is
/// being stamped.
pub struct DrawShape {
    pub x: u16,
    pub y: u16,
    pub size: u16,
}

impl DrawShape {
    /// A shape centered at the pointer with the brush's current size.
    pub fn new(x: u16, y: u16, size: u16) -> (s: DrawShape)
        ensures
            s.x == x,
            s.y == y,
            s.size == size,
    {
        DrawShape { x, y, size }
    }

    /// The rectangle this shape covers: left, right, bottom, top, the
    /// right and top edges exclusive.
    pub fn get_brush_rect(&self) -> (r: (i64, i64, i64, i64))
        requires
            self.size >= 1,
        ensures
            r.0 == rect_of(self.x, self.y, self.size).0,
            r.1 == rect_of(self.x, self.y, self.size).1,
            r.2 == rect_of(self.x, self.y, self.size).2,
            r.3 == rect_of(self.x, self.y, self.size).3,
    {
        let off = ((self.size - 1) / 2) as i64;
        let left = self.x as i64 - off;
        let bottom = self.y as i64 - off;
        (left, left + self.size as i64, bottom, bottom + self.size as i64)
    }
}

} // verus!
