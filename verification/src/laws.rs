use vstd::prelude::*;
use crate::cell::{empty_cell, Cell};
use crate::grid::Coord;
use crate::layer::{capture, lemma_capture_merge, non_empty_cells, LayerView};
use crate::layers::{composite_over, lemma_composite_same_shown};
use crate::tools::{erased_cells, painted_cells};

verus! {

/// One recorded paint request, as the history sees it: the coordinates
/// it touched, whether it erased, and the cell it otherwise wrote.
pub ghost struct PaintStep {
    pub fp: Set<Coord>,
    pub erase: bool,
    pub cell: Cell,
}

/// The cell map one paint request leaves behind.
pub open spec fn paint_result(m: Map<Coord, Cell>, s: PaintStep) -> Map<Coord, Cell> {
    if s.erase {
        erased_cells(m, s.fp)
    } else {
        painted_cells(m, s.fp, s.cell)
    }
}

/// The cell map a whole sequence of paint requests leaves behind.
pub open spec fn run_paints(m0: Map<Coord, Cell>, ops: Seq<PaintStep>) -> Map<Coord, Cell>
    decreases ops.len(),
{
    if ops.len() == 0 {
        m0
    } else {
        paint_result(run_paints(m0, ops.drop_last()), ops.last())
    }
}

/// The cell map left after undoing every request in turn, most recent
/// first, each by re-applying the pre-image patch that was captured for
/// it when it ran.
pub open spec fn rewind_paints(
    m: Map<Coord, Cell>,
    m0: Map<Coord, Cell>,
    ops: Seq<PaintStep>,
) -> Map<Coord, Cell>
    decreases ops.len(),
{
    if ops.len() == 0 {
        m
    } else {
        rewind_paints(
            m.union_prefer_right(capture(run_paints(m0, ops.drop_last()), ops.last().fp)),
            m0,
            ops.drop_last(),
        )
    }
}

/// Whether two cell maps agree everywhere outside `fp`: what any single
/// paint request guarantees about the coordinates it did not touch.
pub open spec fn agrees_off(m: Map<Coord, Cell>, m2: Map<Coord, Cell>, fp: Set<Coord>) -> bool {
    forall|c: Coord|
        !fp.contains(c) ==> (#[trigger] m2.contains_key(c)) == m.contains_key(c) && (
        m2.contains_key(c) ==> m2[c] == m[c])
}

/// A paint request changes nothing outside its footprint.
pub proof fn lemma_paint_agrees_off(m: Map<Coord, Cell>, s: PaintStep)
    ensures
        agrees_off(m, paint_result(m, s), s.fp),
{
}

/// Re-applying the pre-image patch of a mutation restores the logical
/// content that stood before it: one undo undoes one edit.
pub proof fn lemma_patch_restores(
    prev: Map<Coord, Cell>,
    cur: Map<Coord, Cell>,
    fp: Set<Coord>,
)
    requires
        agrees_off(prev, cur, fp),
    ensures
        non_empty_cells(cur.union_prefer_right(capture(prev, fp))) == non_empty_cells(prev),
{
    assert(non_empty_cells(cur.union_prefer_right(capture(prev, fp))) =~= non_empty_cells(prev));
}

/// Applying one patch to two maps of equal logical content yields equal
/// logical content again.
pub proof fn lemma_patch_congruence(
    a: Map<Coord, Cell>,
    b: Map<Coord, Cell>,
    p: Map<Coord, Cell>,
)
    requires
        non_empty_cells(a) == non_empty_cells(b),
    ensures
        non_empty_cells(a.union_prefer_right(p)) == non_empty_cells(b.union_prefer_right(p)),
{
    assert forall|c: Coord|
        (#[trigger] non_empty_cells(a.union_prefer_right(p)).dom().contains(c))
            == non_empty_cells(b.union_prefer_right(p)).dom().contains(c) && (non_empty_cells(
            a.union_prefer_right(p),
        ).dom().contains(c) ==> non_empty_cells(a.union_prefer_right(p))[c] == non_empty_cells(
            b.union_prefer_right(p),
        )[c]) by {
        if p.dom().contains(c) {
            assert((a.union_prefer_right(p))[c] == p[c]);
            assert((b.union_prefer_right(p))[c] == p[c]);
        } else {
            assert((a.union_prefer_right(p)).contains_key(c) == a.contains_key(c));
            assert((b.union_prefer_right(p)).contains_key(c) == b.contains_key(c));
            if a.contains_key(c) && a[c] != empty_cell() {
                assert(non_empty_cells(a).contains_key(c));
                assert(non_empty_cells(b).contains_key(c));
                assert(non_empty_cells(a)[c] == a[c]);
                assert(non_empty_cells(b)[c] == b[c]);
                assert(b.contains_key(c) && b[c] == a[c]);
            }
            if b.contains_key(c) && b[c] != empty_cell() {
                assert(non_empty_cells(b).contains_key(c));
                assert(non_empty_cells(a).contains_key(c));
                assert(non_empty_cells(a)[c] == a[c]);
                assert(a.contains_key(c) && a[c] == b[c]);
            }
        }
    }
    assert(non_empty_cells(a.union_prefer_right(p)) =~= non_empty_cells(
        b.union_prefer_right(p),
    ));
}

/// Any sequence of paint requests followed by as many undos brings the
/// layer's logical content back exactly to where it started, whatever
/// the footprints, tools and cells were.
pub proof fn lemma_paint_round_trip(m0: Map<Coord, Cell>, ops: Seq<PaintStep>)
    ensures
        non_empty_cells(rewind_paints(run_paints(m0, ops), m0, ops)) == non_empty_cells(m0),
    decreases ops.len(),
{
    lemma_rewind_content(m0, ops, run_paints(m0, ops));
}

/// Rewinding works from any map whose logical content matches the final
/// painted state, which carries the round-trip induction through.
pub proof fn lemma_rewind_content(m0: Map<Coord, Cell>, ops: Seq<PaintStep>, m: Map<Coord, Cell>)
    requires
        non_empty_cells(m) == non_empty_cells(run_paints(m0, ops)),
    ensures
        non_empty_cells(rewind_paints(m, m0, ops)) == non_empty_cells(m0),
    decreases ops.len(),
{
    if ops.len() > 0 {
        let rest = ops.drop_last();
        let s = ops.last();
        let prev = run_paints(m0, rest);
        let cur = run_paints(m0, ops);
        let p = capture(prev, s.fp);
        lemma_paint_agrees_off(prev, s);
        lemma_patch_restores(prev, cur, s.fp);
        lemma_patch_congruence(m, cur, p);
        lemma_rewind_content(m0, rest, m.union_prefer_right(p));
    }
}

/// Undo then redo reproduces the post-edit state exactly, including
/// which coordinates are empty and which are set: when a patch is
/// written back, the inverse captured while doing so restores, cell for
/// cell, the logical content that the patch overwrote.
pub proof fn lemma_undo_redo_symmetric(
    prev: Map<Coord, Cell>,
    cur: Map<Coord, Cell>,
    fp: Set<Coord>,
)
    requires
        agrees_off(prev, cur, fp),
    ensures
        non_empty_cells(
            cur.union_prefer_right(capture(prev, fp)).union_prefer_right(capture(cur, fp)),
        ) == non_empty_cells(cur),
{
    assert(non_empty_cells(
        cur.union_prefer_right(capture(prev, fp)).union_prefer_right(capture(cur, fp)),
    ) =~= non_empty_cells(cur));
}

/// A drag stroke's patches, merged with the first pre-image winning,
/// capture the canvas as it stood before the whole stroke; one undo of
/// the merged patch therefore restores the pre-stroke content in full,
/// even when the stroke crossed itself.
pub proof fn lemma_stroke_coalesced(
    m0: Map<Coord, Cell>,
    mid: Map<Coord, Cell>,
    fin: Map<Coord, Cell>,
    fp1: Set<Coord>,
    fp2: Set<Coord>,
)
    requires
        agrees_off(m0, mid, fp1),
        agrees_off(mid, fin, fp2),
    ensures
        capture(mid, fp2).union_prefer_right(capture(m0, fp1)) == capture(m0, fp1.union(fp2)),
        non_empty_cells(
            fin.union_prefer_right(capture(mid, fp2).union_prefer_right(capture(m0, fp1))),
        ) == non_empty_cells(m0),
{
    lemma_capture_merge(m0, mid, fp1, fp2);
    assert(agrees_off(m0, fin, fp1.union(fp2)));
    lemma_patch_restores(m0, fin, fp1.union(fp2));
}

/// A hidden layer contributes nothing to the composite: whatever its
/// cells are set to, the rendered result is the same.
pub proof fn lemma_hidden_layer_irrelevant(
    s: Seq<LayerView>,
    i: int,
    cells: Map<Coord, Cell>,
)
    requires
        0 <= i < s.len(),
        !s[i].visible,
    ensures
        composite_over(s.update(i, LayerView { cells: cells, ..s[i] })) == composite_over(s),
{
    let t = s.update(i, LayerView { cells: cells, ..s[i] });
    assert forall|j: int| 0 <= j < s.len() implies (#[trigger] s[j]).shown() == t[j].shown() by {
        if j == i {
            assert(s[j].shown() =~= t[j].shown());
        }
    }
    lemma_composite_same_shown(t, s);
}

/// Removing a layer and putting the very same value back at its old
/// position restores the stack exactly: the layer keeps its id, its
/// name, its visibility and its cells, and every other layer stands
/// where it stood.
pub proof fn lemma_remove_insert_identity(s: Seq<LayerView>, i: int)
    requires
        0 <= i < s.len(),
    ensures
        s.remove(i).insert(i, s[i]) == s,
        s.remove(i).insert(i, s[i])[i].id == s[i].id,
        s.remove(i).insert(i, s[i])[i].name == s[i].name,
{
    assert(s.remove(i).insert(i, s[i]) =~= s);
}

} // verus!
