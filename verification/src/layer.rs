use vstd::prelude::*;
use crate::cell::{empty_cell, Cell};
use crate::grid::{lemma_map_of_take_step, map_of, unique_keys, Coord, CoordMap};
use crate::rng::random_u32;

verus! {

/// The sparse cell storage of one layer.
pub type LayerData = CoordMap<Cell>;

/// The cells of `m` that differ from the empty sentinel: what a map of
/// cells contributes when composited, and a layer's logical content.
pub open spec fn non_empty_cells(m: Map<Coord, Cell>) -> Map<Coord, Cell> {
    Map::new(|c: Coord| m.contains_key(c) && m[c] != empty_cell(), |c: Coord| m[c])
}

/// The mathematical value of a layer: everything its behavior depends on.
pub ghost struct LayerView {
    pub name: Seq<char>,
    pub visible: bool,
    pub id: u32,
    pub cells: Map<Coord, Cell>,
}

impl LayerView {
    /// The logical content: non-empty cells only. A coordinate holding the
    /// empty sentinel counts the same as an absent one.
    pub open spec fn content(self) -> Map<Coord, Cell> {
        non_empty_cells(self.cells)
    }

    /// What the layer contributes to the composite.
    pub open spec fn shown(self) -> Map<Coord, Cell> {
        if self.visible {
            self.content()
        } else {
            Map::empty()
        }
    }
}

/// Merging a later pre-image patch under an earlier one (the earlier
/// coordinates keeping their values) captures the original state over the
/// union of the touched coordinates: the heart of stroke coalescing.
pub proof fn lemma_capture_merge(
    m: Map<Coord, Cell>,
    mid: Map<Coord, Cell>,
    done: Set<Coord>,
    fp: Set<Coord>,
)
    requires
        forall|c: Coord|
            !done.contains(c) ==> (#[trigger] mid.contains_key(c)) == m.contains_key(c) && (
            mid.contains_key(c) ==> mid[c] == m[c]),
    ensures
        capture(mid, fp).union_prefer_right(capture(m, done)) == capture(m, done.union(fp)),
{
    assert(capture(mid, fp).union_prefer_right(capture(m, done)) =~= capture(
        m,
        done.union(fp),
    ));
}

/// One named, toggleable drawing surface with a stable identity.
pub struct Layer {
    pub name: String,
    pub visible: bool,
    pub id: u32,
    pub data: LayerData,
}

impl View for Layer {
    type V = LayerView;

    open spec fn view(&self) -> LayerView {
        LayerView {
            name: self.name@,
            visible: self.visible,
            id: self.id,
            cells: self.data.as_map(),
        }
    }
}

impl Layer {
    /// A fresh, visible, empty layer under the given id.
    pub fn with_id(id: u32) -> (l: Layer)
        ensures
            l@ == (LayerView {
                name: "New Layer"@,
                visible: true,
                id: id,
                cells: Map::<Coord, Cell>::empty(),
            }),
    {
        Layer {
            name: String::from_str("New Layer"),
            visible: true,
            id,
            data: CoordMap::new(),
        }
    }

    /// A fresh layer under a randomly drawn id; the id is also returned.
    /// The id's value is whatever the generator gave; callers that need a
    /// collision-free id must check it themselves.
    pub fn new() -> (r: (Layer, u32))
        ensures
            r.0@ == (LayerView {
                name: "New Layer"@,
                visible: true,
                id: r.1,
                cells: Map::<Coord, Cell>::empty(),
            }),
    {
        let id = random_u32();
        (Layer::with_id(id), id)
    }

    /// Flips the visibility flag and changes nothing else.
    pub fn toggle_visible(&mut self)
        ensures
            final(self)@ == (LayerView { visible: !old(self)@.visible, ..old(self)@ }),
    {
        self.visible = !self.visible;
    }

    /// A copy with the same mathematical value.
    pub fn duplicate(&self) -> (l: Layer)
        ensures
            l@ == self@,
            l.data.pairs() == self.data.pairs(),
    {
        Layer {
            name: self.name.clone(),
            visible: self.visible,
            id: self.id,
            data: self.data.duplicate(),
        }
    }
}

/// The sequence of layer values a sequence of layers denotes.
pub open spec fn views_of(s: Seq<Layer>) -> Seq<LayerView> {
    Seq::new(s.len(), |i: int| s[i]@)
}

/// The pre-image of a mutation that touched the coordinates of `dom`:
/// each one mapped to the cell `m` held there, the empty sentinel standing
/// in for an absent one. Re-applying such a patch is what undoes the
/// mutation.
pub open spec fn capture(m: Map<Coord, Cell>, dom: Set<Coord>) -> Map<Coord, Cell> {
    Map::new(
        |c: Coord| dom.contains(c),
        |c: Coord|
            if m.contains_key(c) {
                m[c]
            } else {
                empty_cell()
            },
    )
}

impl CoordMap<Cell> {
    /// Stores every pair of `other` whose cell is not the empty sentinel,
    /// overriding what this map held there: one compositing step.
    pub fn extend_shown(&mut self, other: &CoordMap<Cell>)
        ensures
            final(self).as_map() == old(self).as_map().union_prefer_right(
                non_empty_cells(other.as_map()),
            ),
    {
        proof {
            use_type_invariant(other);
            other.lemma_pairs();
        }
        let n = other.len();
        for i in 0..n
            invariant
                n == other.pairs().len(),
                unique_keys(other.pairs()),
                other.as_map() == map_of(other.pairs()),
                self.as_map() == old(self).as_map().union_prefer_right(
                    non_empty_cells(map_of(other.pairs().take(i as int))),
                ),
        {
            let p = other.pair_at(i);
            let ghost m_i = map_of(other.pairs().take(i as int));
            proof {
                lemma_map_of_take_step(other.pairs(), i as int);
            }
            let e = Cell::empty();
            if !(p.1.fg == e.fg && p.1.bg == e.bg && p.1.glyph == e.glyph) {
                self.insert(p.0, p.1);
                proof {
                    assert(old(self).as_map().union_prefer_right(non_empty_cells(m_i)).insert(
                        p.0,
                        p.1,
                    ) =~= old(self).as_map().union_prefer_right(
                        non_empty_cells(m_i.insert(p.0, p.1)),
                    ));
                }
            } else {
                proof {
                    assert(p.1 == empty_cell());
                    assert(!m_i.contains_key(p.0)) by {
                        crate::grid::lemma_map_of_contains(other.pairs().take(i as int));
                        if m_i.contains_key(p.0) {
                            let j = choose|j: int|
                                0 <= j < other.pairs().take(i as int).len() && (
                                #[trigger] other.pairs().take(i as int)[j]).0 == p.0;
                            assert(other.pairs()[j].0 == other.pairs()[i as int].0);
                        }
                    }
                    assert(non_empty_cells(m_i) =~= non_empty_cells(m_i.insert(p.0, p.1)));
                }
            }
        }
        proof {
            assert(other.pairs().take(n as int) =~= other.pairs());
        }
    }

    /// Writes every pair of `patch` into this map and captures, coordinate
    /// for coordinate, what stood there before: the inverse patch.
    pub fn apply_patch(&mut self, patch: &Self) -> (inv: Self)
        ensures
            final(self).as_map() == old(self).as_map().union_prefer_right(patch.as_map()),
            inv.as_map() == capture(old(self).as_map(), patch.as_map().dom()),
    {
        proof {
            use_type_invariant(patch);
            patch.lemma_pairs();
        }
        let mut inv: CoordMap<Cell> = CoordMap::new();
        let n = patch.len();
        for i in 0..n
            invariant
                n == patch.pairs().len(),
                unique_keys(patch.pairs()),
                patch.as_map() == map_of(patch.pairs()),
                self.as_map() == old(self).as_map().union_prefer_right(
                    map_of(patch.pairs().take(i as int)),
                ),
                inv.as_map() == capture(
                    old(self).as_map(),
                    map_of(patch.pairs().take(i as int)).dom(),
                ),
        {
            let p = patch.pair_at(i);
            let ghost m_i = map_of(patch.pairs().take(i as int));
            proof {
                lemma_map_of_take_step(patch.pairs(), i as int);
                assert(!m_i.contains_key(p.0)) by {
                    crate::grid::lemma_map_of_contains(patch.pairs().take(i as int));
                    if m_i.contains_key(p.0) {
                        let j = choose|j: int|
                            0 <= j < patch.pairs().take(i as int).len() && (
                            #[trigger] patch.pairs().take(i as int)[j]).0 == p.0;
                        assert(patch.pairs()[j].0 == patch.pairs()[i as int].0);
                    }
                }
            }
            let prev = self.insert(p.0, p.1);
            let before = match prev {
                Option::Some(cell) => cell,
                Option::None => Cell::empty(),
            };
            inv.insert(p.0, before);
            proof {
                assert(self.as_map() =~= old(self).as_map().union_prefer_right(
                    m_i.insert(p.0, p.1),
                ));
                assert(inv.as_map() =~= capture(
                    old(self).as_map(),
                    m_i.insert(p.0, p.1).dom(),
                ));
            }
        }
        proof {
            assert(patch.pairs().take(n as int) =~= patch.pairs());
        }
        inv
    }
}

} // verus!
