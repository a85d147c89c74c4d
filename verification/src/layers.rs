use vstd::prelude::*;
use vstd::pervasive::VecAdditionalExecFns;
use crate::cell::Cell;
use crate::grid::{Coord, CoordMap};
use crate::layer::{capture, views_of, Layer, LayerData, LayerView};
use crate::rng::random_u32;

verus! {

/// Whether some layer of `s` carries the id.
pub open spec fn has_layer_id(s: Seq<LayerView>, id: u32) -> bool {
    exists|i: int| 0 <= i < s.len() && (#[trigger] s[i]).id == id
}

/// The position of the layer carrying `id`; meaningful only when
/// `has_layer_id` holds and ids are distinct.
pub open spec fn index_of_id(s: Seq<LayerView>, id: u32) -> int {
    choose|i: int| 0 <= i < s.len() && (#[trigger] s[i]).id == id
}

/// Two adjacent positions exchanged.
pub open spec fn seq_swapped<A>(s: Seq<A>, i: int, j: int) -> Seq<A> {
    s.update(i, s[j]).update(j, s[i])
}

/// The composite of a stack of layer values: a bottom-to-top fold in which
/// later (higher) layers override earlier ones and hidden layers and empty
/// cells contribute nothing.
pub open spec fn composite_over(s: Seq<LayerView>) -> Map<Coord, Cell>
    decreases s.len(),
{
    if s.len() == 0 {
        Map::empty()
    } else {
        composite_over(s.drop_last()).union_prefer_right(s.last().shown())
    }
}

/// Extending the composited prefix by one layer unions in what it shows.
pub proof fn lemma_composite_take_step(s: Seq<LayerView>, i: int)
    requires
        0 <= i < s.len(),
    ensures
        composite_over(s.take(i + 1)) == composite_over(s.take(i)).union_prefer_right(
            s[i].shown(),
        ),
{
    assert(s.take(i + 1).drop_last() =~= s.take(i));
    assert(s.take(i + 1).last() == s[i]);
}

/// A finite set of ids that contains all of `0 ..= m` has more than `m`
/// elements.
proof fn lemma_prefix_in_set_len(s: Set<u32>, m: int)
    requires
        s.finite(),
        0 <= m <= u32::MAX as int,
        forall|c: int| 0 <= c <= m ==> s.contains(#[trigger] (c as u32)),
    ensures
        s.len() >= m + 1,
    decreases m,
{
    assert(s.contains(m as u32));
    let s2 = s.remove(m as u32);
    if m == 0 {
        assert(s.len() >= 1);
    } else {
        assert forall|c: int| 0 <= c <= m - 1 implies s2.contains(#[trigger] (c as u32)) by {
            assert(s.contains(c as u32));
            assert(c as u32 != m as u32);
        }
        lemma_prefix_in_set_len(s2, m - 1);
    }
}

fn contains_id(v: &Vec<u32>, x: u32) -> (b: bool)
    ensures
        b == v@.contains(x),
{
    let n = v.len();
    for i in 0..n
        invariant
            n == v@.len(),
            forall|j: int| 0 <= j < i ==> v@[j] != x,
    {
        if v[i] == x {
            proof {
                assert(v@[i as int] == x);
            }
            return true;
        }
    }
    false
}

/// The ordered stack of layers: bottom first, an active index, the last
/// pointer position, a mirror list of ids and a memoized composite.
pub struct Layers {
    pub layers: Vec<Layer>,
    pub last_pos: Option<(u16, u16)>,
    pub active: usize,
    pub id_list: Vec<u32>,
    pub rendered: Option<LayerData>,
}

impl Layers {
    /// The mathematical value of the stack.
    pub open spec fn lviews(self) -> Seq<LayerView> {
        views_of(self.layers@)
    }

    /// The composite the stack currently denotes.
    pub open spec fn composite(self) -> Map<Coord, Cell> {
        composite_over(self.lviews())
    }

    /// Structural soundness: the stack is never empty, the active index is
    /// valid, the id list mirrors the layers' ids, ids are pairwise
    /// distinct, and a memoized composite, when present, is the real one.
    pub open spec fn wf(self) -> bool {
        &&& self.layers@.len() >= 1
        &&& self.layers@.len() < u32::MAX as int
        &&& self.active < self.layers@.len()
        &&& self.id_list@.len() == self.layers@.len()
        &&& (forall|i: int|
            0 <= i < self.layers@.len() ==> self.id_list@[i] == (#[trigger] self.layers@[i]).id)
        &&& (forall|i: int, j: int|
            0 <= i < j < self.layers@.len() ==> (#[trigger] self.layers@[i]).id != (
            #[trigger] self.layers@[j]).id)
        &&& match self.rendered {
            Option::Some(m) => m.as_map() == self.composite(),
            Option::None => true,
        }
    }

    /// An id that no current layer carries. Random draws are tried first;
    /// if they all collide, the smallest unused value is taken, which the
    /// pigeonhole argument shows must exist.
    fn fresh_id(&self) -> (id: u32)
        requires
            self.wf(),
        ensures
            !self.id_list@.contains(id),
    {
        let mut attempts: usize = 0;
        while attempts < 8
            decreases 8 - attempts,
        {
            let cand = random_u32();
            if !contains_id(&self.id_list, cand) {
                return cand;
            }
            attempts = attempts + 1;
        }
        let n = self.id_list.len();
        let mut c: usize = 0;
        while c <= n
            invariant
                self.wf(),
                c <= n + 1,
                n == self.id_list@.len(),
                n < u32::MAX as usize,
                forall|j: int| 0 <= j < c ==> self.id_list@.contains(#[trigger] (j as u32)),
            decreases n + 1 - c,
        {
            if !contains_id(&self.id_list, c as u32) {
                return c as u32;
            }
            c = c + 1;
        }
        proof {
            vstd::seq_lib::seq_to_set_is_finite(self.id_list@);
            assert(forall|j: int|
                0 <= j <= n as int ==> self.id_list@.to_set().contains(#[trigger] (j as u32)));
            lemma_prefix_in_set_len(self.id_list@.to_set(), n as int);
            self.id_list@.lemma_cardinality_of_set();
            assert(false);
        }
        0
    }

    /// Forgets the memoized composite; the next render recomputes it.
    pub fn queue_render(&mut self)
        ensures
            *final(self) == (Layers { rendered: Option::None, ..*old(self) }),
    {
        self.rendered = Option::None;
    }

    /// The composite of all visible layers, recomputed only when no
    /// memoized copy is at hand, and handed out by value.
    pub fn render(&mut self) -> (r: LayerData)
        requires
            old(self).wf(),
        ensures
            final(self).wf(),
            r.as_map() == old(self).composite(),
            final(self).layers == old(self).layers,
            final(self).active == old(self).active,
            final(self).id_list == old(self).id_list,
            final(self).last_pos == old(self).last_pos,
    {
        if let Option::Some(m) = &self.rendered {
            return m.duplicate();
        }
        let mut out: LayerData = CoordMap::new();
        let n = self.layers.len();
        for i in 0..n
            invariant
                self.wf(),
                n == self.layers@.len(),
                out.as_map() == composite_over(self.lviews().take(i as int)),
        {
            proof {
                lemma_composite_take_step(self.lviews(), i as int);
            }
            if self.layers[i].visible {
                out.extend_shown(&self.layers[i].data);
            } else {
                proof {
                    assert(self.lviews()[i as int].shown() =~= Map::<Coord, Cell>::empty());
                    assert(out.as_map().union_prefer_right(Map::<Coord, Cell>::empty())
                        =~= out.as_map());
                }
            }
        }
        proof {
            assert(self.lviews().take(n as int) =~= self.lviews());
        }
        self.rendered = Option::Some(out.duplicate());
        out
    }

    /// Selects the layer the following edits act on, clamped to the stack.
    pub fn select_layer(&mut self, index: u8)
        requires
            old(self).wf(),
        ensures
            final(self).wf(),
            final(self).active == if (index as int) < old(self).layers@.len() {
                index as int
            } else {
                old(self).layers@.len() - 1
            },
            final(self).layers == old(self).layers,
            final(self).id_list == old(self).id_list,
            final(self).last_pos == old(self).last_pos,
            final(self).rendered == old(self).rendered,
    {
        let n = self.layers.len();
        if (index as usize) < n {
            self.active = index as usize;
        } else {
            self.active = n - 1;
        }
    }

    /// Flips the visibility of the layer at `index`; out-of-range indices
    /// do nothing. Either way the memoized composite is dropped.
    pub fn toggle_visible(&mut self, index: u8)
        requires
            old(self).wf(),
        ensures
            final(self).wf(),
            final(self).rendered is None,
            (index as int) < old(self).layers@.len() ==> final(self).lviews() == old(self).lviews().update(
                index as int,
                LayerView {
                    visible: !old(self).lviews()[index as int].visible,
                    ..old(self).lviews()[index as int]
                },
            ),
            (index as int) >= old(self).layers@.len() ==> final(self).lviews() == old(self).lviews(),
            final(self).id_list == old(self).id_list,
            final(self).active == old(self).active,
            final(self).last_pos == old(self).last_pos,
    {
        self.queue_render();
        let n = self.layers.len();
        if (index as usize) < n {
            let i = index as usize;
            self.layers[i].toggle_visible();
            proof {
                assert(final(self).lviews() =~= old(self).lviews().update(
                    index as int,
                    LayerView {
                        visible: !old(self).lviews()[index as int].visible,
                        ..old(self).lviews()[index as int]
                    },
                ));
            }
        } else {
            proof {
                assert(final(self).lviews() =~= old(self).lviews());
            }
        }
    }

    /// The id of the active layer.
    pub fn current_layer_id(&self) -> (id: u32)
        requires
            self.wf(),
        ensures
            id == self.lviews()[self.active as int].id,
    {
        self.layers[self.active].id
    }

    /// The name of the active layer.
    pub fn current_layer_name(&self) -> (name: String)
        requires
            self.wf(),
        ensures
            name@ == self.lviews()[self.active as int].name,
    {
        self.layers[self.active].name.clone()
    }

    /// Appends a fresh, empty, visible layer on top and hands back its id,
    /// which collides with no existing one.
    pub fn add_layer(&mut self) -> (id: u32)
        requires
            old(self).wf(),
            old(self).layers@.len() + 1 < u32::MAX as int,
        ensures
            final(self).wf(),
            !old(self).id_list@.contains(id),
            final(self).lviews() == old(self).lviews().push(
                LayerView {
                    name: "New Layer"@,
                    visible: true,
                    id: id,
                    cells: Map::<Coord, Cell>::empty(),
                },
            ),
            final(self).id_list@ == old(self).id_list@.push(id),
            final(self).active == old(self).active,
            final(self).last_pos == old(self).last_pos,
            final(self).rendered is None,
    {
        self.queue_render();
        let id = self.fresh_id();
        let layer = Layer::with_id(id);
        self.layers.push(layer);
        self.id_list.push(id);
        proof {
            assert(final(self).lviews() =~= old(self).lviews().push(
                LayerView {
                    name: "New Layer"@,
                    visible: true,
                    id: id,
                    cells: Map::<Coord, Cell>::empty(),
                },
            ));
            assert forall|i: int| 0 <= i < final(self).layers@.len() implies final(self).id_list@[i]
                == (#[trigger] final(self).layers@[i]).id by {
                if i < old(self).layers@.len() {
                    assert(old(self).id_list@[i] == old(self).layers@[i].id);
                }
            }
            assert forall|i: int, j: int|
                0 <= i < j < final(self).layers@.len() implies (#[trigger] final(self).layers@[i]).id
                != (#[trigger] final(self).layers@[j]).id by {
                if j == final(self).layers@.len() - 1 {
                    assert(old(self).id_list@[i] == old(self).layers@[i].id);
                    assert(old(self).id_list@.contains(old(self).layers@[i].id));
                }
            }
        }
        id
    }

    /// Writes `cell` at `c` on the active layer, handing back what was
    /// there. The memoized composite is dropped.
    pub fn insert_cell_active(&mut self, c: Coord, cell: Cell) -> (old_cell: Option<Cell>)
        requires
            old(self).wf(),
        ensures
            final(self).wf(),
            final(self).lviews() == old(self).lviews().update(
                old(self).active as int,
                LayerView {
                    cells: old(self).lviews()[old(self).active as int].cells.insert(c, cell),
                    ..old(self).lviews()[old(self).active as int]
                },
            ),
            old_cell == if old(self).lviews()[old(self).active as int].cells.contains_key(c) {
                Option::Some(old(self).lviews()[old(self).active as int].cells[c])
            } else {
                Option::<Cell>::None
            },
            final(self).active == old(self).active,
            final(self).id_list == old(self).id_list,
            final(self).last_pos == old(self).last_pos,
            final(self).rendered is None,
    {
        self.queue_render();
        let i = self.active;
        let r = self.layers[i].data.insert(c, cell);
        proof {
            assert(final(self).lviews() =~= old(self).lviews().update(
                old(self).active as int,
                LayerView {
                    cells: old(self).lviews()[old(self).active as int].cells.insert(c, cell),
                    ..old(self).lviews()[old(self).active as int]
                },
            ));
        }
        r
    }

    /// Clears `c` on the active layer, handing back what was there. The
    /// memoized composite is dropped.
    pub fn remove_cell_active(&mut self, c: Coord) -> (old_cell: Option<Cell>)
        requires
            old(self).wf(),
        ensures
            final(self).wf(),
            final(self).lviews() == old(self).lviews().update(
                old(self).active as int,
                LayerView {
                    cells: old(self).lviews()[old(self).active as int].cells.remove(c),
                    ..old(self).lviews()[old(self).active as int]
                },
            ),
            old_cell == if old(self).lviews()[old(self).active as int].cells.contains_key(c) {
                Option::Some(old(self).lviews()[old(self).active as int].cells[c])
            } else {
                Option::<Cell>::None
            },
            final(self).active == old(self).active,
            final(self).id_list == old(self).id_list,
            final(self).last_pos == old(self).last_pos,
            final(self).rendered is None,
    {
        self.queue_render();
        let i = self.active;
        let r = self.layers[i].data.remove(c);
        proof {
            assert(final(self).lviews() =~= old(self).lviews().update(
                old(self).active as int,
                LayerView {
                    cells: old(self).lviews()[old(self).active as int].cells.remove(c),
                    ..old(self).lviews()[old(self).active as int]
                },
            ));
        }
        r
    }
}

impl Layers {
    /// The position of the layer carrying `id`, if any.
    pub fn layer_index_by_id(&self, id: u32) -> (r: Option<usize>)
        requires
            self.wf(),
        ensures
            match r {
                Option::Some(i) => i < self.layers@.len() && self.lviews()[i as int].id == id
                    && has_layer_id(self.lviews(), id) && index_of_id(self.lviews(), id)
                    == i as int,
                Option::None => !has_layer_id(self.lviews(), id),
            },
    {
        let n = self.layers.len();
        for i in 0..n
            invariant
                self.wf(),
                n == self.layers@.len(),
                forall|j: int| 0 <= j < i ==> (#[trigger] self.lviews()[j]).id != id,
        {
            if self.layers[i].id == id {
                proof {
                    assert(self.lviews()[i as int].id == id);
                    let k = index_of_id(self.lviews(), id);
                    if k != i as int {
                        assert(self.layers@[k].id == self.layers@[i as int].id);
                    }
                }
                return Option::Some(i);
            }
        }
        proof {
            if has_layer_id(self.lviews(), id) {
                let k = choose|k: int|
                    0 <= k < self.lviews().len() && (#[trigger] self.lviews()[k]).id == id;
                assert(self.lviews()[k].id != id);
            }
        }
        Option::None
    }

    /// The name of the layer carrying `id`, if any.
    pub fn get_layer_name(&self, layer_id: u32) -> (r: Option<String>)
        requires
            self.wf(),
        ensures
            match r {
                Option::Some(name) => has_layer_id(self.lviews(), layer_id) && name@
                    == self.lviews()[index_of_id(self.lviews(), layer_id)].name,
                Option::None => !has_layer_id(self.lviews(), layer_id),
            },
    {
        match self.layer_index_by_id(layer_id) {
            Option::Some(i) => Option::Some(self.layers[i].name.clone()),
            Option::None => Option::None,
        }
    }

    /// A reference to the active layer.
    pub fn get_active_layer(&self) -> (l: &Layer)
        requires
            self.wf(),
        ensures
            l@ == self.lviews()[self.active as int],
    {
        &self.layers[self.active]
    }

    /// Removes the active layer and hands it back with its position, for
    /// the history to reinsert on undo. A stack left empty is refilled
    /// with one fresh layer; the active index is reclamped downward.
    pub fn remove_active_layer(&mut self) -> (r: (Layer, usize))
        requires
            old(self).wf(),
        ensures
            final(self).wf(),
            r.0@ == old(self).lviews()[old(self).active as int],
            r.1 == old(self).active,
            old(self).layers@.len() > 1 ==> {
                &&& final(self).lviews() == old(self).lviews().remove(old(self).active as int)
                &&& final(self).id_list@ == old(self).id_list@.remove(old(self).active as int)
                &&& final(self).active == if old(self).active > 0 {
                    (old(self).active - 1) as int
                } else {
                    0
                }
            },
            old(self).layers@.len() == 1 ==> {
                &&& final(self).lviews().len() == 1
                &&& final(self).lviews()[0].name == "New Layer"@
                &&& final(self).lviews()[0].visible
                &&& final(self).lviews()[0].cells == Map::<Coord, Cell>::empty()
                &&& final(self).active == 0
            },
            final(self).rendered is None,
            final(self).last_pos == old(self).last_pos,
    {
        self.queue_render();
        let old_index = self.active;
        let layer = self.layers.remove(old_index);
        self.id_list.remove(old_index);
        self.active = if old_index > 0 {
            old_index - 1
        } else {
            0
        };
        if self.layers.len() == 0 {
            let (fresh, id) = Layer::new();
            self.layers.push(fresh);
            self.id_list.push(id);
            self.active = 0;
            proof {
                assert(final(self).lviews() =~= old(self).lviews().remove(
                    old(self).active as int,
                ).push(final(self).layers@[0]@));
            }
        } else {
            proof {
                assert(final(self).lviews() =~= old(self).lviews().remove(
                    old(self).active as int,
                ));
                let pre = old(self).layers@;
                let ai = old(self).active as int;
                assert forall|i: int, j: int|
                    0 <= i < j < final(self).layers@.len() implies (#[trigger] final(self).layers@[i]).id != (#[trigger] final(self).layers@[j]).id by {
                    let i0 = if i < ai { i } else { i + 1 };
                    let j0 = if j < ai { j } else { j + 1 };
                    assert(pre[i0].id != pre[j0].id);
                }
            }
        }
        (layer, old_index)
    }

    /// Puts a previously removed layer back at an exact position; its id
    /// rejoins the id list. Used by undo of a removal.
    pub fn insert_layer(&mut self, layer: Layer, pos: usize)
        requires
            old(self).wf(),
            pos <= old(self).layers@.len(),
            !old(self).id_list@.contains(layer.id),
            old(self).layers@.len() + 1 < u32::MAX as int,
        ensures
            final(self).wf(),
            final(self).lviews() == old(self).lviews().insert(pos as int, layer@),
            final(self).id_list@ == old(self).id_list@.insert(pos as int, layer.id),
            final(self).active == old(self).active,
            final(self).last_pos == old(self).last_pos,
            final(self).rendered is None,
    {
        self.queue_render();
        let ghost lid = layer.id;
        self.id_list.insert(pos, layer.id);
        self.layers.insert(pos, layer);
        proof {
            assert(final(self).lviews() =~= old(self).lviews().insert(pos as int, layer@));
            let pre = old(self).layers@;
            let p = pos as int;
            assert forall|i: int, j: int|
                0 <= i < j < final(self).layers@.len() implies (#[trigger] final(self).layers@[i]).id != (#[trigger] final(self).layers@[j]).id by {
                if i != p && j != p {
                    let i0 = if i < p { i } else { i - 1 };
                    let j0 = if j < p { j } else { j - 1 };
                    assert(pre[i0].id != pre[j0].id);
                } else {
                    let k = if i == p { j } else { i };
                    let k0 = if k < p { k } else { k - 1 };
                    assert(old(self).id_list@[k0] == pre[k0].id);
                    assert(old(self).id_list@.contains(pre[k0].id));
                }
            }
        }
    }

    /// Renames the active layer, handing back its id and previous name so
    /// the change can be reversed.
    pub fn rename_layer(&mut self, new_name: String) -> (r: (u32, String))
        requires
            old(self).wf(),
        ensures
            final(self).wf(),
            final(self).lviews() == old(self).lviews().update(
                old(self).active as int,
                LayerView { name: new_name@, ..old(self).lviews()[old(self).active as int] },
            ),
            r.0 == old(self).lviews()[old(self).active as int].id,
            r.1@ == old(self).lviews()[old(self).active as int].name,
            final(self).active == old(self).active,
            final(self).id_list == old(self).id_list,
            final(self).last_pos == old(self).last_pos,
            final(self).rendered == old(self).rendered,
    {
        let i = self.active;
        let old_name = self.layers[i].name.clone();
        let id = self.layers[i].id;
        self.layers[i].name = new_name;
        proof {
            assert(final(self).lviews() =~= old(self).lviews().update(
                old(self).active as int,
                LayerView { name: final(self).lviews()[i as int].name, ..old(self).lviews()[i as int] },
            ));
            lemma_composite_same_shown(old(self).lviews(), final(self).lviews());
        }
        (id, old_name)
    }

    /// Renames the layer at position `k`, handing back its previous name.
    pub fn rename_layer_at(&mut self, k: usize, new_name: String) -> (prev: String)
        requires
            old(self).wf(),
            k < old(self).layers@.len(),
        ensures
            final(self).wf(),
            final(self).lviews() == old(self).lviews().update(
                k as int,
                LayerView { name: new_name@, ..old(self).lviews()[k as int] },
            ),
            prev@ == old(self).lviews()[k as int].name,
            final(self).active == old(self).active,
            final(self).id_list == old(self).id_list,
            final(self).last_pos == old(self).last_pos,
            final(self).rendered == old(self).rendered,
    {
        let prev = self.layers[k].name.clone();
        self.layers[k].name = new_name;
        proof {
            assert(final(self).lviews() =~= old(self).lviews().update(
                k as int,
                LayerView { name: final(self).lviews()[k as int].name, ..old(self).lviews()[k as int] },
            ));
            lemma_composite_same_shown(old(self).lviews(), final(self).lviews());
        }
        prev
    }

    fn swap_adjacent(&mut self, i: usize, j: usize)
        requires
            old(self).wf(),
            i < old(self).layers@.len(),
            j < old(self).layers@.len(),
        ensures
            final(self).wf(),
            final(self).lviews() == seq_swapped(old(self).lviews(), i as int, j as int),
            final(self).id_list@ == seq_swapped(old(self).id_list@, i as int, j as int),
            final(self).active == old(self).active,
            final(self).last_pos == old(self).last_pos,
            final(self).rendered is None,
    {
        self.queue_render();
        if i == j {
            proof {
                assert(final(self).lviews() =~= seq_swapped(old(self).lviews(), i as int, j as int));
                assert(final(self).id_list@ =~= seq_swapped(old(self).id_list@, i as int, j as int));
            }
            return;
        }
        let mut tmp = Layer::with_id(0);
        self.layers.set_and_swap(i, &mut tmp);
        self.layers.set_and_swap(j, &mut tmp);
        self.layers.set_and_swap(i, &mut tmp);
        let a = self.id_list[i];
        let b = self.id_list[j];
        self.id_list.set(i, b);
        self.id_list.set(j, a);
        proof {
            assert(final(self).lviews() =~= seq_swapped(old(self).lviews(), i as int, j as int));
            assert(final(self).id_list@ =~= seq_swapped(old(self).id_list@, i as int, j as int));
            let pre = old(self).layers@;
            let ii = i as int;
            let jj = j as int;
            assert forall|a0: int, b0: int|
                0 <= a0 < b0 < final(self).layers@.len() implies (#[trigger] final(self).layers@[a0]).id != (#[trigger] final(self).layers@[b0]).id by {
                let a1 = if a0 == ii { jj } else if a0 == jj { ii } else { a0 };
                let b1 = if b0 == ii { jj } else if b0 == jj { ii } else { b0 };
                if a1 < b1 {
                    assert(pre[a1].id != pre[b1].id);
                } else if b1 < a1 {
                    assert(pre[b1].id != pre[a1].id);
                }
            }
        }
    }

    /// Swaps the active layer with the one above it and follows it there;
    /// at the top the stack is unchanged apart from the dropped memo.
    /// Hands back the moved layer's id.
    pub fn move_layer_up(&mut self) -> (id: u32)
        requires
            old(self).wf(),
        ensures
            final(self).wf(),
            id == old(self).lviews()[old(self).active as int].id,
            ({
                let a = old(self).active as int;
                let n = old(self).layers@.len();
                if a + 1 < n {
                    final(self).lviews() == seq_swapped(old(self).lviews(), a, a + 1)
                        && final(self).id_list@ == seq_swapped(old(self).id_list@, a, a + 1)
                        && final(self).active == a + 1
                } else {
                    final(self).lviews() == old(self).lviews() && final(self).id_list@ == old(self).id_list@ && final(self).active == a
                }
            }),
            final(self).last_pos == old(self).last_pos,
            final(self).rendered is None,
    {
        let a = self.active;
        let n = self.layers.len();
        let new_index = if a + 1 < n {
            a + 1
        } else {
            a
        };
        self.swap_adjacent(a, new_index);
        self.active = new_index;
        proof {
            if new_index == a {
                assert(final(self).lviews() =~= old(self).lviews());
                assert(final(self).id_list@ =~= old(self).id_list@);
            }
        }
        self.layers[new_index].id
    }

    /// Swaps the active layer with the one below it and follows it there.
    pub fn move_layer_down(&mut self) -> (id: u32)
        requires
            old(self).wf(),
        ensures
            final(self).wf(),
            id == old(self).lviews()[old(self).active as int].id,
            ({
                let a = old(self).active as int;
                if a > 0 {
                    final(self).lviews() == seq_swapped(old(self).lviews(), a, a - 1)
                        && final(self).id_list@ == seq_swapped(old(self).id_list@, a, a - 1)
                        && final(self).active == a - 1
                } else {
                    final(self).lviews() == old(self).lviews() && final(self).id_list@ == old(self).id_list@ && final(self).active == a
                }
            }),
            final(self).last_pos == old(self).last_pos,
            final(self).rendered is None,
    {
        let a = self.active;
        let new_index = if a > 0 {
            a - 1
        } else {
            a
        };
        self.swap_adjacent(a, new_index);
        self.active = new_index;
        proof {
            if new_index == a {
                assert(final(self).lviews() =~= old(self).lviews());
                assert(final(self).id_list@ =~= old(self).id_list@);
            }
        }
        self.layers[new_index].id
    }

    /// Moves the layer carrying `id` one position up and makes it active.
    /// Nothing happens, and `false` comes back, when the id is unknown or
    /// the layer is already on top.
    pub fn move_layer_up_by_id(&mut self, layer_id: u32) -> (moved: bool)
        requires
            old(self).wf(),
        ensures
            final(self).wf(),
            ({
                let s = old(self).lviews();
                let k = index_of_id(s, layer_id);
                if has_layer_id(s, layer_id) && k + 1 < s.len() {
                    moved && final(self).lviews() == seq_swapped(s, k, k + 1) && final(self).id_list@ == seq_swapped(old(self).id_list@, k, k + 1) && final(self).active
                        == k + 1 && final(self).rendered is None
                } else {
                    !moved && *final(self) == *old(self)
                }
            }),
            final(self).last_pos == old(self).last_pos,
    {
        let n = self.layers.len();
        match self.layer_index_by_id(layer_id) {
            Option::None => false,
            Option::Some(k) => {
                if k + 1 < n {
                    self.swap_adjacent(k, k + 1);
                    self.active = k + 1;
                    true
                } else {
                    false
                }
            },
        }
    }

    /// Moves the layer carrying `id` one position down and makes it
    /// active; unknown ids and the bottom position leave the stack alone.
    pub fn move_layer_down_by_id(&mut self, layer_id: u32) -> (moved: bool)
        requires
            old(self).wf(),
        ensures
            final(self).wf(),
            ({
                let s = old(self).lviews();
                let k = index_of_id(s, layer_id);
                if has_layer_id(s, layer_id) && k > 0 {
                    moved && final(self).lviews() == seq_swapped(s, k, k - 1) && final(self).id_list@ == seq_swapped(old(self).id_list@, k, k - 1) && final(self).active
                        == k - 1 && final(self).rendered is None
                } else {
                    !moved && *final(self) == *old(self)
                }
            }),
            final(self).last_pos == old(self).last_pos,
    {
        match self.layer_index_by_id(layer_id) {
            Option::None => false,
            Option::Some(k) => {
                if k > 0 {
                    self.swap_adjacent(k, k - 1);
                    self.active = k - 1;
                    true
                } else {
                    false
                }
            },
        }
    }

    /// Name and visibility of every layer, top first, each with its
    /// display position.
    pub fn get_display_info(&self) -> (r: Vec<(usize, (String, bool))>)
        requires
            self.wf(),
        ensures
            r@.len() == self.layers@.len(),
            forall|i: int|
                0 <= i < r@.len() ==> (#[trigger] r@[i]).0 == i && r@[i].1.0@ == self.lviews()[
                    self.layers@.len() - 1 - i
                ].name && r@[i].1.1 == self.lviews()[self.layers@.len() - 1 - i].visible,
    {
        let n = self.layers.len();
        let mut out: Vec<(usize, (String, bool))> = Vec::new();
        for i in 0..n
            invariant
                self.wf(),
                n == self.layers@.len(),
                out@.len() == i,
                forall|j: int|
                    0 <= j < i ==> (#[trigger] out@[j]).0 == j && out@[j].1.0@ == self.lviews()[
                        n - 1 - j
                    ].name && out@[j].1.1 == self.lviews()[n - 1 - j].visible,
        {
            let src = n - 1 - i;
            out.push((i, (self.layers[src].name.clone(), self.layers[src].visible)));
        }
        out
    }

    /// Removes the layer carrying `id`, when it exists; the active index
    /// is clamped back into range, and a stack left empty is refilled
    /// with one fresh layer. Used by undo of an addition.
    pub fn remove_layer_by_id(&mut self, id: u32)
        requires
            old(self).wf(),
        ensures
            final(self).wf(),
            ({
                let s = old(self).lviews();
                let k = index_of_id(s, id);
                if has_layer_id(s, id) && s.len() > 1 {
                    final(self).lviews() == s.remove(k) && final(self).id_list@ == old(self).id_list@.remove(k) && final(self).rendered is None && final(self).active
                        == if old(self).active < s.len() - 1 {
                        old(self).active as int
                    } else {
                        s.len() - 2
                    }
                } else if has_layer_id(s, id) {
                    final(self).lviews().len() == 1 && final(self).lviews()[0].name
                        == "New Layer"@ && final(self).lviews()[0].visible && final(self).lviews()[0].cells
                        == Map::<Coord, Cell>::empty() && final(self).active == 0 && final(self).rendered is None
                } else {
                    *final(self) == *old(self)
                }
            }),
            final(self).last_pos == old(self).last_pos,
    {
        match self.layer_index_by_id(id) {
            Option::None => {},
            Option::Some(k) => {
                self.queue_render();
                self.layers.remove(k);
                self.id_list.remove(k);
                if self.layers.len() == 0 {
                    let (fresh, fid) = Layer::new();
                    self.layers.push(fresh);
                    self.id_list.push(fid);
                    self.active = 0;
                    return ;
                }
                let n = self.layers.len();
                if self.active >= n {
                    self.active = n - 1;
                }
                proof {
                    assert(final(self).lviews() =~= old(self).lviews().remove(k as int));
                    assert(final(self).id_list@ =~= old(self).id_list@.remove(k as int));
                    let pre = old(self).layers@;
                    let ki = k as int;
                    assert forall|i: int, j: int|
                        0 <= i < j < final(self).layers@.len() implies (#[trigger] final(self).layers@[i]).id != (#[trigger] final(self).layers@[j]).id by {
                        let i0 = if i < ki { i } else { i + 1 };
                        let j0 = if j < ki { j } else { j + 1 };
                        assert(pre[i0].id != pre[j0].id);
                    }
                }
            },
        }
    }

    /// Appends a fresh, empty, visible layer under a caller-chosen id.
    /// Used by redo of an addition, which must revive the original id.
    pub fn add_layer_with_id(&mut self, id: u32)
        requires
            old(self).wf(),
            !old(self).id_list@.contains(id),
            old(self).layers@.len() + 1 < u32::MAX as int,
        ensures
            final(self).wf(),
            final(self).lviews() == old(self).lviews().push(
                LayerView {
                    name: "New Layer"@,
                    visible: true,
                    id: id,
                    cells: Map::<Coord, Cell>::empty(),
                },
            ),
            final(self).id_list@ == old(self).id_list@.push(id),
            final(self).active == old(self).active,
            final(self).last_pos == old(self).last_pos,
            final(self).rendered is None,
    {
        self.queue_render();
        let layer = Layer::with_id(id);
        self.layers.push(layer);
        self.id_list.push(id);
        proof {
            assert(final(self).lviews() =~= old(self).lviews().push(
                LayerView {
                    name: "New Layer"@,
                    visible: true,
                    id: id,
                    cells: Map::<Coord, Cell>::empty(),
                },
            ));
            assert forall|i: int, j: int|
                0 <= i < j < final(self).layers@.len() implies (#[trigger] final(self).layers@[i]).id
                != (#[trigger] final(self).layers@[j]).id by {
                if j == final(self).layers@.len() - 1 {
                    assert(old(self).id_list@[i] == old(self).layers@[i].id);
                    assert(old(self).id_list@.contains(old(self).layers@[i].id));
                }
            }
        }
    }

    /// Writes a whole patch onto the layer carrying `id` and hands back
    /// the inverse patch: what those coordinates held before. An unknown
    /// id changes nothing and yields the empty patch.
    pub fn apply_patch_by_id(&mut self, id: u32, patch: &LayerData) -> (inv: LayerData)
        requires
            old(self).wf(),
        ensures
            final(self).wf(),
            ({
                let s = old(self).lviews();
                let k = index_of_id(s, id);
                if has_layer_id(s, id) {
                    final(self).lviews() == s.update(
                        k,
                        LayerView {
                            cells: s[k].cells.union_prefer_right(patch.as_map()),
                            ..s[k]
                        },
                    ) && inv.as_map() == capture(s[k].cells, patch.as_map().dom())
                } else {
                    final(self).lviews() == s && inv.as_map() == Map::<Coord, Cell>::empty()
                }
            }),
            final(self).id_list == old(self).id_list,
            final(self).active == old(self).active,
            final(self).last_pos == old(self).last_pos,
            final(self).rendered is None,
    {
        self.queue_render();
        match self.layer_index_by_id(id) {
            Option::None => CoordMap::new(),
            Option::Some(k) => {
                let inv = self.layers[k].data.apply_patch(patch);
                proof {
                    let s = old(self).lviews();
                    let ki = k as int;
                    assert(final(self).lviews() =~= s.update(
                        ki,
                        LayerView {
                            cells: s[ki].cells.union_prefer_right(patch.as_map()),
                            ..s[ki]
                        },
                    ));
                }
                inv
            },
        }
    }
}

impl Layers {
    /// Drops, on every layer, the cells outside a `width` by `height`
    /// screen, as a terminal resize does.
    pub fn retain_all_within(&mut self, width: u16, height: u16)
        requires
            old(self).wf(),
        ensures
            final(self).wf(),
            final(self).lviews().len() == old(self).lviews().len(),
            forall|i: int|
                0 <= i < old(self).lviews().len() ==> final(self).lviews()[i] == (LayerView {
                    cells: (#[trigger] old(self).lviews()[i]).cells.restrict(
                        crate::grid::within_bounds(width, height),
                    ),
                    ..old(self).lviews()[i]
                }),
            final(self).active == old(self).active,
            final(self).id_list == old(self).id_list,
            final(self).last_pos == old(self).last_pos,
            final(self).rendered is None,
    {
        self.queue_render();
        let n = self.layers.len();
        for i in 0..n
            invariant
                n == self.layers@.len(),
                n == old(self).layers@.len(),
                self.id_list == old(self).id_list,
                self.active == old(self).active,
                self.last_pos == old(self).last_pos,
                self.rendered is None,
                old(self).wf(),
                forall|j: int|
                    0 <= j < n ==> (#[trigger] self.layers@[j]).id == old(self).layers@[j].id,
                forall|j: int|
                    0 <= j < i ==> self.lviews()[j] == (LayerView {
                        cells: (#[trigger] old(self).lviews()[j]).cells.restrict(
                            crate::grid::within_bounds(width, height),
                        ),
                        ..old(self).lviews()[j]
                    }),
                forall|j: int|
                    i <= j < n ==> (#[trigger] self.layers@[j]) == old(self).layers@[j],
        {
            self.layers[i].data.retain_within(width, height);
        }
    }
}

/// Stacks whose layers show the same cells composite to the same map;
/// names and ids do not weigh in.
pub proof fn lemma_composite_same_shown(a: Seq<LayerView>, b: Seq<LayerView>)
    requires
        a.len() == b.len(),
        forall|i: int| 0 <= i < a.len() ==> (#[trigger] a[i]).shown() == b[i].shown(),
    ensures
        composite_over(a) == composite_over(b),
    decreases a.len(),
{
    if a.len() > 0 {
        assert(forall|i: int|
            0 <= i < a.drop_last().len() ==> (#[trigger] a.drop_last()[i]).shown()
                == b.drop_last()[i].shown());
        lemma_composite_same_shown(a.drop_last(), b.drop_last());
        assert(a.last().shown() == b[a.len() - 1].shown());
    }
}

impl Default for Layers {
    /// A stack holding one fresh layer.
    fn default() -> (r: Layers)
        ensures
            r.wf(),
            r.layers@.len() == 1,
            r.lviews()[0].name == "New Layer"@,
            r.lviews()[0].visible,
            r.lviews()[0].cells == Map::<Coord, Cell>::empty(),
            r.lviews()[0].id == r.id_list@[0],
            r.active == 0,
            r.last_pos is None,
            r.rendered is None,
    {
        let (layer, id) = Layer::new();
        let mut layers: Vec<Layer> = Vec::new();
        layers.push(layer);
        let mut id_list: Vec<u32> = Vec::new();
        id_list.push(id);
        Layers { layers, last_pos: Option::None, active: 0, id_list, rendered: Option::None }
    }
}

} // verus!
