use vstd::prelude::*;
use crate::brush::Brush;
use crate::cell::{empty_cell, Cell};
use crate::charpicker::CharPicker;
use crate::grid::{Coord, CoordMap};
use crate::history::{ActionView, History, HistoryAction};
use crate::input::InputCapture;
use crate::layer::{capture, LayerData, LayerView};
use crate::layers::{
    has_layer_id, index_of_id, seq_swapped, Layers,
};
use crate::palette::Palette;
use crate::stroke::{connect_points, stroke_path};
use crate::tools::{brush_cell, erased_cells, painted_cells, path_fp, tool_fp};
use crate::TOOLBOX_WIDTH;

verus! {

/// The whole editor state: the canvas, its history, and the current
/// input, palette, character and brush settings.
pub struct App {
    pub running: bool,
    pub layers: Layers,
    pub input_capture: InputCapture,
    pub history: History,
    pub palette: Palette,
    pub char_picker: CharPicker,
    pub brush: Brush,
}

impl App {
    /// Every component is sound.
    pub open spec fn wf(self) -> bool {
        &&& self.layers.wf()
        &&& self.palette.wf()
        &&& self.input_capture.text_area.wf()
        &&& self.input_capture.color_picker.text.wf()
        &&& self.char_picker.wf()
    }

    /// The cells of the active layer.
    pub open spec fn active_cells(self) -> Map<Coord, Cell> {
        self.layers.lviews()[self.layers.active as int].cells
    }
}

/// Everything outside the canvas and the history is untouched.
pub open spec fn core_unchanged(pre: App, post: App) -> bool {
    &&& post.running == pre.running
    &&& post.brush == pre.brush
    &&& post.palette == pre.palette
    &&& post.char_picker == pre.char_picker
    &&& post.input_capture == pre.input_capture
}

/// What removing the layer carrying `id` does to a stack: the layer
/// leaves and the active index reclamps; a stack left empty refills with
/// one fresh layer; an unknown id changes nothing.
pub open spec fn removed_by_id_effect(pre: Layers, id: u32, post: Layers) -> bool {
    let s = pre.lviews();
    let k = index_of_id(s, id);
    if has_layer_id(s, id) && s.len() > 1 {
        &&& post.lviews() == s.remove(k)
        &&& post.id_list@ == pre.id_list@.remove(k)
        &&& post.active == if pre.active < s.len() - 1 {
            pre.active as int
        } else {
            s.len() - 2
        }
    } else if has_layer_id(s, id) {
        &&& post.lviews().len() == 1
        &&& post.lviews()[0].name == "New Layer"@
        &&& post.lviews()[0].visible
        &&& post.lviews()[0].cells == Map::<Coord, Cell>::empty()
        &&& post.active == 0
    } else {
        &&& post.lviews() == s
        &&& post.id_list@ == pre.id_list@
        &&& post.active == pre.active
    }
}

/// What moving the layer carrying `id` one position up does to a stack.
pub open spec fn moved_up_effect(pre: Layers, id: u32, post: Layers) -> bool {
    let s = pre.lviews();
    let k = index_of_id(s, id);
    if has_layer_id(s, id) && k + 1 < s.len() {
        &&& post.lviews() == seq_swapped(s, k, k + 1)
        &&& post.id_list@ == seq_swapped(pre.id_list@, k, k + 1)
        &&& post.active == k + 1
    } else {
        &&& post.lviews() == s
        &&& post.id_list@ == pre.id_list@
        &&& post.active == pre.active
    }
}

/// What moving the layer carrying `id` one position down does to a stack.
pub open spec fn moved_down_effect(pre: Layers, id: u32, post: Layers) -> bool {
    let s = pre.lviews();
    let k = index_of_id(s, id);
    if has_layer_id(s, id) && k > 0 {
        &&& post.lviews() == seq_swapped(s, k, k - 1)
        &&& post.id_list@ == seq_swapped(pre.id_list@, k, k - 1)
        &&& post.active == k - 1
    } else {
        &&& post.lviews() == s
        &&& post.id_list@ == pre.id_list@
        &&& post.active == pre.active
    }
}

/// Whether a removed layer can be put back as it was: its id is free
/// again, its position still fits, and the stack has room.
pub open spec fn undo_remove_ok(pre: App, lv: LayerView, pos: int) -> bool {
    &&& !has_layer_id(pre.layers.lviews(), lv.id)
    &&& 0 <= pos <= pre.layers.lviews().len()
    &&& pre.layers.lviews().len() + 1 < u32::MAX as int
}

/// What taking back the most recent step does, step form by step form.
/// A step whose target is gone (or, for a reinsertion, impossible) stays
/// on the past stack and changes nothing else.
pub open spec fn undo_applies(pre: App, act: ActionView, post: App) -> bool {
    match act {
        ActionView::LayerAdded(id) => {
            &&& post.history.past_v() == pre.history.past_v().drop_last()
            &&& post.history.future_v() == pre.history.future_v().push(act)
            &&& removed_by_id_effect(pre.layers, id, post.layers)
        },
        ActionView::LayerRemoved(lv, pos) => {
            if undo_remove_ok(pre, lv, pos) {
                &&& post.history.past_v() == pre.history.past_v().drop_last()
                &&& post.history.future_v() == pre.history.future_v().push(act)
                &&& post.layers.lviews() == pre.layers.lviews().insert(pos, lv)
                &&& post.layers.id_list@ == pre.layers.id_list@.insert(pos, lv.id)
                &&& post.layers.active == pre.layers.active
            } else {
                &&& post.history.past_v() == pre.history.past_v()
                &&& post.history.future_v() == pre.history.future_v()
                &&& post.layers.lviews() == pre.layers.lviews()
                &&& post.layers.id_list@ == pre.layers.id_list@
                &&& post.layers.active == pre.layers.active
            }
        },
        ActionView::LayerRenamed(id, name) => {
            let s = pre.layers.lviews();
            let k = index_of_id(s, id);
            if has_layer_id(s, id) {
                &&& post.history.past_v() == pre.history.past_v().drop_last()
                &&& post.history.future_v() == pre.history.future_v().push(
                    ActionView::LayerRenamed(id, s[k].name),
                )
                &&& post.layers.lviews() == s.update(k, LayerView { name: name, ..s[k] })
                &&& post.layers.id_list@ == pre.layers.id_list@
                &&& post.layers.active == pre.layers.active
            } else {
                &&& post.history.past_v() == pre.history.past_v()
                &&& post.history.future_v() == pre.history.future_v()
                &&& post.layers.lviews() == s
                &&& post.layers.id_list@ == pre.layers.id_list@
                &&& post.layers.active == pre.layers.active
            }
        },
        ActionView::Draw(id, patch) => {
            let s = pre.layers.lviews();
            let k = index_of_id(s, id);
            if has_layer_id(s, id) {
                &&& post.history.past_v() == pre.history.past_v().drop_last()
                &&& post.history.future_v() == pre.history.future_v().push(
                    ActionView::Draw(id, capture(s[k].cells, patch.dom())),
                )
                &&& post.layers.lviews() == s.update(
                    k,
                    LayerView { cells: s[k].cells.union_prefer_right(patch), ..s[k] },
                )
                &&& post.layers.id_list@ == pre.layers.id_list@
                &&& post.layers.active == pre.layers.active
            } else {
                &&& post.history.past_v() == pre.history.past_v()
                &&& post.history.future_v() == pre.history.future_v()
                &&& post.layers.lviews() == s
                &&& post.layers.id_list@ == pre.layers.id_list@
                &&& post.layers.active == pre.layers.active
            }
        },
        ActionView::LayerUp(id) => {
            &&& post.history.past_v() == pre.history.past_v().drop_last()
            &&& post.history.future_v() == pre.history.future_v().push(act)
            &&& moved_down_effect(pre.layers, id, post.layers)
        },
        ActionView::LayerDown(id) => {
            &&& post.history.past_v() == pre.history.past_v().drop_last()
            &&& post.history.future_v() == pre.history.future_v().push(act)
            &&& moved_up_effect(pre.layers, id, post.layers)
        },
    }
}

/// What replaying the most recent undone step does: the mirror image of
/// `undo_applies`, popping the future stack and pushing the past.
pub open spec fn redo_applies(pre: App, act: ActionView, post: App) -> bool {
    match act {
        ActionView::LayerAdded(id) => {
            if !has_layer_id(pre.layers.lviews(), id) && pre.layers.lviews().len() + 1
                < u32::MAX as int {
                &&& post.history.future_v() == pre.history.future_v().drop_last()
                &&& post.history.past_v() == pre.history.past_v().push(act)
                &&& post.layers.lviews() == pre.layers.lviews().push(
                    LayerView {
                        name: "New Layer"@,
                        visible: true,
                        id: id,
                        cells: Map::<Coord, Cell>::empty(),
                    },
                )
                &&& post.layers.id_list@ == pre.layers.id_list@.push(id)
                &&& post.layers.active == pre.layers.active
            } else {
                &&& post.history.future_v() == pre.history.future_v()
                &&& post.history.past_v() == pre.history.past_v()
                &&& post.layers.lviews() == pre.layers.lviews()
                &&& post.layers.id_list@ == pre.layers.id_list@
                &&& post.layers.active == pre.layers.active
            }
        },
        ActionView::LayerRemoved(lv, pos) => {
            &&& post.history.future_v() == pre.history.future_v().drop_last()
            &&& post.history.past_v() == pre.history.past_v().push(act)
            &&& removed_by_id_effect(pre.layers, lv.id, post.layers)
        },
        ActionView::LayerRenamed(id, name) => {
            let s = pre.layers.lviews();
            let k = index_of_id(s, id);
            if has_layer_id(s, id) {
                &&& post.history.future_v() == pre.history.future_v().drop_last()
                &&& post.history.past_v() == pre.history.past_v().push(
                    ActionView::LayerRenamed(id, s[k].name),
                )
                &&& post.layers.lviews() == s.update(k, LayerView { name: name, ..s[k] })
                &&& post.layers.id_list@ == pre.layers.id_list@
                &&& post.layers.active == pre.layers.active
            } else {
                &&& post.history.future_v() == pre.history.future_v()
                &&& post.history.past_v() == pre.history.past_v()
                &&& post.layers.lviews() == s
                &&& post.layers.id_list@ == pre.layers.id_list@
                &&& post.layers.active == pre.layers.active
            }
        },
        ActionView::Draw(id, patch) => {
            let s = pre.layers.lviews();
            let k = index_of_id(s, id);
            if has_layer_id(s, id) {
                &&& post.history.future_v() == pre.history.future_v().drop_last()
                &&& post.history.past_v() == pre.history.past_v().push(
                    ActionView::Draw(id, capture(s[k].cells, patch.dom())),
                )
                &&& post.layers.lviews() == s.update(
                    k,
                    LayerView { cells: s[k].cells.union_prefer_right(patch), ..s[k] },
                )
                &&& post.layers.id_list@ == pre.layers.id_list@
                &&& post.layers.active == pre.layers.active
            } else {
                &&& post.history.future_v() == pre.history.future_v()
                &&& post.history.past_v() == pre.history.past_v()
                &&& post.layers.lviews() == s
                &&& post.layers.id_list@ == pre.layers.id_list@
                &&& post.layers.active == pre.layers.active
            }
        },
        ActionView::LayerUp(id) => {
            &&& post.history.future_v() == pre.history.future_v().drop_last()
            &&& post.history.past_v() == pre.history.past_v().push(act)
            &&& moved_up_effect(pre.layers, id, post.layers)
        },
        ActionView::LayerDown(id) => {
            &&& post.history.future_v() == pre.history.future_v().drop_last()
            &&& post.history.past_v() == pre.history.past_v().push(act)
            &&& moved_down_effect(pre.layers, id, post.layers)
        },
    }
}

impl Default for App {
    /// A stopped editor over a fresh one-layer canvas.
    fn default() -> (a: App)
        ensures
            a.wf(),
            !a.running,
            a.layers.layers@.len() == 1,
            a.layers.lviews()[0].cells == Map::<Coord, Cell>::empty(),
            a.layers.active == 0,
            a.layers.last_pos is None,
            a.history.past_v() == Seq::<ActionView>::empty(),
            a.history.future_v() == Seq::<ActionView>::empty(),
            a.history.partial_v() is None,
    {
        App {
            running: false,
            layers: Layers::default(),
            input_capture: InputCapture::default(),
            history: History::default(),
            palette: Palette::default(),
            char_picker: CharPicker::default(),
            brush: Brush::default(),
        }
    }
}

impl App {
    /// A running editor over a fresh one-layer canvas.
    pub fn new() -> (a: App)
        ensures
            a.wf(),
            a.running,
            a.layers.layers@.len() == 1,
            a.layers.lviews()[0].cells == Map::<Coord, Cell>::empty(),
            a.history.past_v() == Seq::<ActionView>::empty(),
            a.history.future_v() == Seq::<ActionView>::empty(),
            a.history.partial_v() is None,
    {
        let mut a = App::default();
        a.running = true;
        a
    }

    /// Asks the surrounding loop to stop.
    pub fn quit(&mut self)
        ensures
            *final(self) == (App { running: false, ..*old(self) }),
    {
        self.running = false;
    }

    /// Adapts to a new terminal size: pending click regions are dropped
    /// and every layer loses the cells that no longer fit on screen.
    pub fn resize(&mut self, width: u16, height: u16)
        requires
            old(self).wf(),
        ensures
            final(self).wf(),
            final(self).layers.lviews().len() == old(self).layers.lviews().len(),
            forall|i: int|
                0 <= i < old(self).layers.lviews().len() ==> final(self).layers.lviews()[i]
                    == (LayerView {
                    cells: (#[trigger] old(self).layers.lviews()[i]).cells.restrict(
                        crate::grid::within_bounds(width, height),
                    ),
                    ..old(self).layers.lviews()[i]
                }),
            final(self).layers.active == old(self).layers.active,
            final(self).layers.id_list == old(self).layers.id_list,
            final(self).history == old(self).history,
            final(self).input_capture.normal_input.as_map() == Map::<
                Coord,
                crate::clicks::ClickAction,
            >::empty(),
            final(self).brush == old(self).brush,
            final(self).palette == old(self).palette,
            final(self).running == old(self).running,
    {
        self.input_capture.clear();
        self.layers.retain_all_within(width, height);
    }

    /// Clears the cell at the pointer on the active layer, handing back
    /// the cell that stood there (the empty sentinel for none). A fresh
    /// edit, so the redo stack empties.
    pub fn erase(&mut self, x: u16, y: u16) -> (c: Cell)
        requires
            old(self).wf(),
        ensures
            final(self).wf(),
            core_unchanged(*old(self), *final(self)),
            final(self).layers.lviews() == old(self).layers.lviews().update(
                old(self).layers.active as int,
                LayerView {
                    cells: old(self).active_cells().remove((x, y)),
                    ..old(self).layers.lviews()[old(self).layers.active as int]
                },
            ),
            c == if old(self).active_cells().contains_key((x, y)) {
                old(self).active_cells()[(x, y)]
            } else {
                empty_cell()
            },
            final(self).layers.active == old(self).layers.active,
            final(self).layers.id_list == old(self).layers.id_list,
            final(self).layers.last_pos == old(self).layers.last_pos,
            final(self).layers.rendered is None,
            final(self).history.past_v() == old(self).history.past_v(),
            final(self).history.future_v() == Seq::<ActionView>::empty(),
            final(self).history.partial_v() == old(self).history.partial_v(),
    {
        let r = self.layers.remove_cell_active((x, y));
        self.history.forget_redo();
        match r {
            Option::Some(c) => c,
            Option::None => Cell::empty(),
        }
    }

    /// Writes the brush's cell at the pointer on the active layer,
    /// handing back the cell that stood there. A fresh edit, so the redo
    /// stack empties.
    pub fn put_cell(&mut self, x: u16, y: u16) -> (c: Cell)
        requires
            old(self).wf(),
        ensures
            final(self).wf(),
            core_unchanged(*old(self), *final(self)),
            final(self).layers.lviews() == old(self).layers.lviews().update(
                old(self).layers.active as int,
                LayerView {
                    cells: old(self).active_cells().insert(
                        (x, y),
                        Cell {
                            fg: old(self).brush.fg,
                            bg: old(self).brush.bg,
                            glyph: old(self).brush.glyph,
                        },
                    ),
                    ..old(self).layers.lviews()[old(self).layers.active as int]
                },
            ),
            c == if old(self).active_cells().contains_key((x, y)) {
                old(self).active_cells()[(x, y)]
            } else {
                empty_cell()
            },
            final(self).layers.active == old(self).layers.active,
            final(self).layers.id_list == old(self).layers.id_list,
            final(self).layers.last_pos == old(self).layers.last_pos,
            final(self).layers.rendered is None,
            final(self).history.past_v() == old(self).history.past_v(),
            final(self).history.future_v() == Seq::<ActionView>::empty(),
            final(self).history.partial_v() == old(self).history.partial_v(),
    {
        let cell = self.brush.as_cell();
        let r = self.layers.insert_cell_active((x, y), cell);
        self.history.forget_redo();
        match r {
            Option::Some(c) => c,
            Option::None => Cell::empty(),
        }
    }

    /// Writes an arbitrary cell at the pointer on the active layer, as a
    /// bulk import does, handing back the cell that stood there.
    pub fn insert_at_cell(&mut self, x: u16, y: u16, cell: Cell) -> (c: Cell)
        requires
            old(self).wf(),
        ensures
            final(self).wf(),
            core_unchanged(*old(self), *final(self)),
            final(self).layers.lviews() == old(self).layers.lviews().update(
                old(self).layers.active as int,
                LayerView {
                    cells: old(self).active_cells().insert((x, y), cell),
                    ..old(self).layers.lviews()[old(self).layers.active as int]
                },
            ),
            c == if old(self).active_cells().contains_key((x, y)) {
                old(self).active_cells()[(x, y)]
            } else {
                empty_cell()
            },
            final(self).layers.active == old(self).layers.active,
            final(self).layers.id_list == old(self).layers.id_list,
            final(self).layers.last_pos == old(self).layers.last_pos,
            final(self).layers.rendered is None,
            final(self).history.past_v() == old(self).history.past_v(),
            final(self).history.future_v() == Seq::<ActionView>::empty(),
            final(self).history.partial_v() == old(self).history.partial_v(),
    {
        let r = self.layers.insert_cell_active((x, y), cell);
        self.history.forget_redo();
        match r {
            Option::Some(c) => c,
            Option::None => Cell::empty(),
        }
    }

    /// Removes the active layer and records the removal, full layer value
    /// and position included, so undo can put it back. A fresh edit, so
    /// the redo stack empties.
    pub fn remove_active_layer(&mut self)
        requires
            old(self).wf(),
        ensures
            final(self).wf(),
            core_unchanged(*old(self), *final(self)),
            final(self).history.past_v() == old(self).history.past_v().push(
                ActionView::LayerRemoved(
                    old(self).layers.lviews()[old(self).layers.active as int],
                    old(self).layers.active as int,
                ),
            ),
            final(self).history.future_v() == Seq::<ActionView>::empty(),
            final(self).history.partial_v() == old(self).history.partial_v(),
            old(self).layers.lviews().len() > 1 ==> {
                &&& final(self).layers.lviews() == old(self).layers.lviews().remove(
                    old(self).layers.active as int,
                )
                &&& final(self).layers.id_list@ == old(self).layers.id_list@.remove(
                    old(self).layers.active as int,
                )
                &&& final(self).layers.active == if old(self).layers.active > 0 {
                    (old(self).layers.active - 1) as int
                } else {
                    0
                }
            },
            old(self).layers.lviews().len() == 1 ==> {
                &&& final(self).layers.lviews().len() == 1
                &&& final(self).layers.lviews()[0].name == "New Layer"@
                &&& final(self).layers.lviews()[0].visible
                &&& final(self).layers.lviews()[0].cells == Map::<Coord, Cell>::empty()
                &&& final(self).layers.active == 0
            },
            final(self).layers.rendered is None,
            final(self).layers.last_pos == old(self).layers.last_pos,
    {
        let (layer, index) = self.layers.remove_active_layer();
        self.history.remove_layer(layer, index);
        self.history.forget_redo();
    }

    /// Renames the active layer to the text box's contents and records
    /// the previous name; an empty box refuses and changes nothing.
    pub fn apply_rename(&mut self) -> (r: Option<()>)
        requires
            old(self).wf(),
        ensures
            final(self).wf(),
            old(self).input_capture.text_area.buffer@.len() == 0 ==> r is None && *final(self)
                == *old(self),
            old(self).input_capture.text_area.buffer@.len() > 0 ==> {
                &&& r is Some
                &&& core_unchanged(*old(self), *final(self))
                &&& final(self).layers.lviews() == old(self).layers.lviews().update(
                    old(self).layers.active as int,
                    LayerView {
                        name: old(self).input_capture.text_area.buffer@,
                        ..old(self).layers.lviews()[old(self).layers.active as int]
                    },
                )
                &&& final(self).layers.active == old(self).layers.active
                &&& final(self).layers.id_list == old(self).layers.id_list
                &&& final(self).layers.last_pos == old(self).layers.last_pos
                &&& final(self).layers.rendered == old(self).layers.rendered
                &&& final(self).history.past_v() == old(self).history.past_v().push(
                    ActionView::LayerRenamed(
                        old(self).layers.lviews()[old(self).layers.active as int].id,
                        old(self).layers.lviews()[old(self).layers.active as int].name,
                    ),
                )
                &&& final(self).history.future_v() == Seq::<ActionView>::empty()
                &&& final(self).history.partial_v() == old(self).history.partial_v()
            },
    {
        let new_name = match self.input_capture.text_area.get() {
            Option::Some(s) => s,
            Option::None => {
                return Option::None;
            },
        };
        let (id, old_name) = self.layers.rename_layer(new_name);
        self.history.rename_layer(id, old_name);
        self.history.forget_redo();
        Option::Some(())
    }

    /// Starts over: fresh canvas, empty history, default palette and
    /// brush. The input state and character table stay as they are.
    pub fn reset(&mut self)
        ensures
            final(self).wf() <== old(self).wf(),
            final(self).layers.lviews().len() == 1,
            final(self).layers.lviews()[0].cells == Map::<Coord, Cell>::empty(),
            final(self).layers.active == 0,
            final(self).history.past_v() == Seq::<ActionView>::empty(),
            final(self).history.future_v() == Seq::<ActionView>::empty(),
            final(self).history.partial_v() is None,
            final(self).brush.size == 1,
            final(self).palette.wf(),
            final(self).input_capture == old(self).input_capture,
            final(self).char_picker == old(self).char_picker,
            final(self).running == old(self).running,
    {
        self.layers = Layers::default();
        self.history = History::default();
        self.palette = Palette::default();
        self.brush = Brush::default();
        self.layers.queue_render();
    }

    /// Takes back the most recent step: a draw patch is written back
    /// (capturing the new inverse), a structural step is literally
    /// reversed; the reversed step moves to the redo stack. With nothing
    /// to undo, nothing happens.
    pub fn undo(&mut self)
        requires
            old(self).wf(),
        ensures
            final(self).wf(),
            core_unchanged(*old(self), *final(self)),
            old(self).history.past_v().len() == 0 ==> *final(self) == *old(self),
            old(self).history.past_v().len() > 0 ==> {
                &&& final(self).history.partial_v() == old(self).history.partial_v()
                &&& final(self).layers.rendered is None
                &&& final(self).layers.last_pos == old(self).layers.last_pos
                &&& undo_applies(*old(self), old(self).history.past_v().last(), *final(self))
            },
    {
        if self.history.past.len() == 0 {
            return ;
        }
        let act_opt = self.history.past.pop();
        let action = match act_opt {
            Option::Some(a) => a,
            Option::None => {
                proof {
                    assert(false);
                }
                return ;
            },
        };
        proof {
            assert(self.history.past_v() =~= old(self).history.past_v().drop_last());
            assert(action@ == old(self).history.past_v().last());
        }
        match action {
            HistoryAction::LayerAdded(id) => {
                self.layers.remove_layer_by_id(id);
                self.history.future.push(HistoryAction::LayerAdded(id));
                proof {
                    assert(self.history.future_v() =~= old(self).history.future_v().push(
                        ActionView::LayerAdded(id),
                    ));
                }
            },
            HistoryAction::LayerRemoved(layer, index) => {
                let id_known = match self.layers.layer_index_by_id(layer.id) {
                    Option::Some(_) => true,
                    Option::None => false,
                };
                let n = self.layers.layers.len();
                if !id_known && index <= n && n + 1 < (u32::MAX as usize) {
                    proof {
                        assert(!old(self).layers.id_list@.contains(layer.id)) by {
                            if old(self).layers.id_list@.contains(layer.id) {
                                let i = choose|i: int|
                                    0 <= i < old(self).layers.id_list@.len() && old(self).layers.id_list@[i] == layer.id;
                                assert(old(self).layers.layers@[i].id == layer.id);
                                assert(old(self).layers.lviews()[i].id == layer.id);
                            }
                        }
                    }
                    let snap = layer.duplicate();
                    let ghost lv = layer@;
                    self.layers.insert_layer(layer, index);
                    self.history.future.push(HistoryAction::LayerRemoved(snap, index));
                    proof {
                        assert(self.history.future_v() =~= old(self).history.future_v().push(
                            ActionView::LayerRemoved(lv, index as int),
                        ));
                    }
                } else {
                    self.history.past.push(HistoryAction::LayerRemoved(layer, index));
                    proof {
                        assert(self.history.past_v() =~= old(self).history.past_v());
                    }
                }
            },
            HistoryAction::LayerRenamed(id, old_name) => {
                match self.layers.layer_index_by_id(id) {
                    Option::Some(k) => {
                        let prev = self.layers.rename_layer_at(k, old_name);
                        self.history.future.push(HistoryAction::LayerRenamed(id, prev));
                        proof {
                            assert(self.history.future_v() =~= old(self).history.future_v().push(
                                ActionView::LayerRenamed(
                                    id,
                                    old(self).layers.lviews()[index_of_id(
                                        old(self).layers.lviews(),
                                        id,
                                    )].name,
                                ),
                            ));
                        }
                    },
                    Option::None => {
                        self.history.past.push(HistoryAction::LayerRenamed(id, old_name));
                        proof {
                            assert(self.history.past_v() =~= old(self).history.past_v());
                        }
                    },
                }
            },
            HistoryAction::Draw(layer_id, data) => {
                let id_known = match self.layers.layer_index_by_id(layer_id) {
                    Option::Some(_) => true,
                    Option::None => false,
                };
                if id_known {
                    let inv = self.layers.apply_patch_by_id(layer_id, &data);
                    self.history.future.push(HistoryAction::Draw(layer_id, inv));
                    proof {
                        assert(self.history.future_v() =~= old(self).history.future_v().push(
                            ActionView::Draw(
                                layer_id,
                                capture(
                                    old(self).layers.lviews()[index_of_id(
                                        old(self).layers.lviews(),
                                        layer_id,
                                    )].cells,
                                    data.as_map().dom(),
                                ),
                            ),
                        ));
                    }
                } else {
                    self.history.past.push(HistoryAction::Draw(layer_id, data));
                    proof {
                        assert(self.history.past_v() =~= old(self).history.past_v());
                    }
                }
            },
            HistoryAction::LayerUp(id) => {
                let _moved = self.layers.move_layer_down_by_id(id);
                self.history.future.push(HistoryAction::LayerUp(id));
                proof {
                    assert(self.history.future_v() =~= old(self).history.future_v().push(
                        ActionView::LayerUp(id),
                    ));
                }
            },
            HistoryAction::LayerDown(id) => {
                let _moved = self.layers.move_layer_up_by_id(id);
                self.history.future.push(HistoryAction::LayerDown(id));
                proof {
                    assert(self.history.future_v() =~= old(self).history.future_v().push(
                        ActionView::LayerDown(id),
                    ));
                }
            },
        }
        self.layers.queue_render();
    }

    /// Replays the most recently undone step and moves it back to the
    /// past stack. With nothing to redo, nothing happens.
    pub fn redo(&mut self)
        requires
            old(self).wf(),
        ensures
            final(self).wf(),
            core_unchanged(*old(self), *final(self)),
            old(self).history.future_v().len() == 0 ==> *final(self) == *old(self),
            old(self).history.future_v().len() > 0 ==> {
                &&& final(self).history.partial_v() == old(self).history.partial_v()
                &&& final(self).layers.rendered is None
                &&& final(self).layers.last_pos == old(self).layers.last_pos
                &&& redo_applies(*old(self), old(self).history.future_v().last(), *final(self))
            },
    {
        if self.history.future.len() == 0 {
            return ;
        }
        let act_opt = self.history.future.pop();
        let action = match act_opt {
            Option::Some(a) => a,
            Option::None => {
                proof {
                    assert(false);
                }
                return ;
            },
        };
        proof {
            assert(self.history.future_v() =~= old(self).history.future_v().drop_last());
            assert(action@ == old(self).history.future_v().last());
        }
        match action {
            HistoryAction::LayerAdded(id) => {
                let id_known = match self.layers.layer_index_by_id(id) {
                    Option::Some(_) => true,
                    Option::None => false,
                };
                let n = self.layers.layers.len();
                if !id_known && n + 1 < (u32::MAX as usize) {
                    proof {
                        assert(!old(self).layers.id_list@.contains(id)) by {
                            if old(self).layers.id_list@.contains(id) {
                                let i = choose|i: int|
                                    0 <= i < old(self).layers.id_list@.len() && old(self).layers.id_list@[i] == id;
                                assert(old(self).layers.layers@[i].id == id);
                                assert(old(self).layers.lviews()[i].id == id);
                            }
                        }
                    }
                    self.layers.add_layer_with_id(id);
                    self.history.past.push(HistoryAction::LayerAdded(id));
                    proof {
                        assert(self.history.past_v() =~= old(self).history.past_v().push(
                            ActionView::LayerAdded(id),
                        ));
                    }
                } else {
                    self.history.future.push(HistoryAction::LayerAdded(id));
                    proof {
                        assert(self.history.future_v() =~= old(self).history.future_v());
                    }
                }
            },
            HistoryAction::LayerRemoved(layer, index) => {
                self.layers.remove_layer_by_id(layer.id);
                let ghost lv = layer@;
                self.history.past.push(HistoryAction::LayerRemoved(layer, index));
                proof {
                    assert(self.history.past_v() =~= old(self).history.past_v().push(
                        ActionView::LayerRemoved(lv, index as int),
                    ));
                }
            },
            HistoryAction::LayerRenamed(id, name) => {
                match self.layers.layer_index_by_id(id) {
                    Option::Some(k) => {
                        let prev = self.layers.rename_layer_at(k, name);
                        self.history.past.push(HistoryAction::LayerRenamed(id, prev));
                        proof {
                            assert(self.history.past_v() =~= old(self).history.past_v().push(
                                ActionView::LayerRenamed(
                                    id,
                                    old(self).layers.lviews()[index_of_id(
                                        old(self).layers.lviews(),
                                        id,
                                    )].name,
                                ),
                            ));
                        }
                    },
                    Option::None => {
                        self.history.future.push(HistoryAction::LayerRenamed(id, name));
                        proof {
                            assert(self.history.future_v() =~= old(self).history.future_v());
                        }
                    },
                }
            },
            HistoryAction::Draw(layer_id, data) => {
                let id_known = match self.layers.layer_index_by_id(layer_id) {
                    Option::Some(_) => true,
                    Option::None => false,
                };
                if id_known {
                    let inv = self.layers.apply_patch_by_id(layer_id, &data);
                    self.history.past.push(HistoryAction::Draw(layer_id, inv));
                    proof {
                        assert(self.history.past_v() =~= old(self).history.past_v().push(
                            ActionView::Draw(
                                layer_id,
                                capture(
                                    old(self).layers.lviews()[index_of_id(
                                        old(self).layers.lviews(),
                                        layer_id,
                                    )].cells,
                                    data.as_map().dom(),
                                ),
                            ),
                        ));
                    }
                } else {
                    self.history.future.push(HistoryAction::Draw(layer_id, data));
                    proof {
                        assert(self.history.future_v() =~= old(self).history.future_v());
                    }
                }
            },
            HistoryAction::LayerUp(id) => {
                let _moved = self.layers.move_layer_up_by_id(id);
                self.history.past.push(HistoryAction::LayerUp(id));
                proof {
                    assert(self.history.past_v() =~= old(self).history.past_v().push(
                        ActionView::LayerUp(id),
                    ));
                }
            },
            HistoryAction::LayerDown(id) => {
                let _moved = self.layers.move_layer_down_by_id(id);
                self.history.past.push(HistoryAction::LayerDown(id));
                proof {
                    assert(self.history.past_v() =~= old(self).history.past_v().push(
                        ActionView::LayerDown(id),
                    ));
                }
            },
        }
        self.layers.queue_render();
    }
}


impl App {
    /// One paint request at a screen position: the pointer path from the
    /// last position is interpolated, the brush's tool stamps its
    /// footprint at every path point, and the patch of all replaced
    /// cells comes back, each coordinate holding what it showed before
    /// the whole request. A fresh edit, so the redo stack empties.
    pub fn draw(&mut self, x: u16, y: u16) -> (old_cells: LayerData)
        requires
            old(self).wf(),
            x >= TOOLBOX_WIDTH,
            old(self).brush.size >= 1,
        ensures
            final(self).wf(),
            core_unchanged(*old(self), *final(self)),
            ({
                let start = (((x - TOOLBOX_WIDTH) as u16), y);
                let fp = path_fp(
                    old(self).brush.tool,
                    old(self).brush.size,
                    stroke_path(start, old(self).layers.last_pos),
                );
                let erase = old(self).brush.tool is Eraser;
                &&& final(self).layers.lviews() == old(self).layers.lviews().update(
                    old(self).layers.active as int,
                    LayerView {
                        cells: if erase {
                            erased_cells(old(self).active_cells(), fp)
                        } else {
                            painted_cells(old(self).active_cells(), fp, brush_cell(*old(self)))
                        },
                        ..old(self).layers.lviews()[old(self).layers.active as int]
                    },
                )
                &&& old_cells.as_map() == capture(old(self).active_cells(), fp)
                &&& final(self).layers.last_pos == Option::Some(start)
            }),
            final(self).layers.active == old(self).layers.active,
            final(self).layers.id_list == old(self).layers.id_list,
            final(self).layers.rendered is None,
            final(self).history.past_v() == old(self).history.past_v(),
            final(self).history.future_v() == Seq::<ActionView>::empty(),
            final(self).history.partial_v() == old(self).history.partial_v(),
    {
        let sx = x - TOOLBOX_WIDTH;
        let path = connect_points((sx, y), self.layers.last_pos);
        let ghost pre = *old(self);
        let ghost pts = path@;
        let ghost erase = pre.brush.tool is Eraser;
        let size = self.brush.size;
        let tool = self.brush.tool;
        let mut acc: LayerData = CoordMap::new();
        let n = path.len();
        let ghost mut upto: Set<Coord> = Set::empty();
        let mut k: usize = 0;
        while k < n
            invariant
                pre == *old(self),
                pre.wf(),
                self.wf(),
                erase == (pre.brush.tool is Eraser),
                size == pre.brush.size,
                size >= 1,
                tool == pre.brush.tool,
                n == pts.len(),
                pts == stroke_path((((x - TOOLBOX_WIDTH) as u16), y), pre.layers.last_pos),
                path@ == pts,
                0 <= k <= n,
                upto == path_fp(tool, size, pts.take(k as int)),
                k == 0 ==> *self == pre && acc.as_map() == Map::<Coord, Cell>::empty(),
                k > 0 ==> crate::tools::stamp_inv(pre, *self, acc, upto, erase),
            decreases n - k,
        {
            let p = path[k];
            let ghost cur = *self;
            let mut step = tool.draw(p.0, p.1, size, self);
            proof {
                assert(pts.take(k as int + 1).drop_last() =~= pts.take(k as int));
                assert(pts.take(k as int + 1).last() == pts[k as int]);
                assert(path_fp(tool, size, pts.take(k as int + 1)) == path_fp(
                    tool,
                    size,
                    pts.take(k as int),
                ).union(tool_fp(tool, p.0, p.1, size)));
            }
            let ghost fp_k = tool_fp(tool, p.0, p.1, size);
            let ghost upto2 = upto.union(fp_k);
            proof {
                let m = pre.active_cells();
                let mc = cur.active_cells();
                if k == 0 {
                    assert(mc == m);
                    assert(capture(mc, fp_k).union_prefer_right(capture(m, upto)) =~= capture(
                        m,
                        upto2,
                    ));
                } else {
                    assert forall|c: Coord|
                        !upto.contains(c) ==> (#[trigger] mc.contains_key(c)) == m.contains_key(
                            c,
                        ) && (mc.contains_key(c) ==> mc[c] == m[c]) by {}
                    crate::layer::lemma_capture_merge(m, mc, upto, fp_k);
                }
                if erase {
                    assert(erased_cells(mc, fp_k) =~= erased_cells(m, upto2));
                } else {
                    assert(brush_cell(cur) == brush_cell(pre));
                    assert(painted_cells(mc, fp_k, brush_cell(pre)) =~= painted_cells(
                        m,
                        upto2,
                        brush_cell(pre),
                    ));
                }
                assert(self.layers.lviews() =~= pre.layers.lviews().update(
                    pre.layers.active as int,
                    LayerView {
                        cells: if erase {
                            erased_cells(m, upto2)
                        } else {
                            painted_cells(m, upto2, brush_cell(pre))
                        },
                        ..pre.layers.lviews()[pre.layers.active as int]
                    },
                ));
            }
            step.extend_from(&acc);
            acc = step;
            proof {
                upto = upto2;
                assert(acc.as_map() == capture(pre.active_cells(), upto));
                assert(crate::tools::paint_effect(pre, *self, upto, erase));
            }
            k = k + 1;
        }
        proof {
            assert(pts.take(n as int) =~= pts);
        }
        self.layers.last_pos = Option::Some((sx, y));
        acc
    }

    /// A pointer press on the canvas: paints once and records the patch
    /// as one undoable draw step against the active layer.
    pub fn on_press(&mut self, x: u16, y: u16)
        requires
            old(self).wf(),
            x >= TOOLBOX_WIDTH,
            old(self).brush.size >= 1,
        ensures
            final(self).wf(),
            ({
                let start = (((x - TOOLBOX_WIDTH) as u16), y);
                let fp = path_fp(
                    old(self).brush.tool,
                    old(self).brush.size,
                    stroke_path(start, old(self).layers.last_pos),
                );
                let erase = old(self).brush.tool is Eraser;
                &&& final(self).layers.lviews() == old(self).layers.lviews().update(
                    old(self).layers.active as int,
                    LayerView {
                        cells: if erase {
                            erased_cells(old(self).active_cells(), fp)
                        } else {
                            painted_cells(old(self).active_cells(), fp, brush_cell(*old(self)))
                        },
                        ..old(self).layers.lviews()[old(self).layers.active as int]
                    },
                )
                &&& final(self).history.past_v() == old(self).history.past_v().push(
                    ActionView::Draw(
                        old(self).layers.lviews()[old(self).layers.active as int].id,
                        capture(old(self).active_cells(), fp),
                    ),
                )
                &&& final(self).layers.last_pos == Option::Some(start)
            }),
            final(self).history.future_v() == Seq::<ActionView>::empty(),
            final(self).history.partial_v() == old(self).history.partial_v(),
            final(self).layers.active == old(self).layers.active,
            final(self).layers.id_list == old(self).layers.id_list,
            final(self).layers.rendered is None,
            final(self).input_capture == (InputCapture {
                mouse_mode: crate::input::MouseMode::Click,
                ..old(self).input_capture
            }),
            final(self).running == old(self).running,
            final(self).brush == old(self).brush,
            final(self).palette == old(self).palette,
            final(self).char_picker == old(self).char_picker,
    {
        self.input_capture.mouse_mode = crate::input::MouseMode::Click;
        let patch = self.draw(x, y);
        let id = self.layers.current_layer_id();
        self.history.draw(id, patch);
    }

    /// A pointer drag on the canvas: a press that turns out to be a
    /// stroke reopens its recorded step, and each drag step's patch is
    /// folded into the stroke in progress, first pre-image winning.
    pub fn on_drag(&mut self, x: u16, y: u16)
        requires
            old(self).wf(),
            x >= TOOLBOX_WIDTH,
            old(self).brush.size >= 1,
        ensures
            final(self).wf(),
            ({
                let start = (((x - TOOLBOX_WIDTH) as u16), y);
                let fp = path_fp(
                    old(self).brush.tool,
                    old(self).brush.size,
                    stroke_path(start, old(self).layers.last_pos),
                );
                let erase = old(self).brush.tool is Eraser;
                let reopen = old(self).input_capture.mouse_mode == crate::input::MouseMode::Click
                    && old(self).history.past_v().len() > 0 && (old(self).history.past_v().last() matches ActionView::Draw(_a, _b));
                let past1 = if reopen {
                    old(self).history.past_v().drop_last()
                } else {
                    old(self).history.past_v()
                };
                let step = capture(old(self).active_cells(), fp);
                &&& final(self).layers.lviews() == old(self).layers.lviews().update(
                    old(self).layers.active as int,
                    LayerView {
                        cells: if erase {
                            erased_cells(old(self).active_cells(), fp)
                        } else {
                            painted_cells(old(self).active_cells(), fp, brush_cell(*old(self)))
                        },
                        ..old(self).layers.lviews()[old(self).layers.active as int]
                    },
                )
                &&& final(self).history.past_v() == past1
                &&& (reopen ==> (old(self).history.past_v().last() matches ActionView::Draw(
                    _id0,
                    m0,
                ) ==> final(self).history.partial_v() == Option::Some(
                    step.union_prefer_right(
                        match old(self).history.partial_v() {
                            Option::Some(q) => m0.union_prefer_right(q),
                            Option::None => m0,
                        },
                    ),
                )))
                &&& (!reopen ==> final(self).history.partial_v() == Option::Some(
                    match old(self).history.partial_v() {
                        Option::Some(q) => step.union_prefer_right(q),
                        Option::None => step,
                    },
                ))
                &&& final(self).layers.last_pos == Option::Some(start)
            }),
            final(self).history.future_v() == Seq::<ActionView>::empty(),
            final(self).layers.active == old(self).layers.active,
            final(self).layers.id_list == old(self).layers.id_list,
            final(self).layers.rendered is None,
            final(self).input_capture == (InputCapture {
                mouse_mode: crate::input::MouseMode::Drag,
                ..old(self).input_capture
            }),
            final(self).running == old(self).running,
            final(self).brush == old(self).brush,
            final(self).palette == old(self).palette,
            final(self).char_picker == old(self).char_picker,
    {
        if self.input_capture.mouse_mode == crate::input::MouseMode::Click {
            self.history.click_to_partial_draw();
        }
        self.input_capture.mouse_mode = crate::input::MouseMode::Drag;
        let patch = self.draw(x, y);
        self.history.add_partial_draw(patch);
    }

    /// A pointer release: the interpolation anchor is dropped and, when
    /// a drag was in progress, its coalesced patch is flushed as one
    /// undoable draw step against the active layer.
    pub fn on_release(&mut self)
        requires
            old(self).wf(),
        ensures
            final(self).wf(),
            final(self).layers.lviews() == old(self).layers.lviews(),
            final(self).layers.active == old(self).layers.active,
            final(self).layers.id_list == old(self).layers.id_list,
            final(self).layers.rendered == old(self).layers.rendered,
            final(self).layers.last_pos is None,
            old(self).input_capture.mouse_mode == crate::input::MouseMode::Drag ==> {
                &&& final(self).history.past_v() == match old(self).history.partial_v() {
                    Option::Some(p) => old(self).history.past_v().push(
                        ActionView::Draw(
                            old(self).layers.lviews()[old(self).layers.active as int].id,
                            p,
                        ),
                    ),
                    Option::None => old(self).history.past_v(),
                }
                &&& final(self).history.partial_v() is None
            },
            old(self).input_capture.mouse_mode != crate::input::MouseMode::Drag ==> final(self).history == old(self).history,
            final(self).history.future_v() == old(self).history.future_v(),
            final(self).input_capture == (InputCapture {
                mouse_mode: crate::input::MouseMode::Normal,
                ..old(self).input_capture
            }),
            final(self).running == old(self).running,
            final(self).brush == old(self).brush,
            final(self).palette == old(self).palette,
            final(self).char_picker == old(self).char_picker,
    {
        self.layers.last_pos = Option::None;
        if self.input_capture.mouse_mode == crate::input::MouseMode::Drag {
            let id = self.layers.current_layer_id();
            self.history.finish_partial_draw(id);
        }
        self.input_capture.mouse_mode = crate::input::MouseMode::Normal;
    }
}

} // verus!
