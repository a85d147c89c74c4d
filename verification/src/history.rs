use vstd::prelude::*;
use crate::cell::Cell;
use crate::grid::{Coord, CoordMap};
use crate::layer::{Layer, LayerData, LayerView};

verus! {

/// One reversible step, as the log records it: structural steps carry what
/// is needed to take them back, a draw carries the pre-image patch of the
/// cells it overwrote.
pub enum HistoryAction {
    LayerAdded(u32),
    LayerRemoved(Layer, usize),
    LayerRenamed(u32, String),
    LayerUp(u32),
    LayerDown(u32),
    Draw(u32, LayerData),
}

/// The mathematical value of a recorded step.
pub ghost enum ActionView {
    LayerAdded(u32),
    LayerRemoved(LayerView, int),
    LayerRenamed(u32, Seq<char>),
    LayerUp(u32),
    LayerDown(u32),
    Draw(u32, Map<Coord, Cell>),
}

impl View for HistoryAction {
    type V = ActionView;

    open spec fn view(&self) -> ActionView {
        match self {
            HistoryAction::LayerAdded(id) => ActionView::LayerAdded(*id),
            HistoryAction::LayerRemoved(l, pos) => ActionView::LayerRemoved(l@, *pos as int),
            HistoryAction::LayerRenamed(id, name) => ActionView::LayerRenamed(*id, name@),
            HistoryAction::LayerUp(id) => ActionView::LayerUp(*id),
            HistoryAction::LayerDown(id) => ActionView::LayerDown(*id),
            HistoryAction::Draw(id, patch) => ActionView::Draw(*id, patch.as_map()),
        }
    }
}

/// The values of a stack of recorded steps.
pub open spec fn action_views(s: Seq<HistoryAction>) -> Seq<ActionView> {
    Seq::new(s.len(), |i: int| s[i]@)
}

/// The undo/redo log: the past and future stacks (most recent step last)
/// and the pre-image patch of a drag stroke still in progress.
pub struct History {
    pub past: Vec<HistoryAction>,
    pub future: Vec<HistoryAction>,
    pub partial_draw: Option<LayerData>,
}

impl History {
    /// The values of the undoable steps, most recent last.
    pub open spec fn past_v(self) -> Seq<ActionView> {
        action_views(self.past@)
    }

    /// The values of the redoable steps, most recent last.
    pub open spec fn future_v(self) -> Seq<ActionView> {
        action_views(self.future@)
    }

    /// The pre-image patch of the stroke in progress, if one is.
    pub open spec fn partial_v(self) -> Option<Map<Coord, Cell>> {
        match self.partial_draw {
            Option::Some(p) => Option::Some(p.as_map()),
            Option::None => Option::None,
        }
    }

    /// Records a draw step: the patch holds, for every coordinate the draw
    /// touched, the cell that stood there before.
    pub fn draw(&mut self, id: u32, data: LayerData)
        ensures
            final(self).past_v() == old(self).past_v().push(ActionView::Draw(id, data.as_map())),
            final(self).future_v() == old(self).future_v(),
            final(self).partial_v() == old(self).partial_v(),
    {
        self.past.push(HistoryAction::Draw(id, data));
        proof {
            assert(final(self).past_v() =~= old(self).past_v().push(
                ActionView::Draw(id, data.as_map()),
            ));
        }
    }

    /// Records that a layer was added.
    pub fn add_layer(&mut self, id: u32)
        ensures
            final(self).past_v() == old(self).past_v().push(ActionView::LayerAdded(id)),
            final(self).future_v() == old(self).future_v(),
            final(self).partial_v() == old(self).partial_v(),
    {
        self.past.push(HistoryAction::LayerAdded(id));
        proof {
            assert(final(self).past_v() =~= old(self).past_v().push(ActionView::LayerAdded(id)));
        }
    }

    /// Records that a layer was removed, keeping its full value and its
    /// position so undo can put it back exactly where it was.
    pub fn remove_layer(&mut self, layer: Layer, index: usize)
        ensures
            final(self).past_v() == old(self).past_v().push(
                ActionView::LayerRemoved(layer@, index as int),
            ),
            final(self).future_v() == old(self).future_v(),
            final(self).partial_v() == old(self).partial_v(),
    {
        self.past.push(HistoryAction::LayerRemoved(layer, index));
        proof {
            assert(final(self).past_v() =~= old(self).past_v().push(
                ActionView::LayerRemoved(layer@, index as int),
            ));
        }
    }

    /// Records a rename, keeping the previous name.
    pub fn rename_layer(&mut self, id: u32, old_name: String)
        ensures
            final(self).past_v() == old(self).past_v().push(
                ActionView::LayerRenamed(id, old_name@),
            ),
            final(self).future_v() == old(self).future_v(),
            final(self).partial_v() == old(self).partial_v(),
    {
        self.past.push(HistoryAction::LayerRenamed(id, old_name));
        proof {
            assert(final(self).past_v() =~= old(self).past_v().push(
                ActionView::LayerRenamed(id, old_name@),
            ));
        }
    }

    /// Records that a layer moved one position up.
    pub fn layer_up(&mut self, id: u32)
        ensures
            final(self).past_v() == old(self).past_v().push(ActionView::LayerUp(id)),
            final(self).future_v() == old(self).future_v(),
            final(self).partial_v() == old(self).partial_v(),
    {
        self.past.push(HistoryAction::LayerUp(id));
        proof {
            assert(final(self).past_v() =~= old(self).past_v().push(ActionView::LayerUp(id)));
        }
    }

    /// Records that a layer moved one position down.
    pub fn layer_down(&mut self, id: u32)
        ensures
            final(self).past_v() == old(self).past_v().push(ActionView::LayerDown(id)),
            final(self).future_v() == old(self).future_v(),
            final(self).partial_v() == old(self).partial_v(),
    {
        self.past.push(HistoryAction::LayerDown(id));
        proof {
            assert(final(self).past_v() =~= old(self).past_v().push(ActionView::LayerDown(id)));
        }
    }

    /// Drops every redoable step: a fresh edit invalidates the future.
    pub fn forget_redo(&mut self)
        ensures
            final(self).past_v() == old(self).past_v(),
            final(self).future_v() == Seq::<ActionView>::empty(),
            final(self).partial_v() == old(self).partial_v(),
    {
        self.future = Vec::new();
        proof {
            assert(final(self).future_v() =~= Seq::<ActionView>::empty());
        }
    }

    /// Folds one more drag step into the stroke in progress. A coordinate
    /// already recorded keeps its first pre-image, so the merged patch
    /// reflects the canvas as it stood before the whole stroke.
    pub fn add_partial_draw(&mut self, old_data: LayerData)
        ensures
            final(self).partial_v() == Option::Some(
                match old(self).partial_v() {
                    Option::Some(p) => old_data.as_map().union_prefer_right(p),
                    Option::None => old_data.as_map(),
                },
            ),
            final(self).past_v() == old(self).past_v(),
            final(self).future_v() == old(self).future_v(),
    {
        let mut cur: Option<LayerData> = Option::None;
        core::mem::swap(&mut self.partial_draw, &mut cur);
        let mut merged = old_data;
        if let Option::Some(p) = cur {
            merged.extend_from(&p);
        }
        self.partial_draw = Option::Some(merged);
    }

    /// Closes the stroke in progress, if any, flushing its merged patch as
    /// one draw step against the given layer.
    pub fn finish_partial_draw(&mut self, layer_id: u32)
        ensures
            final(self).partial_v() is None,
            final(self).past_v() == match old(self).partial_v() {
                Option::Some(p) => old(self).past_v().push(ActionView::Draw(layer_id, p)),
                Option::None => old(self).past_v(),
            },
            final(self).future_v() == old(self).future_v(),
    {
        let mut cur: Option<LayerData> = Option::None;
        core::mem::swap(&mut self.partial_draw, &mut cur);
        match cur {
            Option::Some(p) => {
                self.draw(layer_id, p);
            },
            Option::None => {},
        }
    }

    /// Reopens the most recent step as a stroke in progress, provided it
    /// was a draw: a click that turns into a drag is coalesced with it.
    /// Any other most recent step stays where it is.
    pub fn click_to_partial_draw(&mut self)
        ensures
            ({
                let p = old(self).past_v();
                if p.len() > 0 && (p.last() matches ActionView::Draw(_id, _m)) {
                    &&& final(self).past_v() == p.drop_last()
                    &&& (p.last() matches ActionView::Draw(_id, m) ==> final(self).partial_v()
                        == Option::Some(
                        match old(self).partial_v() {
                            Option::Some(q) => m.union_prefer_right(q),
                            Option::None => m,
                        },
                    ))
                } else {
                    &&& final(self).past_v() == p
                    &&& final(self).partial_v() == old(self).partial_v()
                }
            }),
            final(self).future_v() == old(self).future_v(),
    {
        match self.past.pop() {
            Option::None => {},
            Option::Some(act) => {
                match act {
                    HistoryAction::Draw(_id, data) => {
                        proof {
                            assert(self.past_v() =~= old(self).past_v().drop_last());
                        }
                        self.add_partial_draw(data);
                    },
                    other => {
                        self.past.push(other);
                        proof {
                            assert(self.past_v() =~= old(self).past_v());
                        }
                    },
                }
            },
        }
    }
}

impl Default for History {
    /// An empty log: nothing to undo, nothing to redo, no open stroke.
    fn default() -> (r: History)
        ensures
            r.past_v() == Seq::<ActionView>::empty(),
            r.future_v() == Seq::<ActionView>::empty(),
            r.partial_v() is None,
    {
        proof {
            assert(action_views(Seq::<HistoryAction>::empty()) =~= Seq::<ActionView>::empty());
        }
        History { past: Vec::new(), future: Vec::new(), partial_draw: Option::None }
    }
}

} // verus!
