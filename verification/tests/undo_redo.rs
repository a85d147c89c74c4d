use terminart::app::App;
use terminart::cell::{Cell, Color};
use terminart::grid::CoordMap;
use terminart::tools::Tool;
use terminart::TOOLBOX_WIDTH;

fn snapshot_content(app: &mut App) -> Vec<((u16, u16), Cell)> {
    let rendered = app.layers.render();
    let mut out: Vec<((u16, u16), Cell)> = Vec::new();
    let n: usize = rendered.len();
    for i in 0..n {
        out.push(rendered.pair_at(i));
    }
    out.sort_by_key(|e| e.0);
    out
}

fn active_cells_sorted(app: &App) -> Vec<((u16, u16), Cell)> {
    let layer = app.layers.get_active_layer();
    let mut out: Vec<((u16, u16), Cell)> = Vec::new();
    let n: usize = layer.data.len();
    for i in 0..n {
        let (c, cell) = layer.data.pair_at(i);
        if cell != Cell::empty() {
            out.push((c, cell));
        }
    }
    out.sort_by_key(|e| e.0);
    out
}

#[test]
fn paint_round_trip_restores_content() {
    let mut app = App::new();
    app.brush.tool = Tool::Point;
    let x0 = TOOLBOX_WIDTH;
    app.on_press(x0 + 1, 1);
    app.on_release();
    let before = snapshot_content(&mut app);

    app.on_press(x0 + 2, 2);
    app.on_release();
    app.brush.tool = Tool::Square;
    app.brush.size = 3;
    app.on_press(x0 + 5, 5);
    app.on_release();
    app.brush.tool = Tool::Plus;
    app.brush.size = 2;
    app.on_press(x0 + 4, 4);
    app.on_release();

    app.undo();
    app.undo();
    app.undo();
    let after = snapshot_content(&mut app);
    assert_eq!(before, after);
}

#[test]
fn undo_redo_reproduces_post_paint_state() {
    let mut app = App::new();
    app.brush.tool = Tool::Square;
    app.brush.size = 3;
    let x0 = TOOLBOX_WIDTH;
    app.on_press(x0 + 3, 3);
    app.on_release();
    let painted = snapshot_content(&mut app);

    app.undo();
    let rolled_back = snapshot_content(&mut app);
    assert_ne!(painted, rolled_back);

    app.redo();
    let replayed = snapshot_content(&mut app);
    assert_eq!(painted, replayed);
}

#[test]
fn eraser_undo_redo_round_trip() {
    let mut app = App::new();
    app.put_cell(4, 4);
    app.put_cell(5, 5);
    let before = snapshot_content(&mut app);

    app.brush.tool = Tool::Eraser;
    app.brush.size = 3;
    app.on_press(TOOLBOX_WIDTH + 4, 4);
    app.on_release();
    let erased = snapshot_content(&mut app);
    assert!(erased.len() < before.len());

    app.undo();
    assert_eq!(before, snapshot_content(&mut app));
    app.redo();
    assert_eq!(erased, snapshot_content(&mut app));
}

#[test]
fn figure_eight_stroke_coalesces_into_one_undo() {
    let mut app = App::new();
    // scatter some prior content the stroke will cross
    app.put_cell(2, 2);
    app.put_cell(4, 2);
    app.history.forget_redo();
    let before = snapshot_content(&mut app);

    // a self-crossing drag: out, around, and back over its own path
    app.brush.tool = Tool::Point;
    app.brush.fg = Color::Red;
    let x0 = TOOLBOX_WIDTH;
    app.on_press(x0 + 1, 1);
    app.on_drag(x0 + 3, 3);
    app.on_drag(x0 + 5, 1);
    app.on_drag(x0 + 3, 3);
    app.on_drag(x0 + 1, 5);
    app.on_drag(x0 + 1, 1);
    app.on_release();

    // the whole stroke is one history entry: a single undo restores all
    app.undo();
    assert_eq!(before, snapshot_content(&mut app));
}

#[test]
fn overlapping_drag_keeps_first_pre_image() {
    let mut app = App::new();
    // a distinctive original cell the stroke will paint over twice
    app.brush.glyph = 'X';
    app.put_cell(5, 5);
    let before = active_cells_sorted(&app);

    app.brush.glyph = 'o';
    app.brush.tool = Tool::Square;
    app.brush.size = 3;
    let x0 = TOOLBOX_WIDTH;
    app.on_press(x0 + 5, 5);
    app.on_drag(x0 + 7, 5);
    app.on_drag(x0 + 5, 5);
    app.on_release();

    app.undo();
    assert_eq!(before, active_cells_sorted(&app));
}

#[test]
fn box_and_plus_self_overlap_undo_exactly() {
    let mut app = App::new();
    app.brush.glyph = 'Q';
    app.put_cell(6, 6);
    app.put_cell(6, 8);
    app.history.forget_redo();
    let before = active_cells_sorted(&app);

    app.brush.glyph = '#';
    app.brush.tool = Tool::Box;
    app.brush.size = 3;
    app.on_press(TOOLBOX_WIDTH + 6, 7);
    app.on_release();
    app.undo();
    assert_eq!(before, active_cells_sorted(&app));

    app.brush.tool = Tool::Plus;
    app.brush.size = 2;
    app.on_press(TOOLBOX_WIDTH + 6, 6);
    app.on_release();
    app.undo();
    assert_eq!(before, active_cells_sorted(&app));
}

#[test]
fn layer_removal_undo_preserves_id_and_name() {
    let mut app = App::new();
    let added = app.layers.add_layer();
    app.history.add_layer(added);
    app.layers.select_layer(1);
    let name = String::from("artwork");
    app.input_capture.text_area.buffer = name.chars().collect();
    app.input_capture.text_area.pos = name.len();
    assert!(app.apply_rename().is_some());

    let id_before = app.layers.current_layer_id();
    let name_before = app.layers.current_layer_name();

    app.remove_active_layer();
    app.undo();

    // the layer is back at position 1 under the same id and name
    app.layers.select_layer(1);
    assert_eq!(id_before, app.layers.current_layer_id());
    assert_eq!(name_before, app.layers.current_layer_name());
}

#[test]
fn undo_of_add_remove_rename_and_moves() {
    let mut app = App::new();
    let first_id = app.layers.current_layer_id();

    let added = app.layers.add_layer();
    app.history.add_layer(added);
    app.undo();
    // the added layer is gone again
    assert_eq!(app.layers.layers.len(), 1);
    assert_eq!(app.layers.current_layer_id(), first_id);
    app.redo();
    assert_eq!(app.layers.layers.len(), 2);
    assert_eq!(app.layers.layers[1].id, added);

    // rename, then take it back
    let old_name = app.layers.current_layer_name();
    app.input_capture.text_area.buffer = vec!['n', 'e', 'w'];
    app.input_capture.text_area.pos = 3;
    assert!(app.apply_rename().is_some());
    app.undo();
    assert_eq!(app.layers.current_layer_name(), old_name);

    // move the active layer up, record it, undo it
    app.layers.select_layer(0);
    let moved_id = app.layers.current_layer_id();
    if app.layers.move_layer_up_by_id(moved_id) {
        app.history.layer_up(moved_id);
        app.history.forget_redo();
    }
    assert_eq!(app.layers.layers[1].id, moved_id);
    app.undo();
    assert_eq!(app.layers.layers[0].id, moved_id);
}

#[test]
fn undo_and_redo_on_empty_stacks_do_nothing() {
    let mut app = App::new();
    app.put_cell(1, 1);
    let shot = snapshot_content(&mut app);
    // nothing was recorded in history, so undo and redo are no-ops
    app.undo();
    app.redo();
    assert_eq!(shot, snapshot_content(&mut app));
}

#[test]
fn fresh_edit_clears_redo() {
    let mut app = App::new();
    app.on_press(TOOLBOX_WIDTH + 1, 1);
    app.on_release();
    app.undo();
    // a new edit invalidates the redo stack
    app.put_cell(9, 9);
    app.redo();
    let rendered: CoordMap<Cell> = app.layers.render();
    assert!(rendered.get((1, 1)).is_none());
    assert!(rendered.get((9, 9)).is_some());
}

#[test]
fn abandoned_partial_stroke_is_dropped() {
    let mut app = App::new();
    let before_len: usize = app.history.past.len();
    let x0 = TOOLBOX_WIDTH;
    app.on_press(x0 + 1, 1);
    app.on_drag(x0 + 2, 2);
    // no release: the coalesced patch stays pending and never reaches
    // the past stack (the press's own entry was reopened into it)
    assert_eq!(app.history.past.len(), before_len);
    assert!(app.history.partial_draw.is_some());
}
