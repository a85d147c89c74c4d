use terminart::app::App;
use terminart::cell::{Cell, Color};
use terminart::layers::Layers;

fn red_cell() -> Cell {
    Cell { fg: Color::Red, bg: Color::Black, glyph: 'X' }
}

fn blue_cell() -> Cell {
    Cell { fg: Color::Blue, bg: Color::Black, glyph: 'O' }
}

#[test]
fn empty_cells_never_occlude() {
    let mut layers = Layers::default();
    // layer A (bottom) holds X at (1,1)
    layers.insert_cell_active((1, 1), red_cell());
    // layer B (top) holds an explicit empty sentinel at (1,1)
    let top = layers.add_layer();
    let k = layers.layer_index_by_id(top).unwrap();
    layers.select_layer(k as u8);
    layers.insert_cell_active((1, 1), Cell::empty());

    let composite = layers.render();
    assert_eq!(composite.get((1, 1)), Some(red_cell()));
}

#[test]
fn top_layer_cell_wins() {
    let mut layers = Layers::default();
    layers.insert_cell_active((1, 1), red_cell());
    let top = layers.add_layer();
    let k = layers.layer_index_by_id(top).unwrap();
    layers.select_layer(k as u8);
    layers.insert_cell_active((1, 1), blue_cell());

    let composite = layers.render();
    assert_eq!(composite.get((1, 1)), Some(blue_cell()));
}

#[test]
fn hidden_layer_contributes_nothing() {
    let mut layers = Layers::default();
    layers.insert_cell_active((2, 3), red_cell());
    layers.insert_cell_active((7, 7), blue_cell());
    layers.toggle_visible(0);
    let composite = layers.render();
    assert_eq!(composite.len(), 0);

    // showing it again brings the content back
    layers.toggle_visible(0);
    let composite = layers.render();
    assert_eq!(composite.len(), 2);
    assert_eq!(composite.get((2, 3)), Some(red_cell()));
}

#[test]
fn render_is_memoized_and_invalidated() {
    let mut layers = Layers::default();
    layers.insert_cell_active((0, 0), red_cell());
    let first = layers.render();
    assert!(layers.rendered.is_some());
    let second = layers.render();
    assert_eq!(first.get((0, 0)), second.get((0, 0)));

    // a content mutation drops the memo and the next render sees it
    layers.insert_cell_active((1, 0), blue_cell());
    assert!(layers.rendered.is_none());
    let third = layers.render();
    assert_eq!(third.get((1, 0)), Some(blue_cell()));
}

#[test]
fn removing_last_layer_leaves_a_fresh_one() {
    let mut layers = Layers::default();
    layers.insert_cell_active((3, 3), red_cell());
    let (removed, position) = layers.remove_active_layer();
    assert_eq!(position, 0);
    assert_eq!(removed.data.len(), 1);
    // the stack healed itself with one fresh, empty layer
    assert_eq!(layers.layers.len(), 1);
    assert_eq!(layers.render().len(), 0);
}

#[test]
fn add_layer_ids_never_collide() {
    let mut layers = Layers::default();
    let mut ids = vec![layers.current_layer_id()];
    for _ in 0..20 {
        let id = layers.add_layer();
        assert!(!ids.contains(&id));
        ids.push(id);
    }
}

#[test]
fn move_layer_up_and_down_by_id() {
    let mut layers = Layers::default();
    let bottom_id = layers.current_layer_id();
    let top_id = layers.add_layer();

    // the top layer cannot move further up
    assert!(!layers.move_layer_up_by_id(top_id));
    // the bottom one can, and becomes active where it lands
    assert!(layers.move_layer_up_by_id(bottom_id));
    assert_eq!(layers.layers[1].id, bottom_id);
    assert_eq!(layers.active, 1);
    // and back down
    assert!(layers.move_layer_down_by_id(bottom_id));
    assert_eq!(layers.layers[0].id, bottom_id);
    // the bottom cannot move further down, and unknown ids move nothing
    assert!(!layers.move_layer_down_by_id(bottom_id));
    let mut unknown: u32 = 0;
    while unknown == bottom_id || unknown == top_id {
        unknown += 1;
    }
    assert!(!layers.move_layer_up_by_id(unknown));
    assert!(!layers.move_layer_down_by_id(unknown));
}

#[test]
fn display_info_lists_layers_top_first() {
    let mut layers = Layers::default();
    layers.add_layer();
    layers.toggle_visible(1);
    let info = layers.get_display_info();
    assert_eq!(info.len(), 2);
    assert_eq!(info[0].0, 0);
    // the first row shown is the top layer, which was just hidden
    assert_eq!(info[0].1.1, false);
    assert_eq!(info[1].1.1, true);
}

#[test]
fn resize_drops_cells_outside_the_screen() {
    let mut app = App::new();
    app.put_cell(2, 2);
    app.put_cell(40, 3);
    app.put_cell(3, 50);
    app.resize(10, 10);
    let composite = app.layers.render();
    assert_eq!(composite.len(), 1);
    assert!(composite.get((2, 2)).is_some());
}

#[test]
fn reset_starts_over() {
    let mut app = App::new();
    app.put_cell(1, 1);
    app.layers.add_layer();
    app.reset();
    assert_eq!(app.layers.layers.len(), 1);
    assert_eq!(app.layers.render().len(), 0);
    assert_eq!(app.history.past.len(), 0);
    assert_eq!(app.brush.size, 1);
}

#[test]
fn canvas_text_shows_the_bounding_box() {
    let mut app = App::new();
    assert!(terminart::export::get_canvas_text(&mut app).is_none());
    app.brush.glyph = 'a';
    app.put_cell(2, 1);
    app.brush.glyph = 'b';
    app.put_cell(4, 2);
    let text = terminart::export::get_canvas_text(&mut app).unwrap();
    assert_eq!(text, "a  \n  b");
    let region = terminart::export::get_drawing_region(&mut app).unwrap();
    assert_eq!((region.0, region.1, region.2, region.3), (2, 4, 1, 2));
}
