use terminart::brush::Brush;
use terminart::cell::{Cell, Color};
use terminart::charpicker::CharPicker;
use terminart::clicks::{ClickAction, LayerAction};
use terminart::colorpicker::{ColorPicker, TextFocus, COLOR_STEP_AMT};
use terminart::history::History;
use terminart::input::{InputCapture, InputMode, MouseMode, Region};
use terminart::palette::Palette;
use terminart::textarea::TextArea;
use terminart::tools::Tool;

fn type_all(p: &mut ColorPicker, s: &str) {
    for c in s.chars() {
        p.input(c);
    }
}

#[test]
fn color_picker_reads_six_digit_hex() {
    let mut p = ColorPicker::default();
    type_all(&mut p, "1A2b3C");
    p.update();
    assert_eq!((p.r, p.g, p.b), (0x1A, 0x2B, 0x3C));
}

#[test]
fn color_picker_doubles_three_digit_hex() {
    let mut p = ColorPicker::default();
    p.text.buffer = "#abc".chars().collect();
    p.text.pos = 4;
    p.update();
    assert_eq!((p.r, p.g, p.b), (0xAA, 0xBB, 0xCC));
    // the buffer itself was expanded on the way
    let widened: String = p.text.buffer.iter().collect();
    assert_eq!(widened, "aabbcc");
}

#[test]
fn color_picker_rejects_bad_hex() {
    let mut p = ColorPicker::default();
    p.r = 7;
    p.text.buffer = "12345".chars().collect();
    p.text.pos = 5;
    p.update();
    assert_eq!(p.r, 7);
    // non-hex characters never enter the buffer while hex is focused
    p.input('g');
    assert_eq!(p.text.buffer.len(), 5);
}

#[test]
fn color_picker_component_field_clamps_at_255() {
    let mut p = ColorPicker::default();
    p.set_attention(TextFocus::Red);
    p.text.clear();
    type_all(&mut p, "300");
    assert_eq!(p.r, 255);
    p.text.clear();
    type_all(&mut p, "42");
    assert_eq!(p.r, 42);
}

#[test]
fn color_picker_tab_refills_the_buffer() {
    let mut p = ColorPicker::default();
    type_all(&mut p, "ff0080");
    // moving focus reads the hex in and shows the red component
    p.tab();
    assert_eq!(p.focus, TextFocus::Red);
    assert_eq!((p.r, p.g, p.b), (255, 0, 0x80));
    let shown: String = p.text.buffer.iter().collect();
    assert_eq!(shown, "255");
    // and moving back shows the formatted hex code
    p.backtab();
    assert_eq!(p.focus, TextFocus::Hex);
    let hex: String = p.text.buffer.iter().collect();
    assert_eq!(hex, "FF0080");
    assert_eq!(p.get_hex_str(), "FF0080");
}

#[test]
fn color_picker_plus_minus_and_set() {
    let mut p = ColorPicker::default();
    p.plus(TextFocus::Green);
    assert_eq!(p.g, COLOR_STEP_AMT);
    p.minus(TextFocus::Green);
    assert_eq!(p.g, 0);
    p.minus(TextFocus::Green);
    assert_eq!(p.g, 0);
    p.set(TextFocus::Blue, 200);
    assert_eq!(p.b, 200);
    p.set(TextFocus::Hex, 9);
    assert_eq!((p.r, p.g, p.b), (0, 0, 200));
    assert_eq!(p.get_style_color(), Color::Rgb(0, 0, 200));
    p.reset();
    assert_eq!((p.r, p.g, p.b), (0, 0, 0));
}

#[test]
fn text_area_editing() {
    let mut t = TextArea::default();
    t.input('h', 20);
    t.input('i', 20);
    t.input('!', 20);
    assert_eq!(t.get().unwrap(), "hi!");
    t.left();
    t.backspace();
    assert_eq!(t.get().unwrap(), "h!");
    t.home();
    t.delete();
    assert_eq!(t.get().unwrap(), "!");
    t.end();
    t.right();
    assert_eq!(t.pos, 1);
    t.clear();
    assert!(t.get().is_none());
    // backspace at the start of an empty box is harmless
    t.backspace();
    assert_eq!(t.pos, 0);
}

#[test]
fn text_area_honors_max_len() {
    let mut t = TextArea::default();
    for _ in 0..10 {
        t.input('a', 4);
    }
    assert_eq!(t.buffer.len(), 4);
}

#[test]
fn input_capture_regions_and_modes() {
    let mut cap = InputCapture::default();
    let area = Region { x: 2, y: 3, width: 2, height: 1 };
    cap.click_mode_normal(&area, ClickAction::Draw);
    cap.click_mode_normal(
        &Region { x: 0, y: 0, width: 1, height: 1 },
        ClickAction::Layer(LayerAction::Add),
    );
    assert_eq!(cap.get(2, 3), Some(ClickAction::Draw));
    assert_eq!(cap.get(3, 3), Some(ClickAction::Draw));
    assert_eq!(cap.get(4, 3), None);
    assert_eq!(cap.get(0, 0), Some(ClickAction::Layer(LayerAction::Add)));

    // popups shadow the normal screen
    cap.change_mode(InputMode::Rename);
    assert_eq!(cap.get(2, 3), None);
    cap.click_mode_popup(&area, ClickAction::Draw);
    assert_eq!(cap.get(2, 3), Some(ClickAction::Draw));
    cap.exit();
    assert_eq!(cap.mode, InputMode::Normal);
    assert_eq!(cap.mouse_mode, MouseMode::Normal);
}

#[test]
fn input_capture_accept_caps_at_twenty() {
    let mut cap = InputCapture::default();
    assert!(cap.accept().is_none());
    for c in "abcdefghijklmnopqrstuvwxyz".chars() {
        cap.text_area.input(c, 100);
    }
    let got = cap.accept().unwrap();
    assert_eq!(got, "abcdefghijklmnopqrst");
    assert_eq!(cap.mode, InputMode::Normal);
}

#[test]
fn input_capture_toggle_help() {
    let mut cap = InputCapture::default();
    cap.toggle_help();
    assert_eq!(cap.mode, InputMode::Help);
    cap.toggle_help();
    assert_eq!(cap.mode, InputMode::Normal);
}

#[test]
fn palette_cycles_and_replaces() {
    let mut pal = Palette::default();
    assert_eq!(pal.colors().len(), 16);
    assert_eq!(pal.fg_next(), Color::Red);
    assert_eq!(pal.fg_prev(), Color::Black);
    assert_eq!(pal.fg_prev(), Color::White);
    assert_eq!(pal.bg_next(), Color::Black);
    assert_eq!(pal.bg_prev(), Color::White);
    pal.replace(0, Color::Rgb(1, 2, 3));
    assert_eq!(pal.colors()[0], Color::Rgb(1, 2, 3));
    // out-of-range replacements are ignored
    pal.replace(16, Color::Reset);
    assert_eq!(pal.colors().len(), 16);
}

#[test]
fn brush_size_clamps() {
    let mut b = Brush::default();
    assert_eq!(b.size, 1);
    b.down(5);
    assert_eq!(b.size, 1);
    b.up(100);
    assert_eq!(b.size, 21);
    b.down(3);
    assert_eq!(b.size, 18);
    let cell = b.as_cell();
    assert_eq!(cell, Cell { fg: b.fg, bg: b.bg, glyph: b.glyph });
    assert_eq!(b.char(), b.glyph.to_string());
}

#[test]
fn tool_names_and_icons() {
    assert_eq!(Tool::Point.name(), "Point");
    assert_eq!(Tool::Eraser.name(), "Eraser");
    let all = Tool::all();
    assert_eq!(all.len(), 9);
    assert_eq!(all[0], Tool::Eraser);
    assert_eq!(all[5], Tool::Point);
    for t in all {
        assert_eq!(t.char().chars().count(), 1);
    }
    assert_eq!(Tool::default(), Tool::Point);
}

#[test]
fn char_picker_pages() {
    let picker = CharPicker::default();
    let first = picker.page();
    // the first page holds the first two rows of printable ASCII
    assert_eq!(first.len(), 32);
    assert_eq!(first[0], ' ');
    assert_eq!(first[1], '!');
    assert_eq!(first[16], '0');

    let mut picker = picker;
    picker.next();
    assert_eq!(picker.page, 1);
    let second = picker.page();
    assert_eq!(second[0], '@');
    // the pager wraps in both directions
    picker.prev();
    picker.prev();
    assert_eq!(picker.page, 7);
    let last = picker.page();
    assert_eq!(last.len(), 32);
    // the last page shows box-drawing rows, reversed row order
    assert_eq!(last[0], '\u{2510}');
    assert_eq!(last[16], '\u{2500}');
    picker.next();
    assert_eq!(picker.page, 0);
    // the delete control is left out of its row
    picker.page = 2;
    let third = picker.page();
    assert_eq!(third.len(), 31);
}

#[test]
fn history_stack_operations() {
    let mut h = History::default();
    h.add_layer(7);
    h.layer_up(7);
    h.layer_down(7);
    h.rename_layer(7, String::from("old"));
    assert_eq!(h.past.len(), 4);
    h.forget_redo();
    assert_eq!(h.future.len(), 0);
    // a non-draw entry is left alone by stroke reopening
    h.click_to_partial_draw();
    assert_eq!(h.past.len(), 4);
    assert!(h.partial_draw.is_none());
    // with no stroke pending, closing one records nothing
    h.finish_partial_draw(7);
    assert_eq!(h.past.len(), 4);
}
