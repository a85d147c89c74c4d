use terminart::app::App;
use terminart::stroke::connect_points;
use terminart::tools::Tool;
use terminart::TOOLBOX_WIDTH;

fn painted_coords(app: &mut App, tool: Tool, size: u16, x: u16, y: u16) -> Vec<(u16, u16)> {
    app.brush.tool = tool;
    app.brush.size = size;
    app.on_press(TOOLBOX_WIDTH + x, y);
    app.on_release();
    let rendered = app.layers.render();
    let mut out: Vec<(u16, u16)> = Vec::new();
    let n: usize = rendered.len();
    for i in 0..n {
        out.push(rendered.pair_at(i).0);
    }
    out.sort();
    out
}

#[test]
fn point_paints_one_cell() {
    let mut app = App::new();
    assert_eq!(painted_coords(&mut app, Tool::Point, 1, 5, 5), vec![(5, 5)]);
}

#[test]
fn square_covers_a_block() {
    let mut app = App::new();
    let got = painted_coords(&mut app, Tool::Square, 3, 5, 5);
    let mut expected: Vec<(u16, u16)> = Vec::new();
    for cx in 4..=6u16 {
        for cy in 4..=6u16 {
            expected.push((cx, cy));
        }
    }
    expected.sort();
    assert_eq!(got, expected);
}

#[test]
fn square_skips_negative_coordinates() {
    let mut app = App::new();
    // a size-3 square at the origin loses its off-grid row and column
    let got = painted_coords(&mut app, Tool::Square, 3, 0, 0);
    assert_eq!(got, vec![(0, 0), (0, 1), (1, 0), (1, 1)]);
}

#[test]
fn box_is_the_square_border() {
    let mut app = App::new();
    let got = painted_coords(&mut app, Tool::Box, 3, 5, 5);
    let mut expected: Vec<(u16, u16)> = Vec::new();
    for cx in 4..=6u16 {
        for cy in 4..=6u16 {
            if cx == 4 || cx == 6 || cy == 4 || cy == 6 {
                expected.push((cx, cy));
            }
        }
    }
    expected.sort();
    assert_eq!(got, expected);
}

#[test]
fn disk_is_all_offsets_within_radius() {
    let mut app = App::new();
    let got = painted_coords(&mut app, Tool::Disk, 2, 8, 8);
    let mut expected: Vec<(u16, u16)> = Vec::new();
    for dx in -2i32..=2 {
        for dy in -2i32..=2 {
            if dx * dx + dy * dy <= 4 {
                expected.push(((8 + dx) as u16, (8 + dy) as u16));
            }
        }
    }
    expected.sort();
    assert_eq!(got, expected);
}

#[test]
fn circle_is_the_midpoint_ring() {
    let mut app = App::new();
    let got = painted_coords(&mut app, Tool::Circle, 2, 8, 8);
    // radius-two midpoint ring offsets
    let offsets = vec![
        (2i32, 0i32),
        (-2, 0),
        (0, 2),
        (0, -2),
        (2, 1),
        (-2, 1),
        (2, -1),
        (-2, -1),
        (1, 2),
        (-1, 2),
        (1, -2),
        (-1, -2),
    ];
    let mut expected: Vec<(u16, u16)> = offsets
        .into_iter()
        .map(|(dx, dy)| ((8 + dx) as u16, (8 + dy) as u16))
        .collect();
    expected.sort();
    expected.dedup();
    assert_eq!(got, expected);
}

#[test]
fn plus_is_a_cross_and_size_one_is_the_center() {
    let mut app = App::new();
    let got = painted_coords(&mut app, Tool::Plus, 2, 8, 8);
    let mut expected = vec![
        (6u16, 8u16),
        (7, 8),
        (8, 8),
        (9, 8),
        (10, 8),
        (8, 6),
        (8, 7),
        (8, 9),
        (8, 10),
    ];
    expected.sort();
    assert_eq!(got, expected);

    let mut app2 = App::new();
    assert_eq!(painted_coords(&mut app2, Tool::Plus, 1, 8, 8), vec![(8, 8)]);
}

#[test]
fn horizontal_and_vertical_bars() {
    let mut app = App::new();
    let got = painted_coords(&mut app, Tool::Horizontal, 2, 8, 8);
    assert_eq!(got, vec![(6, 8), (7, 8), (8, 8), (9, 8), (10, 8)]);

    let mut app2 = App::new();
    let got2 = painted_coords(&mut app2, Tool::Vertical, 2, 8, 8);
    assert_eq!(got2, vec![(8, 6), (8, 7), (8, 8), (8, 9), (8, 10)]);
}

#[test]
fn connect_single_point_cases() {
    // no previous position: just the current point
    assert_eq!(connect_points((5, 5), None), vec![(5, 5)]);
    // previous equals current: still just the one point
    assert_eq!(connect_points((0, 0), Some((0, 0))), vec![(0, 0)]);
}

#[test]
fn connect_diagonal_line_is_monotone() {
    // from (4,2) back to the previous position (0,0): four steps
    let path = connect_points((4, 2), Some((0, 0)));
    assert_eq!(path, vec![(3, 1), (2, 1), (1, 0), (0, 0)]);
    // the minor-axis offsets never decrease along the major axis
    let mut last_minor: u16 = 0;
    for (i, p) in path.iter().enumerate() {
        let minor = 2 - p.1;
        assert!(minor >= last_minor);
        assert_eq!(p.0, 3 - i as u16);
        last_minor = minor;
    }
}

#[test]
fn connect_axis_aligned_line() {
    let path = connect_points((0, 0), Some((0, 4)));
    assert_eq!(path, vec![(0, 1), (0, 2), (0, 3), (0, 4)]);
    let path2 = connect_points((3, 7), Some((6, 7)));
    assert_eq!(path2, vec![(4, 7), (5, 7), (6, 7)]);
}

#[test]
fn drag_paints_a_continuous_stroke() {
    let mut app = App::new();
    app.brush.tool = Tool::Point;
    let x0 = TOOLBOX_WIDTH;
    app.on_press(x0, 0);
    app.on_drag(x0 + 6, 3);
    app.on_release();
    let rendered = app.layers.render();
    // the press painted its point and the drag painted the six steps
    // leading back to it; the stroke walks from just beyond the new
    // pointer position to the previous one
    assert_eq!(rendered.len(), 6);
    assert!(rendered.get((0, 0)).is_some());
    assert!(rendered.get((5, 2)).is_some());
    assert!(rendered.get((6, 3)).is_none());
}
