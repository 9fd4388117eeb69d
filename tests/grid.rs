use falling_brick::grid::{Fill, Grid, Rect, GRID_MAX_X_CELLS};
use falling_brick::game::setup_grid;
use falling_brick::utils::Color;

fn configured(width: i32, height: i32, cols: i32, rows: i32, border: u32, cell_border: u32) -> Grid {
    let mut g = Grid::new(width, height);
    g.rect.width = width as u32;
    g.rect.height = height as u32;
    g.x_cells = cols;
    g.y_cells = rows;
    g.border = border;
    g.cells_border = cell_border;
    g
}

#[test]
fn new_trims_default_layout() {
    let g = Grid::new(500, 500);
    // 500 - 6 - 60 = 434; 434 % 10 = 4
    assert_eq!(g.rect, Rect { x: 0, y: 0, width: 496, height: 496 });
    assert_eq!(g.x_cells, 10);
    assert_eq!(g.y_cells, 10);
    assert_eq!(g.border, 3);
    assert_eq!(g.cells_border, 3);
    assert_eq!(g.background_color, Color::dark_gray());
    assert_eq!(g.border_color, Color::gray());
    assert!(g.cells.is_empty());
}

#[test]
fn ajust_size_removes_remainder_on_each_axis() {
    let mut g = configured(107, 93, 4, 5, 2, 1);
    assert!(g.ajust_size());
    // width: 107 - 4 - 8 = 95, 95 % 4 = 3; height: 93 - 4 - 10 = 79, 79 % 5 = 4
    assert_eq!(g.rect.width, 104);
    assert_eq!(g.rect.height, 89);
}

#[test]
fn ajust_size_rejects_zero_dimensions() {
    let mut g = configured(0, 100, 4, 4, 1, 1);
    assert!(!g.ajust_size());
    assert_eq!(g.rect.width, 0);
    assert_eq!(g.rect.height, 100);
    let mut g = configured(100, 100, 0, 4, 1, 1);
    assert!(!g.ajust_size());
    assert_eq!(g.rect.width, 100);
}

#[test]
fn even_division_after_adjust_and_init() {
    for &(w, h, cols, rows, b, cb) in &[
        (500, 500, 10, 10, 3, 3),
        (331, 217, 7, 3, 2, 1),
        (640, 480, 20, 20, 0, 0),
        (123, 456, 1, 20, 5, 2),
    ] {
        let mut g = configured(w, h, cols, rows, b, cb);
        assert!(g.ajust_size());
        assert!(g.init());
        assert_eq!(g.cells.len(), (cols * rows) as usize);
        let cw = g.cells[0].rect.width;
        let ch = g.cells[0].rect.height;
        for c in &g.cells {
            assert_eq!(c.rect.width, cw);
            assert_eq!(c.rect.height, ch);
        }
        assert_eq!(cols as u32 * cw + 2 * cols as u32 * cb + 2 * b, g.rect.width);
        assert_eq!(rows as u32 * ch + 2 * rows as u32 * cb + 2 * b, g.rect.height);
    }
}

#[test]
fn init_lays_out_cells() {
    let mut g = Grid::new(500, 500);
    g.align_center(800, 600);
    assert!(g.init());
    let c = g.cell(0, 0);
    assert_eq!(c.rect, Rect { x: 158, y: 58, width: 43, height: 43 });
    assert_eq!(c.border, Rect { x: 155, y: 55, width: 49, height: 49 });
    assert_eq!(c.rect_color, Color::dark_gray());
    assert_eq!(c.border_color, Color::gray());
    let c = g.cell(9, 2);
    assert_eq!(c.rect.x, 158 + 9 * 49);
    assert_eq!(c.rect.y, 58 + 2 * 49);
    // the last cell's border ends on the inside of the outer border
    let last = g.cell(9, 9);
    assert_eq!(last.border.x + last.border.width as i32, g.rect.x + g.rect.width as i32 - 3);
}

#[test]
fn align_center_centres_grid() {
    let mut g = Grid::new(500, 500);
    g.align_center(800, 600);
    assert_eq!(g.rect.x, (800 - 496) / 2);
    assert_eq!(g.rect.y, (600 - 496) / 2);
    assert_eq!(g.rect.width, 496);
    let mut g = configured(101, 51, 1, 1, 0, 0);
    g.align_center(200, 100);
    assert_eq!(g.rect.x, 49);
    assert_eq!(g.rect.y, 24);
}

#[test]
fn align_center_in_smaller_viewport_rounds_towards_zero() {
    let mut g = configured(101, 101, 1, 1, 0, 0);
    g.align_center(50, 100);
    assert_eq!(g.rect.x, -25);
    assert_eq!(g.rect.y, 0);
}

#[test]
fn init_rejects_too_many_cells() {
    let mut g = configured(500, 500, GRID_MAX_X_CELLS as i32 + 1, 10, 3, 3);
    assert!(!g.init());
    assert!(g.cells.is_empty());
    let mut g = configured(500, 500, 10, 21, 3, 3);
    assert!(!g.init());
    assert!(g.cells.is_empty());
    let mut g = configured(500, 500, 20, 20, 3, 3);
    assert!(g.init());
    assert_eq!(g.cells.len(), 400);
}

#[test]
fn init_rejects_missing_dimensions() {
    let mut g = configured(0, 500, 10, 10, 3, 3);
    assert!(!g.init());
    assert!(g.cells.is_empty());
    let mut g = configured(500, 500, 10, 0, 3, 3);
    assert!(!g.init());
    let mut g = configured(500, 500, -1, 10, 3, 3);
    assert!(!g.init());
}

#[test]
fn set_cell_color_paints_one_cell() {
    let mut g = Grid::new(500, 500);
    assert!(g.init());
    g.set_cell_color(4, 7, Color::red());
    assert_eq!(g.cell(4, 7).rect_color, Color::red());
    assert_eq!(g.cell(7, 4).rect_color, Color::dark_gray());
    assert_eq!(g.cell(4, 6).rect_color, Color::dark_gray());
}

#[test]
fn render_commands_frame_then_cells() {
    let mut g = Grid::new(500, 500);
    assert!(g.init());
    let fills = g.render_commands();
    assert_eq!(fills.len(), 1 + 2 * 100);
    assert_eq!(fills[0], Fill { rect: g.rect, color: Color::gray() });
    assert_eq!(fills[1], Fill { rect: g.cell(0, 0).border, color: Color::gray() });
    assert_eq!(fills[2], Fill { rect: g.cell(0, 0).rect, color: Color::dark_gray() });
    assert_eq!(fills[4].rect, g.cell(0, 1).rect);
}

#[test]
fn render_commands_skip_missing_borders() {
    let mut g = configured(100, 100, 5, 5, 0, 0);
    assert!(g.init());
    let fills = g.render_commands();
    assert_eq!(fills.len(), 25);
    assert_eq!(fills[0].rect, g.cell(0, 0).rect);
    assert_eq!(fills[0].rect.width, 20);
}

#[test]
fn setup_grid_for_default_window() {
    let g = setup_grid(800, 600).unwrap();
    assert_eq!(g.rect, Rect { x: 152, y: 52, width: 496, height: 496 });
    assert_eq!(g.cells.len(), 100);
    assert_eq!(g.cell(0, 0).rect.width, 43);
}

#[test]
fn setup_grid_rejects_tiny_window() {
    assert!(setup_grid(165, 600).is_none());
    assert!(setup_grid(166, 600).is_some());
    assert!(setup_grid(800, 100).is_none());
}

#[test]
fn color_constructors() {
    assert_eq!(Color::rgba(1, 2, 3, 4), Color { r: 1, g: 2, b: 3, a: 4 });
    assert_eq!(Color::gray(), Color::rgba(100, 100, 100, 255));
    assert_eq!(Color::dark_gray(), Color::rgba(30, 30, 30, 255));
    assert_eq!(Color::light_gray(), Color::rgba(200, 200, 200, 255));
    assert_eq!(Color::red(), Color::rgba(255, 0, 0, 255));
    assert_eq!(Color::blue(), Color::rgba(0, 0, 255, 255));
}
