use falling_brick::game::{fall_interval_ms, reset_falling_brick, setup_grid, Command, Game, NUMBER_OF_LIFES};
use falling_brick::utils::{rand_inclusive, Color, MillisTimer};

fn game_with_brick(column: i32) -> Game {
    let grid = setup_grid(800, 600).unwrap();
    Game::start(grid, column)
}

#[test]
fn start_places_catcher_and_brick() {
    let g = game_with_brick(2);
    assert_eq!((g.falling_x, g.falling_y), (2, -1));
    assert_eq!((g.catcher_x, g.catcher_y), (5, 9));
    assert_eq!(g.score, 0);
    assert_eq!(g.lives, NUMBER_OF_LIFES);
    assert_eq!(g.falling_speed, 2);
    assert_eq!(g.grid.cell(5, 9).rect_color, Color::blue());
    assert_eq!(g.grid.cell(4, 9).rect_color, Color::dark_gray());
}

#[test]
fn new_game_for_default_window() {
    let g = Game::new(800, 600).unwrap();
    assert!(g.falling_x >= 0 && g.falling_x < 10);
    assert_eq!(g.falling_y, -1);
    assert_eq!((g.catcher_x, g.catcher_y), (5, 9));
    assert_eq!(g.grid.rect, falling_brick::grid::Rect { x: 152, y: 52, width: 496, height: 496 });
    assert_eq!(g.grid.cell(0, 0).rect.x, 158);
    assert_eq!(g.grid.cell(5, 9).rect_color, Color::blue());
    assert!(Game::new(100, 100).is_none());
}

#[test]
fn brick_falls_and_shows() {
    let mut g = game_with_brick(2);
    g.advance(7);
    assert_eq!((g.falling_x, g.falling_y), (2, 0));
    assert_eq!(g.grid.cell(2, 0).rect_color, Color::red());
    g.advance(7);
    assert_eq!((g.falling_x, g.falling_y), (2, 1));
    assert_eq!(g.grid.cell(2, 0).rect_color, Color::dark_gray());
    assert_eq!(g.grid.cell(2, 1).rect_color, Color::red());
    assert_eq!(g.score, 0);
    assert_eq!(g.lives, 5);
}

#[test]
fn catch_scenario() {
    let mut g = game_with_brick(3);
    while g.catcher_x > 3 {
        assert!(g.move_left());
    }
    g.falling_y = 8;
    g.grid.set_cell_color(3, 8, Color::red());
    g.advance(6);
    assert_eq!(g.score, 1);
    assert_eq!(g.falling_speed, 3);
    assert_eq!((g.falling_x, g.falling_y), (6, -1));
    assert_eq!(g.lives, 5);
    assert_eq!(g.grid.cell(3, 8).rect_color, Color::dark_gray());
    assert_eq!(g.grid.cell(3, 9).rect_color, Color::blue());
}

#[test]
fn miss_scenario() {
    let mut g = game_with_brick(1);
    g.falling_y = 8;
    g.advance(4);
    // reaching the last row is not yet a miss
    assert_eq!((g.falling_x, g.falling_y), (1, 9));
    assert_eq!(g.lives, 5);
    assert_eq!(g.grid.cell(1, 9).rect_color, Color::red());
    g.advance(4);
    assert_eq!(g.lives, 4);
    assert_eq!(g.score, 0);
    assert_eq!((g.falling_x, g.falling_y), (4, -1));
    assert_eq!(g.falling_speed, 2);
    assert_eq!(g.grid.cell(1, 9).rect_color, Color::dark_gray());
}

#[test]
fn lives_exhaustion_scenario() {
    let mut g = game_with_brick(0);
    g.lives = 1;
    g.falling_y = 9;
    g.advance(2);
    assert_eq!(g.lives, 5);
    assert_eq!(g.score, -1);
    assert_eq!((g.falling_x, g.falling_y), (2, -1));
}

#[test]
fn catcher_clamp_left() {
    let mut g = game_with_brick(9);
    while g.catcher_x > 0 {
        assert!(g.move_left());
    }
    assert!(!g.move_left());
    assert_eq!(g.catcher_x, 0);
    assert_eq!(g.grid.cell(0, 9).rect_color, Color::blue());
    assert_eq!(g.grid.cell(1, 9).rect_color, Color::dark_gray());
}

#[test]
fn catcher_clamp_right() {
    let mut g = game_with_brick(0);
    while g.catcher_x < 9 {
        assert!(g.move_right());
    }
    assert!(!g.move_right());
    assert_eq!(g.catcher_x, 9);
    assert_eq!(g.grid.cell(9, 9).rect_color, Color::blue());
}

#[test]
fn overlap_block() {
    let mut g = game_with_brick(4);
    g.falling_y = 9;
    g.grid.set_cell_color(4, 9, Color::red());
    assert!(!g.move_left());
    assert_eq!(g.catcher_x, 5);
    assert_eq!(g.grid.cell(4, 9).rect_color, Color::red());
    assert_eq!(g.grid.cell(5, 9).rect_color, Color::blue());
    assert!(g.move_right());
    assert_eq!(g.catcher_x, 6);
    assert_eq!(g.grid.cell(5, 9).rect_color, Color::dark_gray());
}

#[test]
fn overlap_only_on_same_row() {
    let mut g = game_with_brick(4);
    g.falling_y = 8;
    assert!(g.move_left());
    assert_eq!(g.catcher_x, 4);
    g.advance(0);
    assert_eq!(g.score, 1);
}

#[test]
fn handle_commands() {
    let mut g = game_with_brick(0);
    assert!(g.handle(Command::MoveLeft));
    assert_eq!(g.catcher_x, 4);
    assert!(g.handle(Command::MoveRight));
    assert_eq!(g.catcher_x, 5);
    assert!(!g.handle(Command::Quit));
    assert!(!g.handle(Command::Cancel));
    assert_eq!(g.catcher_x, 5);
}

#[test]
fn step_waits_for_fall_interval() {
    let mut g = game_with_brick(3);
    assert!(!g.step(499, 0));
    assert_eq!(g.falling_y, -1);
    assert!(g.step(500, 0));
    assert_eq!(g.falling_y, 0);
}

#[test]
fn fall_interval_truncates() {
    assert_eq!(fall_interval_ms(2), 500);
    assert_eq!(fall_interval_ms(3), 333);
    assert_eq!(fall_interval_ms(7), 142);
    assert_eq!(fall_interval_ms(2000), 0);
}

#[test]
fn tick_does_nothing_before_interval() {
    let mut g = game_with_brick(3);
    let mut timer = MillisTimer::new_now();
    assert!(!g.tick(&mut timer));
    assert_eq!(g.falling_y, -1);
}

#[test]
fn tick_advances_when_interval_passed() {
    let mut g = game_with_brick(3);
    g.falling_speed = 2000;
    let mut timer = MillisTimer::new_now();
    assert!(g.tick(&mut timer));
    assert_eq!((g.falling_x, g.falling_y), (3, 0));
}

#[test]
fn timer_counts_from_reset() {
    let mut t = MillisTimer::new_now();
    assert!(t.elapsed_ms() < 1000);
    t.reset();
    assert!(t.elapsed_ms() < 1000);
}

#[test]
fn random_column_in_range() {
    let g = game_with_brick(0);
    let mut seen_nonzero = false;
    for _ in 0..200 {
        let (x, y) = reset_falling_brick(&g.grid);
        assert!(x >= 0 && x < 10);
        assert_eq!(y, -1);
        if x != 0 {
            seen_nonzero = true;
        }
    }
    assert!(seen_nonzero);
    for _ in 0..50 {
        let r = rand_inclusive(-3, 3);
        assert!(r >= -3 && r <= 3);
    }
    assert_eq!(rand_inclusive(4, 4), 4);
}

#[test]
fn status_origin_above_grid() {
    let g = game_with_brick(0);
    assert_eq!(g.status_origin(), (155, 32));
}
