use crate::grid::{centered, interior, trimmed_extent, Grid};
use crate::utils::{rand_inclusive, Color, MillisTimer};
use vstd::prelude::*;

verus! {

/// The number of lives a game starts with, and is given back when it runs out.
pub const NUMBER_OF_LIFES: i32 = 5;

/// The margin, in pixels, kept around the grid on each side of the viewport.
pub const MARGIN: i32 = 50;

/// The fall rate, in steps per second, that a game starts with.
pub const START_SPEED: u64 = 2;

/// A player's input.
#[derive(Clone, Copy, Debug, PartialEq, Eq, Structural)]
pub enum Command {
    Quit,
    Cancel,
    MoveLeft,
    MoveRight,
}

/// The state of a game: the grid, the falling brick, the catcher at the
/// bottom row, the score and the lives left.
pub struct Game {
    pub grid: Grid,
    pub falling_x: i32,
    pub falling_y: i32,
    pub falling_speed: u64,
    pub catcher_x: i32,
    pub catcher_y: i32,
    pub score: i32,
    pub lives: i32,
}

/// A new falling brick: a random column of `grid`, one row above the grid.
pub fn reset_falling_brick(grid: &Grid) -> (r: (i32, i32))
    requires
        grid.x_cells >= 1,
    ensures
        0 <= r.0 < grid.x_cells,
        r.1 == -1,
{
    let x = rand_inclusive(0, grid.x_cells - 1);
    (x, -1)
}

/// The milliseconds between two steps of the fall at `speed` steps per second.
pub open spec fn spec_fall_interval(speed: u64) -> int {
    1000int / (speed as int)
}

/// The side of the square grid that fits a `screen_w` by `screen_h` viewport
/// with the margin kept on every side.
pub open spec fn spec_grid_size(screen_w: int, screen_h: int) -> int {
    let w = screen_w - 2 * MARGIN;
    let h = screen_h - 2 * MARGIN;
    if w <= h {
        w
    } else {
        h
    }
}

/// The grid of that size leaves room for the outer border and the borders
/// of ten cells.
pub open spec fn spec_fits_grid(screen_w: int, screen_h: int) -> bool {
    interior(spec_grid_size(screen_w, screen_h), 3, 10, 3) >= 0
}

/// `g` has the default layout, sized and centred for the viewport: a square
/// of `spec_grid_size` trimmed, ten by ten cells, borders of 3 pixels, gray
/// on dark gray.
pub open spec fn default_layout(g: Grid, screen_w: int, screen_h: int) -> bool {
    let t = trimmed_extent(spec_grid_size(screen_w, screen_h), 3, 10, 3);
    &&& g.rect.width == t
    &&& g.rect.height == t
    &&& g.rect.x == centered(screen_w, t)
    &&& g.rect.y == centered(screen_h, t)
    &&& g.x_cells == 10
    &&& g.y_cells == 10
    &&& g.border == 3
    &&& g.cells_border == 3
    &&& g.background_color == Color::spec_dark_gray()
    &&& g.border_color == Color::spec_gray()
    &&& g.cells_border_color == Color::spec_gray()
}

/// The milliseconds between two steps of the fall at `speed` steps per second.
pub fn fall_interval_ms(speed: u64) -> (ms: u128)
    requires
        speed >= 1,
    ensures
        ms == spec_fall_interval(speed),
{
    1000u128 / (speed as u128)
}

/// Builds the playfield for a `screen_w` by `screen_h` viewport: the largest
/// square that keeps the margin on every side, with the default layout,
/// trimmed, centred and laid out. `None` where that square is too small to
/// hold the cells and their borders.
pub fn setup_grid(screen_w: i32, screen_h: i32) -> (r: Option<Grid>)
    ensures
        r.is_some() == spec_fits_grid(screen_w as int, screen_h as int),
        r matches Some(g) ==> g.is_laid_out() && default_layout(g, screen_w as int, screen_h as int),
{
    let w: i64 = screen_w as i64 - 2 * MARGIN as i64;
    let h: i64 = screen_h as i64 - 2 * MARGIN as i64;
    let size: i64 = if w <= h {
        w
    } else {
        h
    };
    if size < 2 * 3 + 2 * 10 * 3 {
        return None;
    }
    let mut grid = Grid::new(size as i32, size as i32);
    proof {
        crate::grid::lemma_trim_bounds(size as int, 3, 10, 3);
        crate::grid::lemma_trim_floor(size as int, 3, 10, 3);
    }
    grid.align_center(screen_w, screen_h);
    let ghost old_grid = grid;
    let ok = grid.init();
    if !ok {
        return None;
    }
    proof {
        crate::grid::lemma_laid_out(grid, old_grid);
    }
    Some(grid)
}

impl Game {
    /// A game on a laid-out grid whose cells all show the background: the
    /// brick above `column`, the catcher in the middle of the bottom row, no
    /// score, all lives, the starting speed.
    pub fn start(grid: Grid, column: i32) -> (g: Game)
        requires
            grid.is_initialized(),
            forall|i: int, j: int|
                0 <= i < grid.x_cells && 0 <= j < grid.y_cells ==> #[trigger] grid.color_of(i, j)
                    == grid.background_color,
            0 <= column < grid.x_cells,
        ensures
            g.wf(),
            g.grid.same_frame(grid),
            g.grid.same_cells_geometry(grid),
            g.falling_x == column,
            g.falling_y == -1,
            g.falling_speed == START_SPEED,
            g.catcher_x == grid.x_cells / 2,
            g.catcher_y == grid.y_cells - 1,
            g.score == 0,
            g.lives == NUMBER_OF_LIFES,
    {
        let catcher_x = grid.x_cells / 2;
        let catcher_y = grid.y_cells - 1;
        let mut grid = grid;
        grid.set_cell_color(catcher_x, catcher_y, Color::blue());
        Game {
            grid,
            falling_x: column,
            falling_y: -1,
            falling_speed: START_SPEED,
            catcher_x,
            catcher_y,
            score: 0,
            lives: NUMBER_OF_LIFES,
        }
    }

    /// A game on the grid that `setup_grid` builds for the viewport, with the
    /// first brick above a random column. `None` where the grid does not fit.
    pub fn new(screen_w: i32, screen_h: i32) -> (r: Option<Game>)
        ensures
            r.is_some() == spec_fits_grid(screen_w as int, screen_h as int),
            r matches Some(g) ==> {
                &&& g.wf()
                &&& default_layout(g.grid, screen_w as int, screen_h as int)
                &&& g.grid.cells_in_place()
                &&& 0 <= g.falling_x < 10
                &&& g.falling_y == -1
                &&& g.falling_speed == START_SPEED
                &&& g.catcher_x == 5
                &&& g.catcher_y == 9
                &&& g.score == 0
                &&& g.lives == NUMBER_OF_LIFES
            },
    {
        match setup_grid(screen_w, screen_h) {
            None => None,
            Some(grid) => {
                let (column, _) = reset_falling_brick(&grid);
                proof {
                    assert forall|i: int, j: int|
                        0 <= i < grid.x_cells && 0 <= j < grid.y_cells implies #[trigger] grid.color_of(i, j)
                        == grid.background_color by {
                        assert(grid.cells@[grid.cell_index(i, j)] == grid.cell_at(i, j));
                    }
                }
                let g = Game::start(grid, column);
                proof {
                    crate::grid::lemma_in_place_kept(g.grid, grid);
                }
                Some(g)
            },
        }
    }

    /// Moves the catcher one column left, unless it stands on the first
    /// column or the brick occupies that column on the catcher's row.
    pub fn move_left(&mut self) -> (moved: bool)
        requires
            old(self).wf(),
        ensures
            moved == old(self).can_move_to(old(self).catcher_x - 1),
            moved ==> Game::moved_to(*old(self), *final(self), old(self).catcher_x - 1),
            !moved ==> *final(self) == *old(self),
    {
        if self.catcher_x > 0 && (self.catcher_y != self.falling_y || self.catcher_x != self.falling_x + 1) {
            let background = self.grid.background_color;
            self.grid.set_cell_color(self.catcher_x, self.catcher_y, background);
            self.catcher_x = self.catcher_x - 1;
            self.grid.set_cell_color(self.catcher_x, self.catcher_y, Color::blue());
            true
        } else {
            false
        }
    }

    /// Moves the catcher one column right, unless it stands on the last
    /// column or the brick occupies that column on the catcher's row.
    pub fn move_right(&mut self) -> (moved: bool)
        requires
            old(self).wf(),
        ensures
            moved == old(self).can_move_to(old(self).catcher_x + 1),
            moved ==> Game::moved_to(*old(self), *final(self), old(self).catcher_x + 1),
            !moved ==> *final(self) == *old(self),
    {
        if self.catcher_x < self.grid.x_cells - 1 && (self.catcher_y != self.falling_y || self.catcher_x
            != self.falling_x - 1) {
            let background = self.grid.background_color;
            self.grid.set_cell_color(self.catcher_x, self.catcher_y, background);
            self.catcher_x = self.catcher_x + 1;
            self.grid.set_cell_color(self.catcher_x, self.catcher_y, Color::blue());
            true
        } else {
            false
        }
    }

    /// Applies a command; returns whether the game goes on (`Quit` and
    /// `Cancel` end it).
    pub fn handle(&mut self, command: Command) -> (go_on: bool)
        requires
            old(self).wf(),
        ensures
            go_on == !(command == Command::Quit || command == Command::Cancel),
            command == Command::MoveLeft && old(self).can_move_to(old(self).catcher_x - 1) ==> Game::moved_to(
                *old(self),
                *final(self),
                old(self).catcher_x - 1,
            ),
            command == Command::MoveRight && old(self).can_move_to(old(self).catcher_x + 1) ==> Game::moved_to(
                *old(self),
                *final(self),
                old(self).catcher_x + 1,
            ),
            !(command == Command::MoveLeft && old(self).can_move_to(old(self).catcher_x - 1)) && !(command
                == Command::MoveRight && old(self).can_move_to(old(self).catcher_x + 1)) ==> *final(self)
                == *old(self),
    {
        match command {
            Command::Quit => false,
            Command::Cancel => false,
            Command::MoveLeft => {
                self.move_left();
                true
            },
            Command::MoveRight => {
                self.move_right();
                true
            },
        }
    }

    /// One step of the fall. The brick leaves its cell; if it can fall a row,
    /// it either lands on the catcher (a catch: one more point, one step per
    /// second faster, a new brick above `column`) or shows on its new row. On
    /// the last row it is missed instead: one life less (all lives back, at
    /// the cost of a point, where none would be left), and a new brick above
    /// `column`.
    pub fn advance(&mut self, column: i32)
        requires
            old(self).wf(),
            old(self).has_room(),
            0 <= column < old(self).grid.x_cells,
        ensures
            Game::advanced(*old(self), *final(self), column as int),
    {
        if self.falling_y >= 0 {
            let background = self.grid.background_color;
            self.grid.set_cell_color(self.falling_x, self.falling_y, background);
        }
        if self.falling_y < self.grid.y_cells - 1 {
            self.falling_y = self.falling_y + 1;
            if self.falling_x == self.catcher_x && self.falling_y == self.catcher_y {
                self.score = self.score + 1;
                self.falling_speed = self.falling_speed + 1;
                self.falling_x = column;
                self.falling_y = -1;
            } else {
                self.grid.set_cell_color(self.falling_x, self.falling_y, Color::red());
            }
        } else {
            self.lives = self.lives - 1;
            if self.lives <= 0 {
                self.lives = NUMBER_OF_LIFES;
                self.score = self.score - 1;
            }
            self.falling_x = column;
            self.falling_y = -1;
        }
    }

    /// Advances the fall once `elapsed_ms` reaches the fall interval; returns
    /// whether it did.
    pub fn step(&mut self, elapsed_ms: u128, column: i32) -> (fired: bool)
        requires
            old(self).wf(),
            old(self).has_room(),
            0 <= column < old(self).grid.x_cells,
        ensures
            fired == (elapsed_ms >= spec_fall_interval(old(self).falling_speed)),
            fired ==> Game::advanced(*old(self), *final(self), column as int),
            !fired ==> *final(self) == *old(self),
    {
        if elapsed_ms >= fall_interval_ms(self.falling_speed) {
            self.advance(column);
            true
        } else {
            false
        }
    }

    /// Reads `timer`; once the fall interval has passed, advances the fall,
    /// with a new brick above a random column where one comes, and restarts
    /// the timer. Returns whether it advanced.
    pub fn tick(&mut self, timer: &mut MillisTimer) -> (fired: bool)
        requires
            old(self).wf(),
            old(self).has_room(),
        ensures
            fired ==> exists|c: int| 0 <= c < old(self).grid.x_cells && Game::advanced(*old(self), *final(self), c),
            !fired ==> *final(self) == *old(self),
    {
        let elapsed = timer.elapsed_ms();
        let (column, _) = reset_falling_brick(&self.grid);
        let fired = self.step(elapsed, column);
        if fired {
            timer.reset();
        }
        fired
    }

    /// Where the status line is drawn: level with the inside of the grid's
    /// left border, 20 pixels above the grid.
    pub fn status_origin(&self) -> (p: (i32, i32))
        requires
            self.grid.rect.x + self.grid.border <= i32::MAX,
            self.grid.rect.y - 20 >= i32::MIN,
        ensures
            p.0 == self.grid.rect.x + self.grid.border,
            p.1 == self.grid.rect.y - 20,
    {
        let x: i64 = self.grid.rect.x as i64 + self.grid.border as i64;
        (x as i32, self.grid.rect.y - 20)
    }
    /// The colour the cell at column `i` and row `j` shows: the catcher's, the
    /// falling brick's, or the background.
    pub open spec fn color_at(&self, i: int, j: int) -> Color {
        if i == self.catcher_x && j == self.catcher_y {
            Color::spec_blue()
        } else if i == self.falling_x && j == self.falling_y {
            Color::spec_red()
        } else {
            self.grid.background_color
        }
    }

    /// The game's invariant: positions within the grid, the catcher on the
    /// bottom row and never under the brick, lives within their range, and
    /// every cell coloured after what occupies it.
    pub open spec fn wf(&self) -> bool {
        &&& self.grid.is_initialized()
        &&& 0 <= self.falling_x < self.grid.x_cells
        &&& -1 <= self.falling_y < self.grid.y_cells
        &&& 0 <= self.catcher_x < self.grid.x_cells
        &&& self.catcher_y == self.grid.y_cells - 1
        &&& !(self.falling_x == self.catcher_x && self.falling_y == self.catcher_y)
        &&& 1 <= self.lives <= NUMBER_OF_LIFES
        &&& self.falling_speed >= 1
        &&& forall|i: int, j: int|
            0 <= i < self.grid.x_cells && 0 <= j < self.grid.y_cells ==> #[trigger] self.grid.color_of(i, j)
                == self.color_at(i, j)
    }

    /// Score and speed can grow or shrink by one without overflow.
    pub open spec fn has_room(&self) -> bool {
        &&& i32::MIN < self.score < i32::MAX
        &&& self.falling_speed < u64::MAX
    }

    /// The grid is the same but for the cells' colours.
    pub open spec fn same_layout(&self, other: &Game) -> bool {
        &&& self.grid.same_frame(other.grid)
        &&& self.grid.same_cells_geometry(other.grid)
    }

    /// The next step of the brick lands it on the catcher.
    pub open spec fn is_catch(&self) -> bool {
        self.falling_y < self.grid.y_cells - 1 && self.falling_x == self.catcher_x && self.falling_y + 1
            == self.catcher_y
    }

    /// The brick rests on the last row and cannot fall further.
    pub open spec fn is_miss(&self) -> bool {
        self.falling_y >= self.grid.y_cells - 1
    }

    /// `post` is `pre` after one step of the fall, where a new brick, if one
    /// comes, starts at `column`.
    pub open spec fn advanced(pre: Game, post: Game, column: int) -> bool {
        &&& post.wf()
        &&& post.same_layout(&pre)
        &&& post.catcher_x == pre.catcher_x
        &&& post.catcher_y == pre.catcher_y
        &&& if pre.is_miss() {
            let lives = pre.lives - 1;
            &&& post.lives == (if lives <= 0 { NUMBER_OF_LIFES as int } else { lives })
            &&& post.score == (if lives <= 0 { pre.score - 1 } else { pre.score as int })
            &&& post.falling_speed == pre.falling_speed
            &&& post.falling_x == column
            &&& post.falling_y == -1
        } else if pre.is_catch() {
            &&& post.score == pre.score + 1
            &&& post.falling_speed == pre.falling_speed + 1
            &&& post.lives == pre.lives
            &&& post.falling_x == column
            &&& post.falling_y == -1
        } else {
            &&& post.score == pre.score
            &&& post.falling_speed == pre.falling_speed
            &&& post.lives == pre.lives
            &&& post.falling_x == pre.falling_x
            &&& post.falling_y == pre.falling_y + 1
        }
    }

    /// The catcher at `column` may move there: the column is in the grid and
    /// the brick does not occupy it on the catcher's row.
    pub open spec fn can_move_to(&self, column: int) -> bool {
        &&& 0 <= column < self.grid.x_cells
        &&& !(self.falling_y == self.catcher_y && self.falling_x == column)
    }

    /// `post` is `pre` with the catcher moved to `column`.
    pub open spec fn moved_to(pre: Game, post: Game, column: int) -> bool {
        &&& post.wf()
        &&& post.same_layout(&pre)
        &&& post.catcher_x == column
        &&& post.catcher_y == pre.catcher_y
        &&& post.falling_x == pre.falling_x
        &&& post.falling_y == pre.falling_y
        &&& post.falling_speed == pre.falling_speed
        &&& post.score == pre.score
        &&& post.lives == pre.lives
    }
}

/// A step that brings the brick from the row above the catcher's onto the
/// catcher's column is a catch: one more point, one step per second faster,
/// the same lives, the brick's cell back to the background, and a new brick
/// above the grid at the drawn column.
pub proof fn lemma_catch(pre: Game, post: Game, column: int)
    requires
        pre.wf(),
        pre.falling_y == pre.grid.y_cells - 2,
        pre.falling_x == pre.catcher_x,
        Game::advanced(pre, post, column),
    ensures
        post.score == pre.score + 1,
        post.falling_speed == pre.falling_speed + 1,
        post.lives == pre.lives,
        post.falling_x == column,
        post.falling_y == -1,
        pre.falling_y >= 0 ==> post.grid.color_of(pre.falling_x as int, pre.falling_y as int)
            == post.grid.background_color,
{
    if pre.falling_y >= 0 {
        assert(post.grid.color_of(pre.falling_x as int, pre.falling_y as int) == post.color_at(
            pre.falling_x as int,
            pre.falling_y as int,
        ));
    }
}

/// A step while the brick rests on the last row is a miss: with lives to
/// spare, one life less, the same score and speed, the brick's cell back to
/// the background, and a new brick above the grid at the drawn column.
pub proof fn lemma_miss(pre: Game, post: Game, column: int)
    requires
        pre.wf(),
        pre.falling_y == pre.grid.y_cells - 1,
        pre.lives >= 2,
        Game::advanced(pre, post, column),
    ensures
        post.lives == pre.lives - 1,
        post.score == pre.score,
        post.falling_speed == pre.falling_speed,
        post.falling_x == column,
        post.falling_y == -1,
        post.grid.color_of(pre.falling_x as int, pre.falling_y as int) == post.grid.background_color,
{
    assert(post.grid.color_of(pre.falling_x as int, pre.falling_y as int) == post.color_at(
        pre.falling_x as int,
        pre.falling_y as int,
    ));
}

/// A miss with the last life left gives all lives back at the cost of one
/// point: lives never show zero.
pub proof fn lemma_lives_reset(pre: Game, post: Game, column: int)
    requires
        pre.wf(),
        pre.falling_y == pre.grid.y_cells - 1,
        pre.lives == 1,
        Game::advanced(pre, post, column),
    ensures
        post.lives == NUMBER_OF_LIFES,
        post.score == pre.score - 1,
        post.falling_x == column,
        post.falling_y == -1,
{
}

} // verus!
