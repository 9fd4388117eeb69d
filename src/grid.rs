use crate::utils::Color;
use vstd::arithmetic::div_mod::{lemma_fundamental_div_mod, lemma_fundamental_div_mod_converse, lemma_mod_bound, lemma_mod_decreases};
use vstd::prelude::*;

verus! {

/// The largest number of columns a grid can hold.
pub const GRID_MAX_X_CELLS: usize = 20;

/// The largest number of rows a grid can hold.
pub const GRID_MAX_Y_CELLS: usize = 20;

/// An axis-aligned pixel rectangle: top-left corner and size.
#[derive(Clone, Copy, Debug, PartialEq, Eq, Structural)]
pub struct Rect {
    pub x: i32,
    pub y: i32,
    pub width: u32,
    pub height: u32,
}

/// One square of the grid: its interior and the border drawn around it.
#[derive(Clone, Copy, Debug, PartialEq, Eq, Structural)]
pub struct Cell {
    pub rect: Rect,
    pub rect_color: Color,
    pub border: Rect,
    pub border_color: Color,
}

/// One filled rectangle to draw.
#[derive(Clone, Copy, Debug, PartialEq, Eq, Structural)]
pub struct Fill {
    pub rect: Rect,
    pub color: Color,
}

/// The playfield: a framed rectangle divided into `x_cells` by `y_cells` cells.
///
/// Once initialised, `cells` holds the cells column by column: the cell at
/// column `i` and row `j` stands at index `i * y_cells + j`.
pub struct Grid {
    pub rect: Rect,
    pub background_color: Color,
    pub border: u32,
    pub border_color: Color,
    pub x_cells: i32,
    pub y_cells: i32,
    pub cells_border: u32,
    pub cells_border_color: Color,
    pub cells: Vec<Cell>,
}

/// Space left for the cells' interiors along one axis, once the outer border
/// and the borders of `count` cells are taken off `extent`.
pub open spec fn interior(extent: int, border: int, count: int, cell_border: int) -> int {
    extent - 2 * border - 2 * count * cell_border
}

/// `interior`, taken as zero where the borders do not fit.
pub open spec fn usable(extent: int, border: int, count: int, cell_border: int) -> int {
    let s = interior(extent, border, count, cell_border);
    if s < 0 {
        0
    } else {
        s
    }
}

/// The extent after the pixels that cannot be shared evenly among `count`
/// cells are trimmed off.
pub open spec fn trimmed_extent(extent: int, border: int, count: int, cell_border: int) -> int {
    extent - usable(extent, border, count, cell_border) % count
}

/// The interior extent of each of `count` cells.
pub open spec fn cell_extent(extent: int, border: int, count: int, cell_border: int) -> int {
    interior(extent, border, count, cell_border) / count
}

/// Where the interior of the `k`-th cell along an axis starts.
pub open spec fn cell_origin(origin: int, border: int, cell_border: int, cell_ext: int, k: int) -> int {
    origin + border + cell_border + k * (2 * cell_border + cell_ext)
}

/// Half of `screen - extent`, rounded towards zero.
pub open spec fn centered(screen: int, extent: int) -> int {
    let d = screen - extent;
    if d >= 0 {
        d / 2
    } else {
        -((-d) / 2)
    }
}

/// The fills that draw one cell: its border, unless it has none, then its interior.
pub open spec fn cell_fills(c: Cell) -> Seq<Fill> {
    if c.border.x != c.rect.x {
        seq![Fill { rect: c.border, color: c.border_color }, Fill { rect: c.rect, color: c.rect_color }]
    } else {
        seq![Fill { rect: c.rect, color: c.rect_color }]
    }
}

/// The fills that draw the given cells, in order.
pub open spec fn cells_fills(cells: Seq<Cell>) -> Seq<Fill>
    decreases cells.len(),
{
    if cells.len() == 0 {
        seq![]
    } else {
        cells_fills(cells.drop_last()) + cell_fills(cells.last())
    }
}

proof fn lemma_index_in_bounds(i: int, j: int, cols: int, rows: int)
    requires
        0 <= i < cols <= 20,
        0 <= j < rows <= 20,
    ensures
        cols * rows <= 400,
        0 <= i * rows + j < cols * rows,
        (i * rows + j) / rows == i,
        (i * rows + j) % rows == j,
{
    assert(i * rows + j < cols * rows) by (nonlinear_arith)
        requires
            0 <= i < cols,
            0 <= j < rows,
    ;
    assert(0 <= i * rows) by (nonlinear_arith)
        requires
            0 <= i,
            0 <= rows,
    ;
    assert(cols * rows <= 400) by (nonlinear_arith)
        requires
            0 <= cols <= 20,
            0 <= rows <= 20,
    ;
    lemma_fundamental_div_mod_converse(i * rows + j, rows, i, j);
}

proof fn lemma_index_decompose(k: int, cols: int, rows: int)
    requires
        0 <= k < cols * rows,
        rows > 0,
    ensures
        0 <= k / rows < cols,
        0 <= k % rows < rows,
        k == (k / rows) * rows + k % rows,
{
    lemma_fundamental_div_mod(k, rows);
    lemma_mod_bound(k, rows);
    let q = k / rows;
    assert(q * rows == rows * q) by (nonlinear_arith);
    assert(0 <= q < cols) by (nonlinear_arith)
        requires
            k == rows * q + k % rows,
            0 <= k % rows < rows,
            0 <= k < cols * rows,
            rows > 0,
    ;
}

/// Once `ajust_size` has trimmed a grid and `init` has laid it out, every cell
/// has the same interior width and the same interior height, and the cells
/// with their borders and the outer border fill the grid's width and height
/// exactly: no pixel is left over.
pub proof fn lemma_even_division(configured: Grid, adjusted: Grid, laid_out: Grid)
    requires
        configured.has_extent(),
        adjusted == configured.adjusted(),
        adjusted.can_init(),
        adjusted.holds_cells(),
        Grid::initialized_from(laid_out, adjusted),
    ensures
        forall|a: int, b: int|
            0 <= a < laid_out.cells@.len() && 0 <= b < laid_out.cells@.len() ==> {
                &&& (#[trigger] laid_out.cells@[a]).rect.width == (#[trigger] laid_out.cells@[b]).rect.width
                &&& laid_out.cells@[a].rect.height == laid_out.cells@[b].rect.height
            },
        laid_out.x_cells * laid_out.spec_cell_width() + 2 * laid_out.x_cells * laid_out.cells_border + 2
            * laid_out.border == laid_out.rect.width,
        laid_out.y_cells * laid_out.spec_cell_height() + 2 * laid_out.y_cells * laid_out.cells_border + 2
            * laid_out.border == laid_out.rect.height,
{
    let cols = adjusted.x_cells as int;
    let rows = adjusted.y_cells as int;
    assert forall|k: int| 0 <= k < laid_out.cells@.len() implies {
        &&& (#[trigger] laid_out.cells@[k]).rect.width == adjusted.spec_cell_width() as u32
        &&& laid_out.cells@[k].rect.height == adjusted.spec_cell_height() as u32
    } by {
        lemma_index_decompose(k, cols, rows);
        let i = k / rows;
        let j = k % rows;
        assert(adjusted.cell_index(i, j) == k);
        assert(laid_out.cells@[adjusted.cell_index(i, j)] == adjusted.cell_at(i, j));
    }
    lemma_trim_bounds(configured.rect.width as int, configured.border as int, cols, configured.cells_border as int);
    lemma_trim_bounds(configured.rect.height as int, configured.border as int, rows, configured.cells_border as int);
    lemma_axis_divides(configured.rect.width as int, configured.border as int, cols, configured.cells_border as int);
    lemma_axis_divides(configured.rect.height as int, configured.border as int, rows, configured.cells_border as int);
}

/// Trimming never grows an extent nor makes it negative.
pub(crate) proof fn lemma_trim_bounds(extent: int, border: int, count: int, cb: int)
    requires
        extent >= 0,
        border >= 0,
        count > 0,
        cb >= 0,
    ensures
        0 <= trimmed_extent(extent, border, count, cb) <= extent,
{
    let u = usable(extent, border, count, cb);
    assert(0 <= count * cb) by (nonlinear_arith)
        requires
            count > 0,
            cb >= 0,
    ;
    lemma_mod_bound(u, count);
    lemma_mod_decreases(u as nat, count as nat);
}

/// Trimming keeps an extent at least as large as the borders it must hold.
pub(crate) proof fn lemma_trim_floor(extent: int, border: int, count: int, cb: int)
    requires
        border >= 0,
        count > 0,
        cb >= 0,
        interior(extent, border, count, cb) >= 0,
    ensures
        interior(trimmed_extent(extent, border, count, cb), border, count, cb) >= 0,
{
    lemma_mod_decreases(usable(extent, border, count, cb) as nat, count as nat);
}

/// Along one axis, the trimmed extent leaves the cells an interior that the
/// cell count divides.
proof fn lemma_axis_divides(extent: int, border: int, count: int, cb: int)
    requires
        count > 0,
        interior(trimmed_extent(extent, border, count, cb), border, count, cb) >= 0,
    ensures
        count * cell_extent(trimmed_extent(extent, border, count, cb), border, count, cb) == interior(
            trimmed_extent(extent, border, count, cb),
            border,
            count,
            cb,
        ),
{
    let s0 = interior(extent, border, count, cb);
    let s = interior(trimmed_extent(extent, border, count, cb), border, count, cb);
    lemma_mod_bound(usable(extent, border, count, cb), count);
    if s0 < 0 {
        assert(usable(extent, border, count, cb) == 0);
        assert(false);
    }
    lemma_fundamental_div_mod(s0, count);
    let q = s0 / count;
    assert(s == q * count);
    lemma_fundamental_div_mod_converse(s, count, q, 0);
}

/// A grid that `init` has laid out holds every cell where `cell_at` puts it.
pub(crate) proof fn lemma_laid_out(after: Grid, before: Grid)
    requires
        Grid::initialized_from(after, before),
    ensures
        after.is_laid_out(),
{
    assert forall|i: int, j: int| 0 <= i < after.x_cells && 0 <= j < after.y_cells implies #[trigger] after.cells@[after.cell_index(
        i,
        j,
    )] == after.cell_at(i, j) by {
        assert(after.cells@[before.cell_index(i, j)] == before.cell_at(i, j));
    }
}

/// Repainting the cells of a laid-out grid keeps them in place.
pub(crate) proof fn lemma_in_place_kept(after: Grid, before: Grid)
    requires
        before.is_laid_out(),
        before.is_initialized(),
        after.same_frame(before),
        after.same_cells_geometry(before),
    ensures
        after.cells_in_place(),
{
    assert forall|i: int, j: int| 0 <= i < after.x_cells && 0 <= j < after.y_cells implies {
        &&& (#[trigger] after.cells@[after.cell_index(i, j)]).rect == after.cell_at(i, j).rect
        &&& after.cells@[after.cell_index(i, j)].border == after.cell_at(i, j).border
        &&& after.cells@[after.cell_index(i, j)].border_color == after.cell_at(i, j).border_color
    } by {
        lemma_index_in_bounds(i, j, before.x_cells as int, before.y_cells as int);
        assert(before.cells@[before.cell_index(i, j)] == before.cell_at(i, j));
    }
}

/// Along one axis, a cell and its border lie within the grid's frame.
proof fn lemma_cell_in_frame(origin: int, extent: int, border: int, count: int, cb: int, k: int)
    requires
        0 <= k < count,
        border >= 0,
        cb >= 0,
        interior(extent, border, count, cb) >= 0,
    ensures
        origin + border <= cell_origin(origin, border, cb, cell_extent(extent, border, count, cb), k) - cb,
        cell_origin(origin, border, cb, cell_extent(extent, border, count, cb), k) + cell_extent(
            extent,
            border,
            count,
            cb,
        ) + cb <= origin + extent - border,
        0 <= cell_extent(extent, border, count, cb),
        cell_extent(extent, border, count, cb) + 2 * cb <= extent,
{
    let s = interior(extent, border, count, cb);
    let ce = cell_extent(extent, border, count, cb);
    lemma_fundamental_div_mod(s, count);
    lemma_mod_bound(s, count);
    assert(count * ce <= s);
    assert(0 <= ce) by (nonlinear_arith)
        requires
            count * ce <= s,
            s >= 0,
            count > 0,
            s == count * ce + s % count,
            s % count < count,
    ;
    let step = 2 * cb + ce;
    assert(k * step <= (count - 1) * step) by (nonlinear_arith)
        requires
            0 <= k < count,
            step >= 0,
    ;
    assert((count - 1) * step + step == count * ce + 2 * count * cb) by (nonlinear_arith)
        requires
            step == 2 * cb + ce,
    ;
    assert(0 <= k * step) by (nonlinear_arith)
        requires
            0 <= k,
            step >= 0,
    ;
    assert(ce <= count * ce) by (nonlinear_arith)
        requires
            ce >= 0,
            count >= 1,
    ;
    assert(cb <= count * cb) by (nonlinear_arith)
        requires
            cb >= 0,
            count >= 1,
    ;
}

/// Trims `extent` so that what is left for the cells divides evenly among them.
fn trim_extent(extent: u32, border: u32, count: u32, cell_border: u32) -> (r: u32)
    requires
        count > 0,
    ensures
        r == trimmed_extent(extent as int, border as int, count as int, cell_border as int),
{
    let c: u128 = count as u128;
    let cb: u128 = cell_border as u128;
    assert(c * cb <= 0xffff_ffffu128 * 0xffff_ffffu128) by (nonlinear_arith)
        requires
            c <= 0xffff_ffffu128,
            cb <= 0xffff_ffffu128,
    ;
    let need: u128 = 2 * (border as u128) + 2 * (c * cb);
    let space: u128 = if extent as u128 >= need {
        extent as u128 - need
    } else {
        0
    };
    let rem: u128 = space % (count as u128);
    proof {
        lemma_mod_decreases(space as nat, count as nat);
        assert(2 * (count as int) * (cell_border as int) == 2 * (c * cb)) by (nonlinear_arith)
            requires
                c == count,
                cb == cell_border,
        ;
    }
    (extent as u128 - rem) as u32
}

/// The interior extent of each of `count` cells along one axis.
fn cell_size(extent: u32, border: u32, count: u32, cell_border: u32) -> (r: u32)
    requires
        count > 0,
        interior(extent as int, border as int, count as int, cell_border as int) >= 0,
    ensures
        r == cell_extent(extent as int, border as int, count as int, cell_border as int),
{
    let c: u128 = count as u128;
    let cb: u128 = cell_border as u128;
    proof {
        assert(2 * (count as int) * (cell_border as int) == 2 * (c * cb)) by (nonlinear_arith)
            requires
                c == count,
                cb == cell_border,
        ;
        lemma_cell_in_frame(0, extent as int, border as int, count as int, cell_border as int, 0);
    }
    let space: u128 = extent as u128 - 2 * (border as u128) - 2 * (c * cb);
    (space / c) as u32
}

/// Where the interior of the `k`-th cell along one axis starts.
fn cell_start(origin: i32, border: u32, cell_border: u32, cell_ext: u32, k: i32) -> (r: i128)
    requires
        0 <= k,
    ensures
        r == cell_origin(origin as int, border as int, cell_border as int, cell_ext as int, k as int),
{
    let step: i128 = 2 * (cell_border as i128) + cell_ext as i128;
    assert(0 <= k * step <= 0x7fff_ffffi128 * 0x3_ffff_ffffi128) by (nonlinear_arith)
        requires
            0 <= k <= 0x7fff_ffffi128,
            0 <= step <= 0x3_ffff_ffffi128,
    ;
    origin as i128 + border as i128 + cell_border as i128 + (k as i128) * step
}

impl Grid {
    /// Pixel size and cell counts are all positive.
    pub open spec fn has_extent(&self) -> bool {
        self.rect.width > 0 && self.rect.height > 0 && self.x_cells > 0 && self.y_cells > 0
    }

    /// `init` succeeds exactly on these grids.
    pub open spec fn can_init(&self) -> bool {
        self.has_extent() && self.x_cells <= GRID_MAX_X_CELLS && self.y_cells <= GRID_MAX_Y_CELLS
    }

    pub open spec fn spec_interior_width(&self) -> int {
        interior(self.rect.width as int, self.border as int, self.x_cells as int, self.cells_border as int)
    }

    pub open spec fn spec_interior_height(&self) -> int {
        interior(self.rect.height as int, self.border as int, self.y_cells as int, self.cells_border as int)
    }

    /// The borders fit in the frame, and every cell's rectangles lie within
    /// `i32` coordinates.
    pub open spec fn holds_cells(&self) -> bool {
        &&& self.spec_interior_width() >= 0
        &&& self.spec_interior_height() >= 0
        &&& self.rect.x + self.rect.width <= i32::MAX
        &&& self.rect.y + self.rect.height <= i32::MAX
    }

    pub open spec fn spec_cell_width(&self) -> int {
        cell_extent(self.rect.width as int, self.border as int, self.x_cells as int, self.cells_border as int)
    }

    pub open spec fn spec_cell_height(&self) -> int {
        cell_extent(self.rect.height as int, self.border as int, self.y_cells as int, self.cells_border as int)
    }

    /// The cell at column `i` and row `j` as `init` lays it out.
    pub open spec fn cell_at(&self, i: int, j: int) -> Cell {
        let cw = self.spec_cell_width();
        let ch = self.spec_cell_height();
        let cb = self.cells_border as int;
        let x = cell_origin(self.rect.x as int, self.border as int, cb, cw, i);
        let y = cell_origin(self.rect.y as int, self.border as int, cb, ch, j);
        Cell {
            rect: Rect { x: x as i32, y: y as i32, width: cw as u32, height: ch as u32 },
            rect_color: self.background_color,
            border: Rect {
                x: (x - cb) as i32,
                y: (y - cb) as i32,
                width: (cw + 2 * cb) as u32,
                height: (ch + 2 * cb) as u32,
            },
            border_color: self.cells_border_color,
        }
    }

    /// Where the cell at column `i` and row `j` stands in `cells`.
    pub open spec fn cell_index(&self, i: int, j: int) -> int {
        i * self.y_cells + j
    }

    /// The cell counts are within capacity and `cells` holds one cell for each.
    pub open spec fn is_initialized(&self) -> bool {
        &&& 1 <= self.x_cells <= GRID_MAX_X_CELLS
        &&& 1 <= self.y_cells <= GRID_MAX_Y_CELLS
        &&& self.cells@.len() == self.x_cells * self.y_cells
    }

    /// The grid with its rectangle trimmed by `ajust_size`.
    pub open spec fn adjusted(self) -> Grid {
        Grid {
            rect: Rect {
                x: self.rect.x,
                y: self.rect.y,
                width: trimmed_extent(
                    self.rect.width as int,
                    self.border as int,
                    self.x_cells as int,
                    self.cells_border as int,
                ) as u32,
                height: trimmed_extent(
                    self.rect.height as int,
                    self.border as int,
                    self.y_cells as int,
                    self.cells_border as int,
                ) as u32,
            },
            ..self
        }
    }

    /// The grid with its top-left corner moved to `(x, y)`.
    pub open spec fn moved(self, x: i32, y: i32) -> Grid {
        Grid { rect: Rect { x, y, ..self.rect }, ..self }
    }

    /// The interior colour of the cell at column `i` and row `j`.
    pub open spec fn color_of(&self, i: int, j: int) -> Color {
        self.cells@[self.cell_index(i, j)].rect_color
    }

    /// Both grids hold as many cells, with the same rectangles and border colours.
    pub open spec fn same_cells_geometry(self, other: Grid) -> bool {
        &&& self.cells@.len() == other.cells@.len()
        &&& forall|k: int|
            0 <= k < self.cells@.len() ==> {
                &&& (#[trigger] self.cells@[k]).rect == other.cells@[k].rect
                &&& self.cells@[k].border == other.cells@[k].border
                &&& self.cells@[k].border_color == other.cells@[k].border_color
            }
    }

    /// Every cell has the rectangles and border colour that `init` gives it;
    /// its interior colour may differ.
    pub open spec fn cells_in_place(self) -> bool {
        forall|i: int, j: int|
            0 <= i < self.x_cells && 0 <= j < self.y_cells ==> {
                &&& (#[trigger] self.cells@[self.cell_index(i, j)]).rect == self.cell_at(i, j).rect
                &&& self.cells@[self.cell_index(i, j)].border == self.cell_at(i, j).border
                &&& self.cells@[self.cell_index(i, j)].border_color == self.cell_at(i, j).border_color
            }
    }

    /// Every cell is where `init` lays it out.
    pub open spec fn is_laid_out(self) -> bool {
        Grid::initialized_from(self, self)
    }

    /// Everything but the cells is the same in both grids.
    pub open spec fn same_frame(self, other: Grid) -> bool {
        &&& self.rect == other.rect
        &&& self.background_color == other.background_color
        &&& self.border == other.border
        &&& self.border_color == other.border_color
        &&& self.x_cells == other.x_cells
        &&& self.y_cells == other.y_cells
        &&& self.cells_border == other.cells_border
        &&& self.cells_border_color == other.cells_border_color
    }

    /// `after` is `before` with every cell laid out as `cell_at` says.
    pub open spec fn initialized_from(after: Grid, before: Grid) -> bool {
        &&& after.same_frame(before)
        &&& after.is_initialized()
        &&& forall|i: int, j: int|
            0 <= i < before.x_cells && 0 <= j < before.y_cells ==> #[trigger] after.cells@[before.cell_index(
                i,
                j,
            )] == before.cell_at(i, j)
    }

    /// A grid of `width` by `height` pixels at the origin, with the default
    /// layout (10 by 10 cells, borders of 3 pixels, gray on dark gray),
    /// trimmed as `ajust_size` does; it has no cells yet.
    pub fn new(width: i32, height: i32) -> (g: Grid)
        ensures
            g.rect.x == 0,
            g.rect.y == 0,
            g.background_color == Color::spec_dark_gray(),
            g.border == 3,
            g.border_color == Color::spec_gray(),
            g.x_cells == 10,
            g.y_cells == 10,
            g.cells_border == 3,
            g.cells_border_color == Color::spec_gray(),
            g.cells@.len() == 0,
            width as u32 > 0 && height as u32 > 0 ==> {
                &&& g.rect.width == trimmed_extent(width as u32 as int, 3, 10, 3)
                &&& g.rect.height == trimmed_extent(height as u32 as int, 3, 10, 3)
            },
            !(width as u32 > 0 && height as u32 > 0) ==> {
                &&& g.rect.width == width as u32
                &&& g.rect.height == height as u32
            },
    {
        let mut grid = Grid {
            rect: Rect { x: 0, y: 0, width: width as u32, height: height as u32 },
            background_color: Color::dark_gray(),
            border: 3,
            border_color: Color::gray(),
            x_cells: 10,
            y_cells: 10,
            cells_border: 3,
            cells_border_color: Color::gray(),
            cells: Vec::new(),
        };
        grid.ajust_size();
        grid
    }

    /// Trims the grid's width and height so that the space left for the cells,
    /// once the outer border and every cell's border are taken off, divides
    /// evenly among the columns and the rows. Fails, changing nothing, when a
    /// pixel dimension is zero or a cell count is not positive.
    pub fn ajust_size(&mut self) -> (r: bool)
        ensures
            r == old(self).has_extent(),
            r ==> *final(self) == old(self).adjusted(),
            !r ==> *final(self) == *old(self),
    {
        if self.rect.width == 0 || self.rect.height == 0 || self.x_cells <= 0 || self.y_cells <= 0 {
            return false;
        }
        let w = trim_extent(self.rect.width, self.border, self.x_cells as u32, self.cells_border);
        let h = trim_extent(self.rect.height, self.border, self.y_cells as u32, self.cells_border);
        self.rect.width = w;
        self.rect.height = h;
        true
    }

    /// Places the grid in the middle of a `screen_w` by `screen_h` viewport.
    pub fn align_center(&mut self, screen_w: i32, screen_h: i32)
        requires
            old(self).rect.width <= i32::MAX,
            old(self).rect.height <= i32::MAX,
        ensures
            *final(self) == old(self).moved(
                centered(screen_w as int, old(self).rect.width as int) as i32,
                centered(screen_h as int, old(self).rect.height as int) as i32,
            ),
            final(self).rect.x == centered(screen_w as int, old(self).rect.width as int),
            final(self).rect.y == centered(screen_h as int, old(self).rect.height as int),
            screen_w >= old(self).rect.width ==> final(self).rect.x == (screen_w - old(self).rect.width) / 2,
            screen_h >= old(self).rect.height ==> final(self).rect.y == (screen_h - old(self).rect.height) / 2,
    {
        let dx: i64 = screen_w as i64 - self.rect.width as i64;
        let dy: i64 = screen_h as i64 - self.rect.height as i64;
        let x: i64 = if dx >= 0 {
            dx / 2
        } else {
            -((-dx) / 2)
        };
        let y: i64 = if dy >= 0 {
            dy / 2
        } else {
            -((-dy) / 2)
        };
        self.rect.x = x as i32;
        self.rect.y = y as i32;
    }

    /// The cell at column `i` and row `j`, laid out from the grid's geometry,
    /// in the background colour with the cells' border colour.
    fn init_cell(&self, i: i32, j: i32) -> (c: Cell)
        requires
            self.can_init(),
            self.holds_cells(),
            0 <= i < self.x_cells,
            0 <= j < self.y_cells,
        ensures
            c == self.cell_at(i as int, j as int),
    {
        let cb = self.cells_border;
        let cw = cell_size(self.rect.width, self.border, self.x_cells as u32, cb);
        let ch = cell_size(self.rect.height, self.border, self.y_cells as u32, cb);
        let x = cell_start(self.rect.x, self.border, cb, cw, i);
        let y = cell_start(self.rect.y, self.border, cb, ch, j);
        proof {
            lemma_cell_in_frame(
                self.rect.x as int,
                self.rect.width as int,
                self.border as int,
                self.x_cells as int,
                cb as int,
                i as int,
            );
            lemma_cell_in_frame(
                self.rect.y as int,
                self.rect.height as int,
                self.border as int,
                self.y_cells as int,
                cb as int,
                j as int,
            );
        }
        Cell {
            rect: Rect { x: x as i32, y: y as i32, width: cw, height: ch },
            rect_color: self.background_color,
            border: Rect {
                x: (x - cb as i128) as i32,
                y: (y - cb as i128) as i32,
                width: cw + 2 * cb,
                height: ch + 2 * cb,
            },
            border_color: self.cells_border_color,
        }
    }

    /// Lays out every cell. Fails, changing nothing, when a pixel dimension or
    /// a cell count is zero, or when a cell count is negative or above its
    /// maximum.
    pub fn init(&mut self) -> (r: bool)
        requires
            old(self).can_init() ==> old(self).holds_cells(),
        ensures
            r == old(self).can_init(),
            r ==> Grid::initialized_from(*final(self), *old(self)),
            !r ==> *final(self) == *old(self),
    {
        if self.rect.width == 0 || self.rect.height == 0 || self.x_cells == 0 || self.y_cells == 0 {
            return false;
        }
        if self.x_cells < 0 || self.y_cells < 0 || self.x_cells as usize > GRID_MAX_X_CELLS
            || self.y_cells as usize > GRID_MAX_Y_CELLS {
            return false;
        }
        let cols = self.x_cells;
        let rows = self.y_cells;
        let mut cells: Vec<Cell> = Vec::new();
        let mut i: i32 = 0;
        while i < cols
            invariant
                self.can_init(),
                self.holds_cells(),
                cols == self.x_cells,
                rows == self.y_cells,
                0 <= i <= cols,
                cells@.len() == i * rows,
                forall|k: int| 0 <= k < cells@.len() ==> #[trigger] cells@[k] == self.cell_at(k / rows as int, k % rows as int),
            decreases cols - i,
        {
            let mut j: i32 = 0;
            while j < rows
                invariant
                    self.can_init(),
                    self.holds_cells(),
                    cols == self.x_cells,
                    rows == self.y_cells,
                    0 <= i < cols,
                    0 <= j <= rows,
                    cells@.len() == i * rows + j,
                    forall|k: int| 0 <= k < cells@.len() ==> #[trigger] cells@[k] == self.cell_at(k / rows as int, k % rows as int),
                decreases rows - j,
            {
                let c = self.init_cell(i, j);
                proof {
                    lemma_index_in_bounds(i as int, j as int, cols as int, rows as int);
                }
                cells.push(c);
                j += 1;
            }
            assert(i * rows + rows == (i + 1) * rows) by (nonlinear_arith);
            i += 1;
        }
        self.cells = cells;
        assert forall|i: int, j: int| 0 <= i < cols && 0 <= j < rows implies #[trigger] self.cells@[old(self).cell_index(i, j)]
            == old(self).cell_at(i, j) by {
            lemma_index_in_bounds(i, j, cols as int, rows as int);
        }
        true
    }

    /// The cell at column `i` and row `j`.
    pub fn cell(&self, i: i32, j: i32) -> (c: &Cell)
        requires
            self.is_initialized(),
            0 <= i < self.x_cells,
            0 <= j < self.y_cells,
        ensures
            *c == self.cells@[self.cell_index(i as int, j as int)],
    {
        proof {
            lemma_index_in_bounds(i as int, j as int, self.x_cells as int, self.y_cells as int);
        }
        &self.cells[(i * self.y_cells + j) as usize]
    }

    /// Paints the interior of the cell at column `i` and row `j`.
    pub fn set_cell_color(&mut self, i: i32, j: i32, color: Color)
        requires
            old(self).is_initialized(),
            0 <= i < old(self).x_cells,
            0 <= j < old(self).y_cells,
        ensures
            final(self).same_frame(*old(self)),
            final(self).cells@ == old(self).cells@.update(
                old(self).cell_index(i as int, j as int),
                Cell { rect_color: color, ..old(self).cells@[old(self).cell_index(i as int, j as int)] },
            ),
            final(self).is_initialized(),
            final(self).same_cells_geometry(*old(self)),
            forall|a: int, b: int|
                0 <= a < old(self).x_cells && 0 <= b < old(self).y_cells ==> #[trigger] final(self).color_of(a, b) == if a == i
                    && b == j {
                    color
                } else {
                    old(self).color_of(a, b)
                },
    {
        proof {
            lemma_index_in_bounds(i as int, j as int, self.x_cells as int, self.y_cells as int);
            assert forall|a: int, b: int|
                0 <= a < self.x_cells && 0 <= b < self.y_cells && (a != i || b != j) implies self.cell_index(a, b)
                != self.cell_index(i as int, j as int) by {
                lemma_index_in_bounds(a, b, self.x_cells as int, self.y_cells as int);
            }
        }
        let k = (i * self.y_cells + j) as usize;
        let mut c = self.cells[k];
        c.rect_color = color;
        self.cells.set(k, c);
        assert forall|a: int, b: int| 0 <= a < self.x_cells && 0 <= b < self.y_cells implies #[trigger] self.color_of(a, b)
            == if a == i && b == j {
            color
        } else {
            old(self).color_of(a, b)
        } by {
            lemma_index_in_bounds(a, b, self.x_cells as int, self.y_cells as int);
        }
    }

    /// Appends the fills that draw one cell.
    fn render_cell(cell: &Cell, out: &mut Vec<Fill>)
        ensures
            final(out)@ == old(out)@ + cell_fills(*cell),
    {
        if cell.border.x != cell.rect.x {
            out.push(Fill { rect: cell.border, color: cell.border_color });
        }
        out.push(Fill { rect: cell.rect, color: cell.rect_color });
    }

    /// The rectangles to fill, in order, to draw the grid: the outer frame
    /// (none without an outer border), then each cell's border (none where it
    /// has zero thickness) and interior.
    pub fn render_commands(&self) -> (out: Vec<Fill>)
        ensures
            out@ == self.fills(),
    {
        let mut out: Vec<Fill> = Vec::new();
        if self.border != 0 {
            out.push(Fill { rect: self.rect, color: self.border_color });
        }
        let ghost frame = out@;
        let mut k: usize = 0;
        while k < self.cells.len()
            invariant
                0 <= k <= self.cells@.len(),
                frame == (if self.border != 0 {
                    seq![Fill { rect: self.rect, color: self.border_color }]
                } else {
                    seq![]
                }),
                out@ == frame + cells_fills(self.cells@.subrange(0, k as int)),
            decreases self.cells@.len() - k,
        {
            Grid::render_cell(&self.cells[k], &mut out);
            proof {
                assert(self.cells@.subrange(0, k + 1).drop_last() =~= self.cells@.subrange(0, k as int));
                assert(out@ =~= frame + cells_fills(self.cells@.subrange(0, k + 1)));
            }
            k += 1;
        }
        assert(self.cells@.subrange(0, self.cells@.len() as int) =~= self.cells@);
        out
    }

    /// The fills that draw the grid: the outer frame, unless it has no border,
    /// then each cell in turn.
    pub open spec fn fills(&self) -> Seq<Fill> {
        let frame = if self.border != 0 {
            seq![Fill { rect: self.rect, color: self.border_color }]
        } else {
            seq![]
        };
        frame + cells_fills(self.cells@)
    }
}

} // verus!
