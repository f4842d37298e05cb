use vstd::prelude::*;

use crate::color::Color;
use crate::config::{GridSize, Theme, ThemeModel, GLYPH_EMPTY, GLYPH_HALF_LOWER, GLYPH_HALF_UPPER};
use crate::food::Food;
use crate::snake::{covers, Position};

verus! {

/// What occupies a single logical game cell.
#[derive(Debug, Clone, Copy, PartialEq, Eq, Structural)]
pub enum CellKind {
    Empty,
    Snake,
    Food,
}

/// One cell of the terminal: a glyph with its foreground and background.
/// It shows two logical rows, one above the other.
#[derive(Debug, Clone, Copy, PartialEq, Eq, Structural)]
pub struct TerminalCell {
    pub glyph: char,
    pub fg: Color,
    pub bg: Color,
}

/// A rectangle of terminal cells: its top-left corner and its size.
#[derive(Debug, Clone, Copy, PartialEq, Eq, Structural)]
pub struct Rect {
    pub x: u16,
    pub y: u16,
    pub width: u16,
    pub height: u16,
}

impl Rect {
    /// The column just right of the rectangle, held within the range of a
    /// coordinate.
    pub open spec fn right_edge(self) -> int {
        if self.x + self.width > u16::MAX {
            u16::MAX as int
        } else {
            self.x + self.width
        }
    }

    /// The row just below the rectangle, held within the range of a
    /// coordinate.
    pub open spec fn bottom_edge(self) -> int {
        if self.y + self.height > u16::MAX {
            u16::MAX as int
        } else {
            self.y + self.height
        }
    }

    /// The column just right of the rectangle, saturating.
    #[must_use]
    pub fn right(self) -> (edge: u16)
        ensures
            edge == self.right_edge(),
    {
        if self.width > u16::MAX - self.x {
            u16::MAX
        } else {
            self.x + self.width
        }
    }

    /// The row just below the rectangle, saturating.
    #[must_use]
    pub fn bottom(self) -> (edge: u16)
        ensures
            edge == self.bottom_edge(),
    {
        if self.height > u16::MAX - self.y {
            u16::MAX
        } else {
            self.y + self.height
        }
    }
}

/// A terminal cell and the place in the terminal where it is drawn.
#[derive(Debug, Clone, Copy, PartialEq, Eq, Structural)]
pub struct PlacedCell {
    pub x: u16,
    pub y: u16,
    pub cell: TerminalCell,
}

/// The place of the cell in column `x` of row `y` in a row-major grid that
/// is `width` cells wide.
pub open spec fn cell_index(width: int, x: int, y: int) -> int {
    y * width + x
}

/// What occupies the cell in column `x` of row `y`: the snake where one of
/// its segments lies there, else food where one lies there, else nothing.
pub open spec fn cell_at(segments: Seq<Position>, foods: Seq<Position>, x: int, y: int) -> CellKind {
    if covers(segments, x, y) {
        CellKind::Snake
    } else if covers(foods, x, y) {
        CellKind::Food
    } else {
        CellKind::Empty
    }
}

/// The positions of `foods`, in order.
pub open spec fn food_positions(foods: Seq<Food>) -> Seq<Position> {
    Seq::new(foods.len(), |i: int| foods[i].position)
}

/// Whether `grid` is the occupancy grid of the given snake and food on a
/// board of the size `bounds`: row-major, one cell for each place.
pub open spec fn is_cell_grid(
    grid: Seq<CellKind>,
    segments: Seq<Position>,
    foods: Seq<Position>,
    bounds: GridSize,
) -> bool {
    &&& grid.len() == bounds.cells()
    &&& forall|x: int, y: int|
        0 <= x < bounds.width && 0 <= y < bounds.height ==> grid[#[trigger] cell_index(
            bounds.width as int,
            x,
            y,
        )] == cell_at(segments, foods, x, y)
}

/// A cell of the grid has its place inside the grid, and no other cell
/// shares it.
pub proof fn lemma_cell_index(width: int, height: int, x: int, y: int)
    requires
        0 <= x < width,
        0 <= y < height,
    ensures
        0 <= cell_index(width, x, y) < width * height,
        cell_index(width, x, y) / width == y,
        cell_index(width, x, y) % width == x,
{
    assert(0 <= y * width + x < width * height) by (nonlinear_arith)
        requires
            0 <= x < width,
            0 <= y < height,
    ;
    vstd::arithmetic::div_mod::lemma_fundamental_div_mod_converse(y * width + x, width, y, x);
}

/// Two cells that share a place are one cell.
pub proof fn lemma_cell_index_is_injective(width: int, x: int, y: int, u: int, v: int)
    requires
        0 <= x < width,
        0 <= u < width,
        0 <= y,
        0 <= v,
        cell_index(width, x, y) == cell_index(width, u, v),
    ensures
        x == u,
        y == v,
{
    vstd::arithmetic::div_mod::lemma_fundamental_div_mod_converse(y * width + x, width, y, x);
    vstd::arithmetic::div_mod::lemma_fundamental_div_mod_converse(v * width + u, width, v, u);
}

/// Marks the cells that `positions` cover with `kind`, in a grid in which
/// the other cells keep what they hold.
fn mark_cells(grid: &mut Vec<CellKind>, positions: &Vec<Position>, bounds: GridSize, kind: CellKind)
    requires
        old(grid)@.len() == bounds.cells(),
    ensures
        final(grid)@.len() == bounds.cells(),
        forall|x: int, y: int|
            0 <= x < bounds.width && 0 <= y < bounds.height ==> final(grid)@[#[trigger] cell_index(
                bounds.width as int,
                x,
                y,
            )] == if covers(positions@, x, y) {
                kind
            } else {
                old(grid)@[cell_index(bounds.width as int, x, y)]
            },
{
    let w = bounds.width as usize;
    let ghost width = bounds.width as int;
    let ghost height = bounds.height as int;
    let mut i: usize = 0;
    while i < positions.len()
        invariant
            i <= positions.len(),
            w == bounds.width,
            width == bounds.width,
            height == bounds.height,
            grid@.len() == bounds.cells(),
            forall|x: int, y: int|
                0 <= x < width && 0 <= y < height ==> grid@[#[trigger] cell_index(width, x, y)]
                    == if covers(positions@.take(i as int), x, y) {
                    kind
                } else {
                    old(grid)@[cell_index(width, x, y)]
                },
        decreases positions.len() - i,
    {
        let position = positions[i];
        let ghost before = grid@;
        let ghost seen = positions@.take(i as int);
        let ghost next = positions@.take(i as int + 1);
        proof {
            assert(next[i as int] == position);
            assert forall|x: int, y: int| covers(next, x, y) <==> (covers(seen, x, y) || (position.x
                == x && position.y == y)) by {
                if covers(seen, x, y) {
                    let k = choose|k: int|
                        0 <= k < seen.len() && (#[trigger] seen[k]).x == x && seen[k].y == y;
                    assert(next[k].x == x && next[k].y == y);
                }
                if covers(next, x, y) {
                    let k = choose|k: int|
                        0 <= k < next.len() && (#[trigger] next[k]).x == x && next[k].y == y;
                    if k < i {
                        assert(seen[k].x == x && seen[k].y == y);
                    }
                }
            }
        }
        if position.is_within_bounds(bounds) {
            proof {
                lemma_cell_index(width, height, position.x as int, position.y as int);
                assert(width * height <= 0xffff * 0xffff) by (nonlinear_arith)
                    requires
                        0 <= width <= 0xffff,
                        0 <= height <= 0xffff,
                ;
                assert(position.y * width >= 0) by (nonlinear_arith)
                    requires
                        position.y >= 0,
                        width >= 0,
                ;
            }
            let index = position.y as usize * w + position.x as usize;
            grid.set(index, kind);
            proof {
                assert forall|x: int, y: int| 0 <= x < width && 0 <= y < height implies grid@[#[trigger] cell_index(
                    width,
                    x,
                    y,
                )] == if covers(next, x, y) {
                    kind
                } else {
                    old(grid)@[cell_index(width, x, y)]
                } by {
                    lemma_cell_index(width, height, x, y);
                    if cell_index(width, x, y) == index as int {
                        lemma_cell_index_is_injective(
                            width,
                            x,
                            y,
                            position.x as int,
                            position.y as int,
                        );
                    } else {
                        assert(grid@[cell_index(width, x, y)] == before[cell_index(width, x, y)]);
                    }
                }
            }
        }
        i += 1;
    }
    assert(positions@.take(positions.len() as int) =~= positions@);
}

/// Builds the occupancy grid of one frame: a flat, row-major grid with one
/// cell for each place of the board.
///
/// A cell holds the snake where a segment lies on it, else food where food
/// lies on it, and is empty otherwise. Segments and food outside the board
/// are passed over.
pub fn build_cell_grid(segments: &Vec<Position>, foods: &Vec<Food>, bounds: GridSize) -> (grid: Vec<
    CellKind,
>)
    ensures
        is_cell_grid(grid@, segments@, food_positions(foods@), bounds),
{
    let cells = bounds.total_cells();
    let mut grid: Vec<CellKind> = Vec::new();
    let mut n: usize = 0;
    while n < cells
        invariant
            n <= cells,
            grid@.len() == n,
            forall|k: int| 0 <= k < n ==> grid@[k] == CellKind::Empty,
        decreases cells - n,
    {
        grid.push(CellKind::Empty);
        n += 1;
    }
    let mut places: Vec<Position> = Vec::new();
    let mut i: usize = 0;
    while i < foods.len()
        invariant
            i <= foods.len(),
            places@ == food_positions(foods@).take(i as int),
        decreases foods.len() - i,
    {
        places.push(foods[i].position);
        assert(food_positions(foods@).take(i as int + 1) =~= food_positions(foods@).take(
            i as int,
        ).push(foods@[i as int].position));
        i += 1;
    }
    assert(food_positions(foods@).take(foods.len() as int) =~= food_positions(foods@));
    let ghost blank = grid@;
    mark_cells(&mut grid, &places, bounds, CellKind::Food);
    let ghost fed = grid@;
    mark_cells(&mut grid, segments, bounds, CellKind::Snake);
    proof {
        assert forall|x: int, y: int| 0 <= x < bounds.width && 0 <= y < bounds.height implies grid@[#[trigger] cell_index(
            bounds.width as int,
            x,
            y,
        )] == cell_at(segments@, food_positions(foods@), x, y) by {
            lemma_cell_index(bounds.width as int, bounds.height as int, x, y);
            assert(blank[cell_index(bounds.width as int, x, y)] == CellKind::Empty);
        }
    }
    grid
}

/// The theme color of what occupies a cell; an empty cell shows the field.
pub open spec fn entity_color(kind: CellKind, theme: ThemeModel) -> Color {
    match kind {
        CellKind::Snake => theme.snake_body,
        CellKind::Food => theme.food,
        CellKind::Empty => theme.field_bg,
    }
}

/// The terminal cell that shows the logical cell `top` above the logical
/// cell `bottom`.
///
/// The glyph is the upper half block where the top is occupied, the lower
/// half block where only the bottom is, and a space where neither is. The
/// foreground paints the half that the glyph fills. The background paints
/// the other half: the bottom's color under an upper half block, and the
/// field everywhere else.
pub open spec fn composite(top: CellKind, bottom: CellKind, theme: ThemeModel) -> TerminalCell {
    TerminalCell {
        glyph: if top != CellKind::Empty {
            GLYPH_HALF_UPPER
        } else if bottom != CellKind::Empty {
            GLYPH_HALF_LOWER
        } else {
            GLYPH_EMPTY
        },
        fg: if top != CellKind::Empty {
            entity_color(top, theme)
        } else {
            entity_color(bottom, theme)
        },
        bg: if top != CellKind::Empty {
            entity_color(bottom, theme)
        } else {
            theme.field_bg
        },
    }
}

/// Maps what occupies a cell to its theme color.
pub fn cell_color(kind: CellKind, theme: &Theme) -> (color: Color)
    ensures
        color == entity_color(kind, theme@),
{
    match kind {
        CellKind::Snake => theme.snake_body,
        CellKind::Food => theme.food,
        CellKind::Empty => theme.field_bg,
    }
}

/// Composites two logical cells, one above the other, into one terminal
/// cell.
pub fn composite_half_block(top: CellKind, bot: CellKind, theme: &Theme) -> (cell: TerminalCell)
    ensures
        cell == composite(top, bot, theme@),
{
    let bg = theme.field_bg;
    match (top, bot) {
        (CellKind::Empty, CellKind::Empty) => TerminalCell { glyph: GLYPH_EMPTY, fg: bg, bg },
        (top_kind, CellKind::Empty) => TerminalCell {
            glyph: GLYPH_HALF_UPPER,
            fg: cell_color(top_kind, theme),
            bg,
        },
        (CellKind::Empty, bot_kind) => TerminalCell {
            glyph: GLYPH_HALF_LOWER,
            fg: cell_color(bot_kind, theme),
            bg,
        },
        (top_kind, bot_kind) => TerminalCell {
            glyph: GLYPH_HALF_UPPER,
            fg: cell_color(top_kind, theme),
            bg: cell_color(bot_kind, theme),
        },
    }
}

/// The number of terminal rows that show `height` logical rows: two
/// logical rows to a terminal row, and one more for an odd last row.
pub open spec fn terminal_rows(height: int) -> int {
    (height + 1) / 2
}

/// The number of terminal rows of the board that lie inside `area`.
pub open spec fn visible_rows(bounds: GridSize, area: Rect) -> int {
    let rows = terminal_rows(bounds.height as int);
    let room = area.bottom_edge() - area.y;
    if rows <= room {
        rows
    } else {
        room
    }
}

/// The number of columns of the board that lie inside `area`.
pub open spec fn visible_cols(bounds: GridSize, area: Rect) -> int {
    let room = area.right_edge() - area.x;
    if bounds.width <= room {
        bounds.width as int
    } else {
        room
    }
}

/// The logical cell in column `col` of the logical row `row`: what the grid
/// holds there, and an empty cell below the last row.
pub open spec fn logical_cell(grid: Seq<CellKind>, bounds: GridSize, col: int, row: int) -> CellKind {
    if row < bounds.height {
        grid[cell_index(bounds.width as int, col, row)]
    } else {
        CellKind::Empty
    }
}

/// The terminal cell in column `col` of the terminal row `row` of the
/// board, placed in `area`: it shows the logical row `2 * row` above the
/// logical row `2 * row + 1`.
pub open spec fn placed_cell(
    grid: Seq<CellKind>,
    bounds: GridSize,
    area: Rect,
    theme: ThemeModel,
    row: int,
    col: int,
) -> PlacedCell {
    PlacedCell {
        x: (area.x + col) as u16,
        y: (area.y + row) as u16,
        cell: composite(
            logical_cell(grid, bounds, col, 2 * row),
            logical_cell(grid, bounds, col, 2 * row + 1),
            theme,
        ),
    }
}

/// Whether `cells` is the play area as it is drawn: the visible terminal
/// cells of the board, row by row, each at its place in `area`.
pub open spec fn is_play_area(
    cells: Seq<PlacedCell>,
    grid: Seq<CellKind>,
    bounds: GridSize,
    area: Rect,
    theme: ThemeModel,
) -> bool {
    &&& cells.len() == visible_rows(bounds, area) * visible_cols(bounds, area)
    &&& forall|row: int, col: int|
        0 <= row < visible_rows(bounds, area) && 0 <= col < visible_cols(bounds, area)
            ==> cells[#[trigger] cell_index(visible_cols(bounds, area), col, row)] == placed_cell(
            grid,
            bounds,
            area,
            theme,
            row,
            col,
        )
}

/// Composites the occupancy grid into the terminal cells of the play area.
///
/// Each terminal row shows two logical rows, and an odd last row shows an
/// empty row below it. The cells come row by row, each with its place in
/// `area`. Rows and columns that would fall outside `area` are left out:
/// a terminal smaller than the board shows the board's top-left part.
pub fn render_play_area(grid: &Vec<CellKind>, bounds: GridSize, area: Rect, theme: &Theme) -> (cells:
    Vec<PlacedCell>)
    requires
        grid@.len() == bounds.cells(),
    ensures
        is_play_area(cells@, grid@, bounds, area, theme@),
{
    let w = bounds.width as usize;
    let game_h = bounds.height as usize;
    let term_rows = (game_h + 1) / 2;
    let right = area.right();
    let bottom = area.bottom();
    let ghost rows = visible_rows(bounds, area);
    let ghost cols = visible_cols(bounds, area);
    let ghost width = bounds.width as int;
    let ghost height = bounds.height as int;
    let mut cells: Vec<PlacedCell> = Vec::new();
    let mut term_row: usize = 0;
    assert(0 * cols == 0);
    while term_row < term_rows && (area.y as usize) + term_row < bottom as usize
        invariant
            w == width,
            game_h == height,
            width == bounds.width,
            height == bounds.height,
            term_rows == terminal_rows(height),
            right == area.right_edge(),
            bottom == area.bottom_edge(),
            rows == visible_rows(bounds, area),
            cols == visible_cols(bounds, area),
            grid@.len() == bounds.cells(),
            0 <= term_row <= rows,
            cells@.len() == term_row * cols,
            forall|row: int, col: int|
                0 <= row < term_row && 0 <= col < cols ==> cells@[#[trigger] cell_index(
                    cols,
                    col,
                    row,
                )] == placed_cell(grid@, bounds, area, theme@, row, col),
        decreases term_rows - term_row,
    {
        let top_game_row = term_row * 2;
        let bot_game_row = term_row * 2 + 1;
        let y = area.y + term_row as u16;
        let ghost done = cells@;
        let mut col: usize = 0;
        while col < w && (area.x as usize) + col < right as usize
            invariant
                w == width,
                game_h == height,
                width == bounds.width,
                height == bounds.height,
                right == area.right_edge(),
                cols == visible_cols(bounds, area),
                grid@.len() == bounds.cells(),
                top_game_row == 2 * term_row,
                bot_game_row == 2 * term_row + 1,
                top_game_row < game_h,
                y == area.y + term_row,
                0 <= col <= cols,
                done.len() == term_row * cols,
                cells@.len() == done.len() + col,
                forall|k: int| 0 <= k < done.len() ==> cells@[k] == done[k],
                forall|c: int|
                    0 <= c < col ==> cells@[done.len() + c] == placed_cell(
                        grid@,
                        bounds,
                        area,
                        theme@,
                        term_row as int,
                        c,
                    ),
            decreases w - col,
        {
            let x = area.x + col as u16;
            proof {
                lemma_cell_index(width, height, col as int, top_game_row as int);
                assert(width * height <= 0xffff * 0xffff) by (nonlinear_arith)
                    requires
                        0 <= width <= 0xffff,
                        0 <= height <= 0xffff,
                ;
                assert(top_game_row * w >= 0) by (nonlinear_arith)
                    requires
                        top_game_row >= 0,
                        w >= 0,
                ;
            }
            let top_kind = grid[top_game_row * w + col];
            let bot_kind = if bot_game_row < game_h {
                proof {
                    lemma_cell_index(width, height, col as int, bot_game_row as int);
                    assert(bot_game_row * w >= 0) by (nonlinear_arith)
                        requires
                            bot_game_row >= 0,
                            w >= 0,
                    ;
                }
                grid[bot_game_row * w + col]
            } else {
                CellKind::Empty
            };
            let cell = composite_half_block(top_kind, bot_kind, theme);
            cells.push(PlacedCell { x, y, cell });
            col += 1;
        }
        proof {
            assert(col == cols);
            assert((term_row + 1) * cols == term_row * cols + cols) by (nonlinear_arith);
            assert forall|row: int, c: int| 0 <= row < term_row + 1 && 0 <= c < cols implies cells@[#[trigger] cell_index(
                cols,
                c,
                row,
            )] == placed_cell(grid@, bounds, area, theme@, row, c) by {
                lemma_cell_index(cols, term_row as int + 1, c, row);
                if row < term_row {
                    lemma_cell_index(cols, term_row as int, c, row);
                    assert(cols * term_row == term_row * cols) by (nonlinear_arith);
                    assert(cells@[cell_index(cols, c, row)] == done[cell_index(cols, c, row)]);
                }
            }
        }
        term_row += 1;
    }
    proof {
        assert(term_row == rows);
    }
    cells
}

/// A board without snake and food is drawn as spaces on the field color,
/// foreground and background alike.
pub proof fn lemma_empty_grid_is_blank(
    grid: Seq<CellKind>,
    bounds: GridSize,
    area: Rect,
    theme: ThemeModel,
    row: int,
    col: int,
)
    requires
        grid.len() == bounds.cells(),
        forall|k: int| 0 <= k < grid.len() ==> grid[k] == CellKind::Empty,
        0 <= row < terminal_rows(bounds.height as int),
        0 <= col < bounds.width,
    ensures
        placed_cell(grid, bounds, area, theme, row, col).cell == (TerminalCell {
            glyph: GLYPH_EMPTY,
            fg: theme.field_bg,
            bg: theme.field_bg,
        }),
{
    lemma_cell_index(bounds.width as int, bounds.height as int, col, 2 * row);
    if 2 * row + 1 < bounds.height {
        lemma_cell_index(bounds.width as int, bounds.height as int, col, 2 * row + 1);
    }
}

/// On a board of odd height whose even rows are occupied and whose odd
/// rows are empty, every terminal row is drawn with the upper half block
/// on the field color, and so is the last one, whose lower half lies below
/// the board.
pub proof fn lemma_striped_grid_is_upper_halves(
    grid: Seq<CellKind>,
    bounds: GridSize,
    area: Rect,
    theme: ThemeModel,
    row: int,
    col: int,
)
    requires
        grid.len() == bounds.cells(),
        bounds.height % 2 == 1,
        forall|x: int, y: int|
            0 <= x < bounds.width && 0 <= y < bounds.height ==> (grid[#[trigger] cell_index(
                bounds.width as int,
                x,
                y,
            )] == CellKind::Empty <==> y % 2 == 1),
        0 <= row < terminal_rows(bounds.height as int),
        0 <= col < bounds.width,
    ensures
        placed_cell(grid, bounds, area, theme, row, col).cell == (TerminalCell {
            glyph: GLYPH_HALF_UPPER,
            fg: entity_color(logical_cell(grid, bounds, col, 2 * row), theme),
            bg: theme.field_bg,
        }),
        logical_cell(grid, bounds, col, 2 * row) != CellKind::Empty,
        2 * (terminal_rows(bounds.height as int) - 1) + 1 == bounds.height,
{
    let top = cell_index(bounds.width as int, col, 2 * row);
    assert(grid[top] != CellKind::Empty);
    if 2 * row + 1 < bounds.height {
        let below = cell_index(bounds.width as int, col, 2 * row + 1);
        assert(grid[below] == CellKind::Empty);
    }
}

} // verus!
