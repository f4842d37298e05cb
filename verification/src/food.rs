use rand::rngs::StdRng;
use rand::Rng;
use vstd::prelude::*;

use crate::config::GridSize;
use crate::snake::{covers, Position, Snake};

verus! {

/// `rand::rngs::StdRng`, the random number generator. Nothing is claimed
/// of its state.
#[verifier::external_type_specification]
#[verifier::external_body]
pub struct ExStdRng(StdRng);

/// Food entity currently active on the board.
#[derive(Debug, Clone, Copy, PartialEq, Eq, Structural)]
pub struct Food {
    pub position: Position,
}

/// `rand::Rng::gen_range` on the range from 0 up to, and without, `upper`.
/// The range must not be empty; the number that comes back lies in it.
#[verifier::external_body]
fn random_below(rng: &mut StdRng, upper: usize) -> (index: usize)
    requires
        upper > 0,
    ensures
        index < upper,
{
    rng.gen_range(0..upper)
}

impl Food {
    /// Creates food at `position`.
    #[must_use]
    pub fn new(position: Position) -> (food: Self)
        ensures
            food.position == position,
    {
        Self { position }
    }

    /// Returns the score value granted when eaten.
    #[must_use]
    pub fn points(self) -> (points: u32)
        ensures
            points == 1,
    {
        1
    }

    /// Spawns food in a cell that the snake does not occupy, chosen at
    /// random. The board must have such a cell.
    #[must_use]
    pub fn spawn(rng: &mut StdRng, bounds: GridSize, snake: &Snake) -> (food: Self)
        requires
            has_free_cell(bounds, snake@),
        ensures
            food.position.within(bounds),
            !covers(snake@, food.position.x as int, food.position.y as int),
    {
        Self::new(spawn_position(rng, bounds, snake))
    }
}

/// Whether a board of the size `bounds` has a cell without a segment.
pub open spec fn has_free_cell(bounds: GridSize, segments: Seq<Position>) -> bool {
    exists|x: int, y: int|
        0 <= x < bounds.width && 0 <= y < bounds.height && !#[trigger] covers(segments, x, y)
}

/// Whether `cells` are the free cells of the board: each is a cell of the
/// board without a segment, each such cell is among them, and they stand
/// row by row, in each row from left to right, none twice.
pub open spec fn are_free_cells(cells: Seq<Position>, bounds: GridSize, segments: Seq<Position>) -> bool {
    &&& forall|i: int|
        0 <= i < cells.len() ==> (#[trigger] cells[i]).within(bounds) && !covers(
            segments,
            cells[i].x as int,
            cells[i].y as int,
        )
    &&& forall|x: int, y: int|
        0 <= x < bounds.width && 0 <= y < bounds.height && !#[trigger] covers(segments, x, y)
            ==> exists|i: int| 0 <= i < cells.len() && (#[trigger] cells[i]).x == x && cells[i].y == y
    &&& forall|i: int, j: int|
        0 <= i < j < cells.len() ==> (#[trigger] cells[i]).y < (#[trigger] cells[j]).y || (cells[i].y
            == cells[j].y && cells[i].x < cells[j].x)
}

/// Lists the cells of the board that the snake does not occupy, row by
/// row, in each row from left to right.
pub fn free_cells(bounds: GridSize, snake: &Snake) -> (cells: Vec<Position>)
    ensures
        are_free_cells(cells@, bounds, snake@),
{
    let mut cells: Vec<Position> = Vec::new();
    let height = bounds.height as i32;
    let width = bounds.width as i32;
    let mut y: i32 = 0;
    while y < height
        invariant
            0 <= y <= height,
            height == bounds.height,
            width == bounds.width,
            forall|i: int|
                0 <= i < cells@.len() ==> (#[trigger] cells@[i]).within(bounds) && cells@[i].y < y
                    && !covers(snake@, cells@[i].x as int, cells@[i].y as int),
            forall|u: int, v: int|
                0 <= u < width && 0 <= v < y && !#[trigger] covers(snake@, u, v) ==> exists|i: int|
                    0 <= i < cells@.len() && (#[trigger] cells@[i]).x == u && cells@[i].y == v,
            forall|i: int, j: int|
                0 <= i < j < cells@.len() ==> (#[trigger] cells@[i]).y < (#[trigger] cells@[j]).y
                    || (cells@[i].y == cells@[j].y && cells@[i].x < cells@[j].x),
        decreases height - y,
    {
        let mut x: i32 = 0;
        while x < width
            invariant
                0 <= x <= width,
                0 <= y < height,
                height == bounds.height,
                width == bounds.width,
                forall|i: int|
                    0 <= i < cells@.len() ==> (#[trigger] cells@[i]).within(bounds) && (cells@[i].y
                        < y || (cells@[i].y == y && cells@[i].x < x)) && !covers(
                        snake@,
                        cells@[i].x as int,
                        cells@[i].y as int,
                    ),
                forall|u: int, v: int|
                    0 <= u < width && ((0 <= v < y) || (v == y && u < x)) && !#[trigger] covers(
                        snake@,
                        u,
                        v,
                    ) ==> exists|i: int|
                        0 <= i < cells@.len() && (#[trigger] cells@[i]).x == u && cells@[i].y == v,
                forall|i: int, j: int|
                    0 <= i < j < cells@.len() ==> (#[trigger] cells@[i]).y < (
                    #[trigger] cells@[j]).y || (cells@[i].y == cells@[j].y && cells@[i].x
                        < cells@[j].x),
            decreases width - x,
        {
            let position = Position { x, y };
            let ghost before = cells@;
            if !snake.occupies(position) {
                cells.push(position);
                proof {
                    assert forall|u: int, v: int|
                        0 <= u < width && ((0 <= v < y) || (v == y && u < x + 1))
                            && !#[trigger] covers(snake@, u, v) implies exists|i: int|
                        0 <= i < cells@.len() && (#[trigger] cells@[i]).x == u && cells@[i].y
                            == v by {
                        if v == y && u == x {
                            assert(cells@[before.len() as int].x == u);
                        } else {
                            let i = choose|i: int|
                                0 <= i < before.len() && (#[trigger] before[i]).x == u
                                    && before[i].y == v;
                            assert(cells@[i].x == u && cells@[i].y == v);
                        }
                    }
                }
            }
            x += 1;
        }
        y += 1;
    }
    cells
}

/// Returns a position on the board that the snake does not occupy, chosen
/// at random among all such positions. The board must have one.
#[must_use]
pub fn spawn_position(rng: &mut StdRng, bounds: GridSize, snake: &Snake) -> (position: Position)
    requires
        has_free_cell(bounds, snake@),
    ensures
        position.within(bounds),
        !covers(snake@, position.x as int, position.y as int),
{
    let candidates = free_cells(bounds, snake);
    proof {
        let (x, y) = choose|x: int, y: int|
            0 <= x < bounds.width && 0 <= y < bounds.height && !#[trigger] covers(snake@, x, y);
        assert(!covers(snake@, x, y));
    }
    let index = random_below(rng, candidates.len());
    candidates[index]
}

} // verus!
