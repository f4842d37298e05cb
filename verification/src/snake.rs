use vstd::prelude::*;

use crate::config::GridSize;
use crate::input::Direction;

verus! {

/// A cell of the logical grid, or a place outside it.
#[derive(Debug, Clone, Copy, PartialEq, Eq, Structural)]
pub struct Position {
    pub x: i32,
    pub y: i32,
}

impl Position {
    /// Whether the position is a cell of a grid of the size `bounds`.
    pub open spec fn within(self, bounds: GridSize) -> bool {
        0 <= self.x < bounds.width && 0 <= self.y < bounds.height
    }

    /// Whether the position is a cell of a grid of the size `bounds`.
    #[must_use]
    pub fn is_within_bounds(self, bounds: GridSize) -> (inside: bool)
        ensures
            inside == self.within(bounds),
    {
        0 <= self.x && self.x < bounds.width as i32 && 0 <= self.y && self.y < bounds.height as i32
    }
}

/// Whether one of `positions` is the cell in column `x` of row `y`.
pub open spec fn covers(positions: Seq<Position>, x: int, y: int) -> bool {
    exists|i: int| 0 <= i < positions.len() && (#[trigger] positions[i]).x == x && positions[i].y == y
}

/// The snake: its segments from head to tail, and where it is heading.
#[derive(Debug, Clone)]
pub struct Snake {
    segments: Vec<Position>,
    direction: Direction,
}

impl View for Snake {
    type V = Seq<Position>;

    /// The segments, from head to tail.
    closed spec fn view(&self) -> Seq<Position> {
        self.segments@
    }
}

impl Snake {
    /// Where the snake is heading.
    pub closed spec fn heading(self) -> Direction {
        self.direction
    }

    /// A snake of the given segments, from head to tail, that heads in
    /// `direction`.
    #[must_use]
    pub fn from_segments(segments: Vec<Position>, direction: Direction) -> (snake: Self)
        ensures
            snake@ == segments@,
            snake.heading() == direction,
    {
        Snake { segments, direction }
    }

    /// The segments, from head to tail.
    #[must_use]
    pub fn segments(&self) -> (segments: &Vec<Position>)
        ensures
            segments@ == self@,
    {
        &self.segments
    }

    /// Where the snake is heading.
    #[must_use]
    pub fn direction(&self) -> (direction: Direction)
        ensures
            direction == self.heading(),
    {
        self.direction
    }

    /// Whether one of the segments lies on `position`.
    #[must_use]
    pub fn occupies(&self, position: Position) -> (occupied: bool)
        ensures
            occupied == covers(self@, position.x as int, position.y as int),
    {
        let mut i: usize = 0;
        while i < self.segments.len()
            invariant
                i <= self.segments.len(),
                forall|k: int|
                    0 <= k < i ==> !((#[trigger] self.segments@[k]).x == position.x
                        && self.segments@[k].y == position.y),
            decreases self.segments.len() - i,
        {
            if self.segments[i].x == position.x && self.segments[i].y == position.y {
                return true;
            }
            i += 1;
        }
        false
    }
}

} // verus!
