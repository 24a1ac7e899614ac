use vstd::prelude::*;

verus! {

/// Number of columns of the arena.
pub const ARENA_WIDTH: i32 = 10;

/// Number of rows of the arena.
pub const ARENA_HEIGHT: i32 = 10;

/// A cell of the arena: column `x`, row `y` (row numbers grow upwards).
#[derive(Clone, Copy, Debug, PartialEq, Eq, Structural)]
pub struct Position {
    pub x: i32,
    pub y: i32,
}

/// The cell lies inside `[0, ARENA_WIDTH) x [0, ARENA_HEIGHT)`.
pub open spec fn in_arena(p: Position) -> bool {
    0 <= p.x < ARENA_WIDTH && 0 <= p.y < ARENA_HEIGHT
}

/// Every cell of the sequence lies inside the arena.
pub open spec fn all_in_arena(s: Seq<Position>) -> bool {
    forall|i: int| 0 <= i < s.len() ==> #[trigger] in_arena(s[i])
}

impl Position {
    pub fn new(x: i32, y: i32) -> (r: Position)
        ensures
            r.x == x,
            r.y == y,
    {
        Position { x, y }
    }

    /// Whether the cell lies inside the arena.
    pub fn in_arena(&self) -> (r: bool)
        ensures
            r == in_arena(*self),
    {
        0 <= self.x && self.x < ARENA_WIDTH && 0 <= self.y && self.y < ARENA_HEIGHT
    }
}

/// Whether `p` occurs in `cells`.
pub fn occupies(cells: &Vec<Position>, p: Position) -> (r: bool)
    ensures
        r == cells@.contains(p),
{
    let mut i: usize = 0;
    while i < cells.len()
        invariant
            i <= cells.len(),
            forall|j: int| 0 <= j < i ==> cells@[j] != p,
        decreases cells.len() - i,
    {
        if cells[i] == p {
            return true;
        }
        i = i + 1;
    }
    false
}

} // verus!
