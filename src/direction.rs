use vstd::prelude::*;

verus! {

/// One of the four headings of the snake.
#[derive(Clone, Copy, Debug, PartialEq, Eq, Structural)]
pub enum Direction {
    Left,
    Right,
    Up,
    Down,
}

/// The heading that points the other way.
pub open spec fn opposite_of(d: Direction) -> Direction {
    match d {
        Direction::Left => Direction::Right,
        Direction::Right => Direction::Left,
        Direction::Up => Direction::Down,
        Direction::Down => Direction::Up,
    }
}

/// The heading after a request: the request is taken unless it points
/// straight back; no request keeps the heading.
pub open spec fn steered(current: Direction, requested: Option<Direction>) -> Direction {
    match requested {
        Some(d) => if d != opposite_of(current) { d } else { current },
        None => current,
    }
}

/// The request that the held controls make, in the order up, down, right,
/// left; none when no control is held.
pub open spec fn requested_by(up: bool, down: bool, right: bool, left: bool) -> Option<Direction> {
    if up {
        Some(Direction::Up)
    } else if down {
        Some(Direction::Down)
    } else if right {
        Some(Direction::Right)
    } else if left {
        Some(Direction::Left)
    } else {
        None
    }
}

impl Direction {
    pub fn opposite(self) -> (r: Direction)
        ensures
            r == opposite_of(self),
    {
        match self {
            Direction::Left => Direction::Right,
            Direction::Right => Direction::Left,
            Direction::Up => Direction::Down,
            Direction::Down => Direction::Up,
        }
    }
}

/// Applies a requested heading under the reversal guard.
pub fn steer(current: Direction, requested: Option<Direction>) -> (r: Direction)
    ensures
        r == steered(current, requested),
{
    match requested {
        Some(d) => {
            if d != current.opposite() {
                d
            } else {
                current
            }
        },
        None => current,
    }
}

/// Reduces the four held controls to a requested heading.
pub fn requested_direction(up: bool, down: bool, right: bool, left: bool) -> (r: Option<Direction>)
    ensures
        r == requested_by(up, down, right, left),
{
    if up {
        Some(Direction::Up)
    } else if down {
        Some(Direction::Down)
    } else if right {
        Some(Direction::Right)
    } else if left {
        Some(Direction::Left)
    } else {
        None
    }
}

/// Taking the opposite twice gives the heading back.
pub proof fn lemma_opposite_involutive(d: Direction)
    ensures
        opposite_of(opposite_of(d)) == d,
        opposite_of(d) != d,
{
}

/// A request that points straight back never changes the heading; any other
/// request becomes the heading.
pub proof fn lemma_reversal_guard(current: Direction, requested: Direction)
    ensures
        steered(current, Some(opposite_of(current))) == current,
        requested != opposite_of(current) ==> steered(current, Some(requested)) == requested,
{
}

} // verus!
