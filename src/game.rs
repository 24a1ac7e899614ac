use vstd::prelude::*;
use crate::direction::{Direction, steered, steer};
use crate::grid::{Position, in_arena};
use crate::snake::{Snake, spawn_segments, followed, move_ends_game, grown};
use crate::food::{place_food, eat, free_cell, arena_full, uneaten, eaten_count, lemma_eating_idempotent};

verus! {

/// The segments after the movement step of a tick: moved when the movement
/// timer elapsed, as they were otherwise.
pub open spec fn after_move(s: Seq<Position>, d: Direction, move_due: bool) -> Seq<Position> {
    if move_due { followed(s, d) } else { s }
}

/// The recorded tail cell after the movement step of a tick.
pub open spec fn tail_after_move(s: Seq<Position>, last_tail: Option<Position>, move_due: bool) -> Option<Position> {
    if move_due { Some(s.last()) } else { last_tail }
}

/// The segments after growth at the recorded tail cell; with no cell
/// recorded there is nothing to grow at.
pub open spec fn grown_at(s: Seq<Position>, last_tail: Option<Position>, signals: nat) -> Seq<Position> {
    match last_tail {
        Some(t) => grown(s, t, signals),
        None => s,
    }
}

/// The whole state of a round: the snake, the live food items, and the cell
/// that the tail left on the last movement tick of the round.
#[derive(Debug)]
pub struct Game {
    pub snake: Snake,
    pub foods: Vec<Position>,
    pub last_tail: Option<Position>,
}

/// What one tick reports.
#[derive(Clone, Copy, Debug, PartialEq, Eq, Structural)]
pub struct TickOutcome {
    /// The round ended and the game was reset.
    pub game_over: bool,
    /// Growth signals raised by eating, one per food item eaten.
    pub signals: usize,
}

impl Game {
    /// The snake is well formed; a recorded tail cell lies in the arena;
    /// before the first move of a round no food item lies on the head.
    pub open spec fn wf(&self) -> bool {
        &&& self.snake.wf()
        &&& (self.last_tail matches Some(t) ==> in_arena(t))
        &&& (self.last_tail is None ==> !self.foods@.contains(self.snake.segments@[0]))
    }

    /// A new round: a fresh snake and no food.
    pub fn new() -> (r: Game)
        ensures
            r.wf(),
            r.snake.segments@ == spawn_segments(),
            r.snake.direction == Direction::Up,
            r.foods@.len() == 0,
            r.last_tail is None,
    {
        Game { snake: Snake::spawn(), foods: Vec::new(), last_tail: None }
    }

    /// Ends the round: all food goes, the snake is spawned afresh, and no
    /// tail cell is recorded.
    pub fn reset(&mut self)
        ensures
            final(self).wf(),
            final(self).snake.segments@ == spawn_segments(),
            final(self).snake.segments@.len() == 2,
            final(self).snake.direction == Direction::Up,
            final(self).foods@.len() == 0,
            final(self).last_tail is None,
    {
        self.foods = Vec::new();
        self.snake = Snake::spawn();
        self.last_tail = None;
    }

    /// Places one more food item on a free cell; nothing changes only when
    /// the snake covers the arena.
    pub fn spawn_food(&mut self) -> (placed: Option<Position>)
        requires
            old(self).wf(),
        ensures
            final(self).wf(),
            final(self).snake == old(self).snake,
            final(self).last_tail == old(self).last_tail,
            placed is None <==> arena_full(old(self).snake.segments@),
            placed matches Some(p) ==> free_cell(old(self).snake.segments@, p)
                && final(self).foods@ == old(self).foods@.push(p),
            placed is None ==> final(self).foods@ == old(self).foods@,
    {
        let placed = place_food(&self.snake.segments);
        if let Some(p) = placed {
            self.foods.push(p);
            proof {
                assert(p != self.snake.segments@[0]);
                assert(self.foods@.contains(self.snake.segments@[0]) ==> old(self).foods@.contains(
                    self.snake.segments@[0],
                )) by {
                    if self.foods@.contains(self.snake.segments@[0]) {
                        let k = choose|k: int| 0 <= k < self.foods@.len() && self.foods@[k] == self.snake.segments@[0];
                        assert(k < old(self).foods@.len());
                        assert(old(self).foods@[k] == self.foods@[k]);
                    }
                }
            }
        }
        placed
    }

    /// One tick: steer, move when the movement timer elapsed, reset on a
    /// game over, otherwise eat what lies on the head and grow one segment
    /// per item eaten at the recorded tail cell.
    pub fn tick(&mut self, requested: Option<Direction>, move_due: bool) -> (r: TickOutcome)
        requires
            old(self).wf(),
        ensures
            final(self).wf(),
            r.game_over == (move_due && move_ends_game(
                old(self).snake.segments@,
                steered(old(self).snake.direction, requested),
            )),
            r.game_over ==> final(self).snake.segments@ == spawn_segments()
                && final(self).snake.segments@.len() == 2
                && final(self).snake.direction == Direction::Up
                && final(self).foods@.len() == 0
                && final(self).last_tail is None
                && r.signals == 0,
            !r.game_over ==> {
                let d = steered(old(self).snake.direction, requested);
                let moved = after_move(old(self).snake.segments@, d, move_due);
                let tail = tail_after_move(old(self).snake.segments@, old(self).last_tail, move_due);
                &&& final(self).snake.direction == d
                &&& final(self).last_tail == tail
                &&& r.signals == eaten_count(old(self).foods@, moved[0])
                &&& final(self).foods@ == uneaten(old(self).foods@, moved[0])
                &&& final(self).snake.segments@ == grown_at(moved, tail, r.signals as nat)
            },
    {
        self.snake.direction = steer(self.snake.direction, requested);
        if move_due {
            let step = self.snake.advance();
            self.last_tail = Some(step.last_tail);
            if step.game_over {
                self.reset();
                return TickOutcome { game_over: true, signals: 0 };
            }
        }
        let head = self.snake.head();
        let signals = eat(&mut self.foods, head);
        proof {
            lemma_eating_idempotent(old(self).foods@, head);
            if self.last_tail is None {
                lemma_no_food_no_signal(old(self).foods@, head);
            }
        }
        match self.last_tail {
            Some(t) => {
                self.snake.grow(t, signals);
            },
            None => {},
        }
        TickOutcome { game_over: false, signals }
    }
}

/// With no food item on a cell, eating there raises no signal.
proof fn lemma_no_food_no_signal(foods: Seq<Position>, head: Position)
    requires
        !foods.contains(head),
    ensures
        eaten_count(foods, head) == 0,
    decreases foods.len(),
{
    reveal_with_fuel(Seq::filter, 1);
    if foods.len() > 0 {
        let t = foods.drop_last();
        assert(!t.contains(head)) by {
            if t.contains(head) {
                let k = choose|k: int| 0 <= k < t.len() && t[k] == head;
                assert(foods[k] == head);
            }
        }
        lemma_no_food_no_signal(t, head);
    }
}

} // verus!
