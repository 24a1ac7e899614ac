use vstd::prelude::*;
use crate::direction::{Direction, opposite_of};
use crate::grid::{Position, in_arena, all_in_arena, occupies};

verus! {

/// Cells that one movement tick advances the head.
pub const MOVE_STEP: i32 = 1;

/// Column and row of the head when a snake is spawned.
pub const SPAWN_X: i32 = 3;
pub const SPAWN_Y: i32 = 3;

/// The cell next to `p` in heading `d`.
pub open spec fn stepped(p: Position, d: Direction) -> Position {
    match d {
        Direction::Up => Position { x: p.x, y: (p.y + MOVE_STEP) as i32 },
        Direction::Down => Position { x: p.x, y: (p.y - MOVE_STEP) as i32 },
        Direction::Right => Position { x: (p.x + MOVE_STEP) as i32, y: p.y },
        Direction::Left => Position { x: (p.x - MOVE_STEP) as i32, y: p.y },
    }
}

/// The segments after one movement tick: a new head one step ahead, and each
/// other segment on the cell that the one ahead of it held before.
pub open spec fn followed(s: Seq<Position>, d: Direction) -> Seq<Position> {
    seq![stepped(s[0], d)] + s.subrange(0, s.len() - 1)
}

/// One movement tick ends the round: the new head leaves the arena or lands
/// on a cell that the snake held before the move.
pub open spec fn move_ends_game(s: Seq<Position>, d: Direction) -> bool {
    !in_arena(stepped(s[0], d)) || s.contains(stepped(s[0], d))
}

/// The segments after growth: one more segment on `last_tail` for each
/// of `signals` growth signals.
pub open spec fn grown(s: Seq<Position>, last_tail: Position, signals: nat) -> Seq<Position> {
    s + Seq::new(signals, |k: int| last_tail)
}

/// The segments of a freshly spawned snake: the head and one segment below it.
pub open spec fn spawn_segments() -> Seq<Position> {
    seq![Position { x: SPAWN_X, y: SPAWN_Y }, Position { x: SPAWN_X, y: (SPAWN_Y - 1) as i32 }]
}

/// The snake: its segments, head first, and its heading.
#[derive(Debug)]
pub struct Snake {
    pub segments: Vec<Position>,
    pub direction: Direction,
}

/// What one movement tick reports.
#[derive(Clone, Copy, Debug, PartialEq, Eq, Structural)]
pub struct MoveOutcome {
    /// The move hit a wall or the snake itself.
    pub game_over: bool,
    /// The cell that the tail held before the move.
    pub last_tail: Position,
}

impl Snake {
    /// At least a head, and every segment inside the arena.
    pub open spec fn wf(&self) -> bool {
        self.segments@.len() >= 1 && all_in_arena(self.segments@)
    }

    /// The snake of a new round: head at the spawn cell, one segment behind
    /// it, heading up.
    pub fn spawn() -> (r: Snake)
        ensures
            r.segments@ == spawn_segments(),
            r.direction == Direction::Up,
            r.wf(),
    {
        let segments = vec![Position::new(SPAWN_X, SPAWN_Y), Position::new(SPAWN_X, SPAWN_Y - 1)];
        let r = Snake { segments, direction: Direction::Up };
        assert(r.segments@ =~= spawn_segments());
        r
    }

    /// The cell of the head.
    pub fn head(&self) -> (r: Position)
        requires
            self.wf(),
        ensures
            r == self.segments@[0],
    {
        self.segments[0]
    }

    /// Number of segments, head included.
    pub fn len(&self) -> (r: usize)
        ensures
            r == self.segments@.len(),
    {
        self.segments.len()
    }

    /// One movement tick. The body follows the head from a snapshot taken
    /// before the move; the outcome says whether the round ends and which
    /// cell the tail left.
    pub fn advance(&mut self) -> (r: MoveOutcome)
        requires
            old(self).wf(),
        ensures
            final(self).segments@ == followed(old(self).segments@, old(self).direction),
            final(self).direction == old(self).direction,
            final(self).segments@.len() == old(self).segments@.len(),
            r.game_over == move_ends_game(old(self).segments@, old(self).direction),
            r.last_tail == old(self).segments@.last(),
            !r.game_over ==> final(self).wf(),
    {
        let n = self.segments.len();
        let old_head = self.segments[0];
        proof {
            assert(in_arena(self.segments@[0]));
        }
        let new_head = match self.direction {
            Direction::Up => Position::new(old_head.x, old_head.y + MOVE_STEP),
            Direction::Down => Position::new(old_head.x, old_head.y - MOVE_STEP),
            Direction::Right => Position::new(old_head.x + MOVE_STEP, old_head.y),
            Direction::Left => Position::new(old_head.x - MOVE_STEP, old_head.y),
        };
        let hits_wall = !new_head.in_arena();
        let hits_self = occupies(&self.segments, new_head);
        let mut moved: Vec<Position> = Vec::new();
        moved.push(new_head);
        let mut i: usize = 0;
        while i + 1 < n
            invariant
                n == self.segments@.len(),
                n >= 1,
                i + 1 <= n,
                moved@ == seq![new_head] + self.segments@.subrange(0, i as int),
            decreases n - i,
        {
            moved.push(self.segments[i]);
            i = i + 1;
            assert(moved@ =~= seq![new_head] + self.segments@.subrange(0, i as int));
        }
        let last_tail = self.segments[n - 1];
        proof {
            lemma_follow_stays_in_arena(self.segments@, self.direction);
        }
        self.segments = moved;
        MoveOutcome { game_over: hits_wall || hits_self, last_tail }
    }

    /// Appends one segment at `last_tail` for each of `signals` growth
    /// signals.
    pub fn grow(&mut self, last_tail: Position, signals: usize)
        ensures
            final(self).segments@ == grown(old(self).segments@, last_tail, signals as nat),
            final(self).segments@.len() == old(self).segments@.len() + signals,
            final(self).direction == old(self).direction,
            old(self).wf() && in_arena(last_tail) ==> final(self).wf(),
    {
        let mut k: usize = 0;
        while k < signals
            invariant
                k <= signals,
                self.segments@ == old(self).segments@ + Seq::new(k as nat, |j: int| last_tail),
                self.direction == old(self).direction,
            decreases signals - k,
        {
            self.segments.push(last_tail);
            k = k + 1;
            assert(self.segments@ =~= old(self).segments@ + Seq::new(k as nat, |j: int| last_tail));
        }
    }
}

/// After a move that does not end the round, every segment lies inside the
/// arena, and the snake keeps its length.
pub proof fn lemma_follow_stays_in_arena(s: Seq<Position>, d: Direction)
    requires
        s.len() >= 1,
        all_in_arena(s),
    ensures
        followed(s, d).len() == s.len(),
        followed(s, d)[0] == stepped(s[0], d),
        forall|i: int| 1 <= i < s.len() ==> #[trigger] followed(s, d)[i] == s[i - 1],
        !move_ends_game(s, d) ==> all_in_arena(followed(s, d)),
{
    let f = followed(s, d);
    assert forall|i: int| 1 <= i < s.len() implies #[trigger] f[i] == s[i - 1] by {}
    if !move_ends_game(s, d) {
        assert forall|i: int| 0 <= i < f.len() implies #[trigger] in_arena(f[i]) by {
            if i > 0 {
                assert(in_arena(s[i - 1]));
            }
        }
    }
}

/// A move whose new head lands on a cell that the snake held before the move
/// ends the round, whether or not that cell lies inside the arena.
pub proof fn lemma_self_collision_ends_game(s: Seq<Position>, d: Direction, i: int)
    requires
        0 <= i < s.len(),
        s[i] == stepped(s[0], d),
    ensures
        move_ends_game(s, d),
{
    assert(s.contains(stepped(s[0], d)));
}

/// Growth adds exactly one segment per signal, each on the recorded tail
/// cell, and leaves the segments before them as they were.
pub proof fn lemma_growth_appends_at_tail(s: Seq<Position>, last_tail: Position, signals: nat)
    ensures
        grown(s, last_tail, signals).len() == s.len() + signals,
        forall|i: int| 0 <= i < s.len() ==> #[trigger] grown(s, last_tail, signals)[i] == s[i],
        forall|i: int|
            s.len() <= i < s.len() + signals ==> #[trigger] grown(s, last_tail, signals)[i]
                == last_tail,
{
}

} // verus!
