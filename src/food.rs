use vstd::prelude::*;
use rand::Rng;
use crate::grid::{Position, ARENA_WIDTH, ARENA_HEIGHT, in_arena, occupies};

verus! {

/// Random cells drawn before placement falls back to scanning the arena.
pub const FOOD_SAMPLE_TRIES: u32 = 100;

/// Food can go on `p`: inside the arena and not under the snake.
pub open spec fn free_cell(snake: Seq<Position>, p: Position) -> bool {
    in_arena(p) && !snake.contains(p)
}

/// The snake covers every cell of the arena.
pub open spec fn arena_full(snake: Seq<Position>) -> bool {
    forall|p: Position| #[trigger] in_arena(p) ==> snake.contains(p)
}

/// The food items that are not on `head`.
pub open spec fn uneaten(foods: Seq<Position>, head: Position) -> Seq<Position> {
    foods.filter(|f: Position| f != head)
}

/// How many food items lie on `head`.
pub open spec fn eaten_count(foods: Seq<Position>, head: Position) -> nat {
    foods.filter(|f: Position| f == head).len()
}

/// Relies on rand's `thread_rng().gen_range(0..n)`: a value in `[0, n)`.
/// It panics on an empty range, which `requires` rules out; `thread_rng`
/// itself panics only when the operating system gives it no entropy.
#[verifier::external_body]
fn random_below(n: i32) -> (r: i32)
    requires
        0 < n,
    ensures
        0 <= r < n,
{
    rand::thread_rng().gen_range(0..n)
}

/// Takes a drawn cell as the food cell when food can go there.
pub fn accept_cell(snake: &Vec<Position>, candidate: Position) -> (r: Option<Position>)
    ensures
        r == (if free_cell(snake@, candidate) { Some(candidate) } else { None::<Position> }),
{
    if candidate.in_arena() && !occupies(snake, candidate) {
        Some(candidate)
    } else {
        None
    }
}

/// The first free cell in row order, bottom row first; none when the snake
/// covers the arena.
pub fn first_free_cell(snake: &Vec<Position>) -> (r: Option<Position>)
    ensures
        r is Some ==> free_cell(snake@, r->0),
        r is None <==> arena_full(snake@),
{
    let mut y: i32 = 0;
    while y < ARENA_HEIGHT
        invariant
            0 <= y <= ARENA_HEIGHT,
            forall|p: Position| #[trigger] in_arena(p) && p.y < y ==> snake@.contains(p),
        decreases ARENA_HEIGHT - y,
    {
        let mut x: i32 = 0;
        while x < ARENA_WIDTH
            invariant
                0 <= x <= ARENA_WIDTH,
                0 <= y < ARENA_HEIGHT,
                forall|p: Position|
                    #[trigger] in_arena(p) && (p.y < y || (p.y == y && p.x < x)) ==> snake@.contains(p),
            decreases ARENA_WIDTH - x,
        {
            let p = Position::new(x, y);
            if !occupies(snake, p) {
                assert(in_arena(p));
                return Some(p);
            }
            x = x + 1;
        }
        y = y + 1;
    }
    None
}

/// Picks a cell for a new food item: random cells are drawn until one is
/// free, at most `FOOD_SAMPLE_TRIES` times, then the arena is scanned. The
/// result is a free cell whenever one exists, and none only when the snake
/// covers the arena.
pub fn place_food(snake: &Vec<Position>) -> (r: Option<Position>)
    ensures
        r is Some ==> free_cell(snake@, r->0),
        r is None <==> arena_full(snake@),
{
    let mut tries: u32 = 0;
    while tries < FOOD_SAMPLE_TRIES
        invariant
            tries <= FOOD_SAMPLE_TRIES,
        decreases FOOD_SAMPLE_TRIES - tries,
    {
        let candidate = Position::new(random_below(ARENA_WIDTH), random_below(ARENA_HEIGHT));
        if let Some(p) = accept_cell(snake, candidate) {
            return Some(p);
        }
        tries = tries + 1;
    }
    first_free_cell(snake)
}

/// Removes every food item on `head` and returns one growth signal per
/// item removed.
pub fn eat(foods: &mut Vec<Position>, head: Position) -> (signals: usize)
    ensures
        final(foods)@ == uneaten(old(foods)@, head),
        signals == eaten_count(old(foods)@, head),
{
    let ghost s = foods@;
    let mut kept: Vec<Position> = Vec::new();
    let mut signals: usize = 0;
    let mut i: usize = 0;
    while i < foods.len()
        invariant
            foods@ == s,
            i <= s.len(),
            kept@ == uneaten(s.subrange(0, i as int), head),
            signals == eaten_count(s.subrange(0, i as int), head),
            signals <= i,
        decreases s.len() - i,
    {
        let f = foods[i];
        proof {
            assert(s.subrange(0, i + 1) =~= s.subrange(0, i as int).push(f));
            lemma_push_split(s.subrange(0, i as int), f, head);
        }
        if f == head {
            signals = signals + 1;
        } else {
            kept.push(f);
        }
        i = i + 1;
    }
    proof {
        assert(s.subrange(0, s.len() as int) =~= s);
    }
    *foods = kept;
    signals
}

/// One more item: it is kept unless it lies on `head`, and counted if it does.
proof fn lemma_push_split(t: Seq<Position>, x: Position, head: Position)
    ensures
        uneaten(t.push(x), head) == (if x != head { uneaten(t, head).push(x) } else { uneaten(t, head) }),
        eaten_count(t.push(x), head) == eaten_count(t, head) + (if x == head { 1nat } else { 0nat }),
{
    reveal_with_fuel(Seq::filter, 1);
    assert(t.push(x).drop_last() =~= t);
    assert(t.push(x).last() == x);
}

/// Eating is idempotent within a tick: afterwards no food item lies on the
/// head, each removed item gave exactly one signal, and eating again on the
/// same cell removes nothing and raises no signal.
pub proof fn lemma_eating_idempotent(foods: Seq<Position>, head: Position)
    ensures
        !uneaten(foods, head).contains(head),
        uneaten(foods, head).len() + eaten_count(foods, head) == foods.len(),
        eaten_count(uneaten(foods, head), head) == 0,
        uneaten(uneaten(foods, head), head) == uneaten(foods, head),
    decreases foods.len(),
{
    if foods.len() > 0 {
        let t = foods.drop_last();
        let x = foods.last();
        lemma_eating_idempotent(t, head);
        assert(t.push(x) =~= foods);
        lemma_push_split(t, x, head);
        if x != head {
            lemma_push_split(uneaten(t, head), x, head);
            assert(!uneaten(foods, head).contains(head)) by {
                if uneaten(foods, head).contains(head) {
                    let k = choose|k: int| 0 <= k < uneaten(foods, head).len() && uneaten(foods, head)[k] == head;
                    if k < uneaten(t, head).len() {
                        assert(uneaten(t, head)[k] == head);
                    }
                }
            }
        }
    }
}

} // verus!
