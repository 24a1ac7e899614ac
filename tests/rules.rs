use snake::direction::{requested_direction, steer, Direction};
use snake::food::{accept_cell, eat, first_free_cell, place_food};
use snake::game::Game;
use snake::grid::{occupies, Position, ARENA_HEIGHT, ARENA_WIDTH};
use snake::snake::Snake;

fn pos(x: i32, y: i32) -> Position {
    Position::new(x, y)
}

fn snake_at(cells: &[(i32, i32)], direction: Direction) -> Snake {
    Snake { segments: cells.iter().map(|&(x, y)| pos(x, y)).collect(), direction }
}

fn all_cells_but(free: Option<(i32, i32)>) -> Vec<Position> {
    let mut cells = Vec::new();
    for y in 0..ARENA_HEIGHT {
        for x in 0..ARENA_WIDTH {
            if free != Some((x, y)) {
                cells.push(pos(x, y));
            }
        }
    }
    cells
}

#[test]
fn opposite_is_involutive() {
    for d in [Direction::Up, Direction::Down, Direction::Left, Direction::Right] {
        assert_eq!(d.opposite().opposite(), d);
        assert_ne!(d.opposite(), d);
    }
    assert_eq!(Direction::Up.opposite(), Direction::Down);
    assert_eq!(Direction::Left.opposite(), Direction::Right);
}

#[test]
fn reversal_guard_from_up() {
    assert_eq!(steer(Direction::Up, Some(Direction::Down)), Direction::Up);
    assert_eq!(steer(Direction::Up, Some(Direction::Left)), Direction::Left);
    assert_eq!(steer(Direction::Up, Some(Direction::Right)), Direction::Right);
    assert_eq!(steer(Direction::Up, Some(Direction::Up)), Direction::Up);
    assert_eq!(steer(Direction::Left, None), Direction::Left);
    assert_eq!(steer(Direction::Left, Some(Direction::Right)), Direction::Left);
}

#[test]
fn held_controls_give_request_in_priority_order() {
    assert_eq!(requested_direction(true, true, true, true), Some(Direction::Up));
    assert_eq!(requested_direction(false, true, true, false), Some(Direction::Down));
    assert_eq!(requested_direction(false, false, true, true), Some(Direction::Right));
    assert_eq!(requested_direction(false, false, false, true), Some(Direction::Left));
    assert_eq!(requested_direction(false, false, false, false), None);
}

#[test]
fn segments_follow_from_snapshot() {
    let mut s = snake_at(&[(3, 3), (3, 2), (3, 1)], Direction::Up);
    let out = s.advance();
    assert!(!out.game_over);
    assert_eq!(s.segments, vec![pos(3, 4), pos(3, 3), pos(3, 2)]);
    assert_eq!(out.last_tail, pos(3, 1));
    assert_eq!(s.direction, Direction::Up);
}

#[test]
fn moving_right_off_the_edge_ends_game() {
    let mut s = snake_at(&[(9, 5), (8, 5)], Direction::Right);
    let out = s.advance();
    assert!(out.game_over);
    assert_eq!(s.segments[0], pos(10, 5));
}

#[test]
fn moving_down_off_the_bottom_ends_game() {
    let mut s = snake_at(&[(4, 0), (4, 1)], Direction::Down);
    assert!(s.advance().game_over);
    let mut t = snake_at(&[(0, 7), (1, 7)], Direction::Left);
    assert!(t.advance().game_over);
}

#[test]
fn head_onto_own_body_ends_game_inside_arena() {
    let mut s = snake_at(&[(5, 5), (6, 5), (6, 6), (5, 6)], Direction::Up);
    let out = s.advance();
    assert!(out.game_over);
    assert_eq!(s.segments[0], pos(5, 6));
    let mut t = snake_at(&[(5, 5), (5, 4), (4, 4), (4, 5), (4, 6)], Direction::Left);
    assert!(t.advance().game_over);
}

#[test]
fn free_move_does_not_end_game() {
    let mut s = snake_at(&[(5, 5), (5, 4)], Direction::Right);
    let out = s.advance();
    assert!(!out.game_over);
    assert_eq!(s.segments, vec![pos(6, 5), pos(5, 5)]);
    assert_eq!(out.last_tail, pos(5, 4));
}

#[test]
fn spawned_snake() {
    let s = Snake::spawn();
    assert_eq!(s.segments, vec![pos(3, 3), pos(3, 2)]);
    assert_eq!(s.direction, Direction::Up);
    assert_eq!(s.len(), 2);
    assert_eq!(s.head(), pos(3, 3));
}

#[test]
fn growth_appends_one_segment_per_signal() {
    let mut s = snake_at(&[(3, 4), (3, 3)], Direction::Up);
    s.grow(pos(3, 2), 1);
    assert_eq!(s.segments, vec![pos(3, 4), pos(3, 3), pos(3, 2)]);
    s.grow(pos(3, 2), 2);
    assert_eq!(s.len(), 5);
    assert_eq!(s.segments[3], pos(3, 2));
    assert_eq!(s.segments[4], pos(3, 2));
    s.grow(pos(0, 0), 0);
    assert_eq!(s.len(), 5);
}

#[test]
fn occupancy_and_bounds() {
    let cells = vec![pos(1, 1), pos(2, 1)];
    assert!(occupies(&cells, pos(2, 1)));
    assert!(!occupies(&cells, pos(1, 2)));
    assert!(pos(0, 0).in_arena());
    assert!(pos(9, 9).in_arena());
    assert!(!pos(10, 0).in_arena());
    assert!(!pos(0, -1).in_arena());
}

#[test]
fn drawn_cell_is_taken_only_when_free() {
    let cells = vec![pos(3, 3), pos(3, 2)];
    assert_eq!(accept_cell(&cells, pos(4, 4)), Some(pos(4, 4)));
    assert_eq!(accept_cell(&cells, pos(3, 2)), None);
    assert_eq!(accept_cell(&cells, pos(10, 2)), None);
    assert_eq!(accept_cell(&cells, pos(-1, 2)), None);
}

#[test]
fn scan_finds_the_only_free_cell() {
    assert_eq!(first_free_cell(&all_cells_but(Some((7, 8)))), Some(pos(7, 8)));
    assert_eq!(first_free_cell(&all_cells_but(None)), None);
    assert_eq!(first_free_cell(&vec![pos(1, 1)]), Some(pos(0, 0)));
}

#[test]
fn food_is_never_placed_on_the_snake() {
    let cells = vec![pos(3, 3), pos(3, 2), pos(4, 2), pos(5, 2)];
    let mut seen = Vec::new();
    for _ in 0..300 {
        let p = place_food(&cells).unwrap();
        assert!(p.in_arena());
        assert!(!cells.contains(&p));
        if !seen.contains(&p) {
            seen.push(p);
        }
    }
    // the cells are drawn at random, so more than one of them comes up
    assert!(seen.len() > 1);
}

#[test]
fn food_placement_ends_on_a_nearly_full_arena() {
    assert_eq!(place_food(&all_cells_but(Some((0, 9)))), Some(pos(0, 9)));
    assert_eq!(place_food(&all_cells_but(None)), None);
}

#[test]
fn eating_removes_each_item_on_the_head_once() {
    let mut foods = vec![pos(3, 3), pos(1, 1), pos(3, 3)];
    assert_eq!(eat(&mut foods, pos(3, 3)), 2);
    assert_eq!(foods, vec![pos(1, 1)]);
    assert_eq!(eat(&mut foods, pos(3, 3)), 0);
    assert_eq!(foods, vec![pos(1, 1)]);
    let mut none: Vec<Position> = Vec::new();
    assert_eq!(eat(&mut none, pos(0, 0)), 0);
}

#[test]
fn new_game_state() {
    let g = Game::new();
    assert_eq!(g.snake.segments, vec![pos(3, 3), pos(3, 2)]);
    assert_eq!(g.snake.direction, Direction::Up);
    assert!(g.foods.is_empty());
    assert_eq!(g.last_tail, None);
}

#[test]
fn tick_moves_eats_and_grows() {
    let mut g = Game::new();
    g.foods = vec![pos(3, 4), pos(8, 8)];
    let out = g.tick(None, true);
    assert!(!out.game_over);
    assert_eq!(out.signals, 1);
    assert_eq!(g.foods, vec![pos(8, 8)]);
    assert_eq!(g.last_tail, Some(pos(3, 2)));
    assert_eq!(g.snake.segments, vec![pos(3, 4), pos(3, 3), pos(3, 2)]);
}

#[test]
fn tick_without_move_only_steers() {
    let mut g = Game::new();
    let out = g.tick(Some(Direction::Right), false);
    assert!(!out.game_over);
    assert_eq!(out.signals, 0);
    assert_eq!(g.snake.direction, Direction::Right);
    assert_eq!(g.snake.segments, vec![pos(3, 3), pos(3, 2)]);
    let out = g.tick(Some(Direction::Left), true);
    assert!(!out.game_over);
    assert_eq!(g.snake.direction, Direction::Right);
    assert_eq!(g.snake.segments, vec![pos(4, 3), pos(3, 3)]);
}

#[test]
fn game_over_resets_snake_and_food() {
    let mut g = Game::new();
    g.snake = snake_at(&[(9, 5), (8, 5), (7, 5)], Direction::Right);
    g.foods = vec![pos(1, 1), pos(2, 2)];
    g.last_tail = Some(pos(6, 5));
    let out = g.tick(None, true);
    assert!(out.game_over);
    assert_eq!(out.signals, 0);
    assert_eq!(g.snake.segments.len(), 2);
    assert_eq!(g.snake.segments, vec![pos(3, 3), pos(3, 2)]);
    assert_eq!(g.snake.direction, Direction::Up);
    assert!(g.foods.is_empty());
    assert_eq!(g.last_tail, None);
}

#[test]
fn spawned_food_lands_on_a_free_cell() {
    let mut g = Game::new();
    for _ in 0..20 {
        let p = g.spawn_food().unwrap();
        assert!(p.in_arena());
        assert!(!g.snake.segments.contains(&p));
    }
    assert_eq!(g.foods.len(), 20);
    g.reset();
    assert!(g.foods.is_empty());
}
