use rusty_snake::controller::{EatEvent, SnakeDirection};
use rusty_snake::grid::{Grid, Position};
use rusty_snake::snake::{
    grow_snake, spawn_snake, AdvanceResult, LastTailPosition, SnakeHead, SnakeSegmentsVec,
    SnakeState, START_X, START_Y,
};

fn at(x: i32, y: i32) -> Position {
    Position { x, y }
}

fn headings() -> Vec<SnakeDirection> {
    vec![SnakeDirection::Left, SnakeDirection::Right, SnakeDirection::Up, SnakeDirection::Down]
}

#[test]
fn spawned_snake_starts_at_three_three_heading_up() {
    let snake = spawn_snake();
    assert_eq!((START_X, START_Y), (3, 3));
    assert_eq!(snake.segments(), &vec![at(3, 3), at(3, 2)]);
    assert_eq!(snake.heading(), SnakeDirection::Up);
    assert!(snake.is_alive());
    assert_eq!(snake.len(), 2);
    assert_eq!(snake.head_position(), at(3, 3));
    assert_eq!(snake.tail_position(), at(3, 2));
}

#[test]
fn spawned_segment_is_behind_the_head() {
    // One step in the opposite of the initial heading leads from the head to
    // the segment.
    let snake = spawn_snake();
    let mut backwards =
        SnakeState::new(vec![at(3, 3), at(3, 4)], snake.heading().opposite()).unwrap();
    let grid = Grid::standard();
    let result = backwards.advance(&grid).unwrap();
    assert_eq!(result.new_head, snake.tail_position());
}

#[test]
fn new_needs_two_cells() {
    assert!(SnakeState::new(Vec::new(), SnakeDirection::Up).is_none());
    assert!(SnakeState::new(vec![at(1, 1)], SnakeDirection::Up).is_none());
    let snake = SnakeState::new(vec![at(1, 1), at(1, 0)], SnakeDirection::Right).unwrap();
    assert_eq!(snake.segments(), &vec![at(1, 1), at(1, 0)]);
    assert_eq!(snake.heading(), SnakeDirection::Right);
    assert!(snake.is_alive());
}

#[test]
fn is_on_grid_looks_at_the_head() {
    let grid = Grid::new(4, 4, false).unwrap();
    assert!(spawn_snake().is_on_grid(&grid));
    let outside = SnakeState::new(vec![at(4, 0), at(3, 0)], SnakeDirection::Right).unwrap();
    assert!(!outside.is_on_grid(&grid));
    let body_outside = SnakeState::new(vec![at(3, 0), at(4, 0)], SnakeDirection::Left).unwrap();
    assert!(body_outside.is_on_grid(&grid));
}

#[test]
fn set_heading_accepts_everything_but_a_reversal() {
    for current in headings() {
        for requested in headings() {
            let mut snake = SnakeState::new(vec![at(5, 5), at(5, 4)], current).unwrap();
            snake.set_heading(requested);
            if requested == current.opposite() {
                assert_eq!(snake.heading(), current);
            } else {
                assert_eq!(snake.heading(), requested);
            }
            assert_ne!(snake.heading(), current.opposite());
            assert_eq!(snake.segments(), &vec![at(5, 5), at(5, 4)]);
            assert!(snake.is_alive());
        }
    }
}

#[test]
fn set_heading_twice_is_set_heading_once() {
    for current in headings() {
        for requested in headings() {
            let mut once = SnakeState::new(vec![at(5, 5), at(5, 4)], current).unwrap();
            once.set_heading(requested);
            let mut twice = SnakeState::new(vec![at(5, 5), at(5, 4)], current).unwrap();
            twice.set_heading(requested);
            twice.set_heading(requested);
            assert_eq!(once.heading(), twice.heading());
        }
    }
}

#[test]
fn next_head_is_one_step_in_the_heading() {
    let grid = Grid::standard();
    let cases = vec![
        (SnakeDirection::Left, at(4, 5)),
        (SnakeDirection::Right, at(6, 5)),
        (SnakeDirection::Up, at(5, 6)),
        (SnakeDirection::Down, at(5, 4)),
    ];
    for (heading, expected) in cases {
        let snake = SnakeState::new(vec![at(5, 5), at(0, 0)], heading).unwrap();
        assert_eq!(snake.next_head(&grid), expected);
    }
}

#[test]
fn next_head_wraps_at_every_edge() {
    let grid = Grid::new(11, 7, true).unwrap();
    let cases = vec![
        (at(0, 3), SnakeDirection::Left, at(10, 3)),
        (at(10, 3), SnakeDirection::Right, at(0, 3)),
        (at(4, 6), SnakeDirection::Up, at(4, 0)),
        (at(4, 0), SnakeDirection::Down, at(4, 6)),
    ];
    for (head, heading, expected) in cases {
        let snake = SnakeState::new(vec![head, at(5, 5)], heading).unwrap();
        assert_eq!(snake.next_head(&grid), expected);
    }
}

#[test]
fn advance_shifts_every_segment_forward() {
    let grid = Grid::standard();
    let segments = vec![at(5, 5), at(4, 5), at(4, 4), at(3, 4)];
    let mut snake = SnakeState::new(segments, SnakeDirection::Up).unwrap();
    let result = snake.advance(&grid);
    assert_eq!(result, Some(AdvanceResult { prev_tail: at(3, 4), new_head: at(5, 6) }));
    assert_eq!(snake.segments(), &vec![at(5, 6), at(5, 5), at(4, 5), at(4, 4)]);
    assert_eq!(snake.heading(), SnakeDirection::Up);
    assert!(snake.is_alive());
}

#[test]
fn advance_keeps_the_segment_count() {
    let grid = Grid::standard();
    let mut snake = spawn_snake();
    for _ in 0..30 {
        snake.advance(&grid).unwrap();
        assert_eq!(snake.len(), 2);
    }
}

#[test]
fn advance_with_wraparound_keeps_the_head_on_the_grid() {
    let grid = Grid::standard();
    for heading in headings() {
        let mut snake = SnakeState::new(vec![at(3, 3), at(0, 0)], heading).unwrap();
        for _ in 0..40 {
            let result = snake.advance(&grid).unwrap();
            let head = snake.head_position();
            assert_eq!(head, result.new_head);
            assert!(0 <= head.x && head.x < 11);
            assert!(0 <= head.y && head.y < 11);
        }
    }
}

#[test]
fn advance_returns_to_the_start_after_a_lap() {
    let grid = Grid::standard();
    let mut snake = spawn_snake();
    for _ in 0..11 {
        snake.advance(&grid).unwrap();
    }
    assert_eq!(snake.segments(), &vec![at(3, 3), at(3, 2)]);
}

#[test]
fn advance_wraps_from_the_right_edge_to_column_zero() {
    let grid = Grid::new(11, 11, true).unwrap();
    let mut snake = SnakeState::new(vec![at(10, 4), at(9, 4)], SnakeDirection::Right).unwrap();
    let result = snake.advance(&grid).unwrap();
    assert_eq!(result.new_head.x, 0);
    assert_eq!(snake.head_position(), at(0, 4));
    assert_eq!(snake.check_collision(&grid, &result), false);
    assert!(snake.is_alive());
}

#[test]
fn advance_past_the_right_wall_is_fatal_at_the_collision_check() {
    let grid = Grid::new(11, 11, false).unwrap();
    let mut snake = SnakeState::new(vec![at(10, 4), at(9, 4)], SnakeDirection::Right).unwrap();
    let result = snake.advance(&grid).unwrap();
    assert_eq!(result.new_head.x, 11);
    assert_eq!(snake.head_position(), at(11, 4));
    assert!(snake.is_alive());
    assert_eq!(snake.check_collision(&grid, &result), true);
    assert!(!snake.is_alive());
}

#[test]
fn advance_past_the_left_wall_is_fatal_at_the_collision_check() {
    let grid = Grid::new(11, 11, false).unwrap();
    let mut snake = SnakeState::new(vec![at(0, 4), at(1, 4)], SnakeDirection::Left).unwrap();
    let result = snake.advance(&grid).unwrap();
    assert_eq!(result.new_head, at(-1, 4));
    assert!(snake.check_collision(&grid, &result));
    assert!(!snake.is_alive());
}

#[test]
fn a_dead_snake_does_not_advance() {
    let grid = Grid::new(11, 11, false).unwrap();
    let mut snake = SnakeState::new(vec![at(10, 4), at(9, 4)], SnakeDirection::Right).unwrap();
    let result = snake.advance(&grid).unwrap();
    snake.check_collision(&grid, &result);
    assert!(!snake.is_alive());
    assert!(snake.is_on_grid(&grid));
    assert_eq!(snake.advance(&grid), None);
    assert_eq!(snake.segments(), &vec![at(11, 4), at(10, 4)]);
    assert!(!snake.is_alive());
}

#[test]
fn a_dead_snake_stays_dead() {
    let grid = Grid::standard();
    let mut snake = SnakeState::new(vec![at(1, 1), at(1, 0)], SnakeDirection::Up).unwrap();
    let fatal = AdvanceResult { prev_tail: at(1, 1), new_head: at(1, 1) };
    assert!(snake.check_collision(&grid, &fatal));
    assert!(!snake.is_alive());
    let harmless = AdvanceResult { prev_tail: at(9, 9), new_head: at(8, 8) };
    assert!(!snake.check_collision(&grid, &harmless));
    assert!(!snake.is_alive());
    snake.set_heading(SnakeDirection::Left);
    snake.grow(at(1, 0));
    assert!(!snake.is_alive());
}

#[test]
fn check_collision_uses_the_layout_before_the_shift() {
    let grid = Grid::standard();
    // Before the shift: head (2, 1), body (2, 0), (1, 0), (1, 1), (1, 2).
    // Heading left, the head arrives on (1, 1), a body cell before the shift.
    let segments = vec![at(2, 1), at(2, 0), at(1, 0), at(1, 1), at(1, 2)];
    let mut snake = SnakeState::new(segments, SnakeDirection::Left).unwrap();
    let result = snake.advance(&grid).unwrap();
    assert_eq!(result, AdvanceResult { prev_tail: at(1, 2), new_head: at(1, 1) });
    assert!(snake.check_collision(&grid, &result));
    assert!(!snake.is_alive());
}

#[test]
fn check_collision_counts_the_previous_tail() {
    let grid = Grid::standard();
    let segments = vec![at(0, 0), at(1, 0), at(1, 1), at(0, 1)];
    let mut snake = SnakeState::new(segments, SnakeDirection::Up).unwrap();
    let result = snake.advance(&grid).unwrap();
    assert_eq!(result, AdvanceResult { prev_tail: at(0, 1), new_head: at(0, 1) });
    assert!(snake.check_collision(&grid, &result));
    assert!(!snake.is_alive());
}

#[test]
fn check_collision_passes_a_free_cell() {
    let grid = Grid::standard();
    let segments = vec![at(0, 0), at(1, 0), at(1, 1), at(0, 1)];
    let mut snake = SnakeState::new(segments, SnakeDirection::Down).unwrap();
    let result = snake.advance(&grid).unwrap();
    assert_eq!(result.new_head, at(0, 10));
    assert!(!snake.check_collision(&grid, &result));
    assert!(snake.is_alive());
}

#[test]
fn grow_appends_one_segment_and_moves_none() {
    let mut snake = SnakeState::new(vec![at(5, 5), at(4, 5), at(3, 5)], SnakeDirection::Right)
        .unwrap();
    snake.grow(at(2, 5));
    assert_eq!(snake.len(), 4);
    assert_eq!(snake.segments(), &vec![at(5, 5), at(4, 5), at(3, 5), at(2, 5)]);
    assert_eq!(snake.tail_position(), at(2, 5));
    assert_eq!(snake.heading(), SnakeDirection::Right);
    assert!(snake.is_alive());
}

#[test]
fn grow_after_advance_fills_the_cell_the_tail_left() {
    let grid = Grid::standard();
    let mut snake = spawn_snake();
    let result = snake.advance(&grid).unwrap();
    snake.grow(result.prev_tail);
    assert_eq!(snake.segments(), &vec![at(3, 4), at(3, 3), at(3, 2)]);
}

#[test]
fn grow_snake_grows_only_on_an_eat_event() {
    let last_tail = LastTailPosition(Some(at(3, 2)));
    let mut snake = SnakeState::new(vec![at(3, 4), at(3, 3)], SnakeDirection::Up).unwrap();
    grow_snake(&mut snake, &last_tail, None);
    assert_eq!(snake.segments(), &vec![at(3, 4), at(3, 3)]);
    grow_snake(&mut snake, &last_tail, Some(EatEvent));
    assert_eq!(snake.segments(), &vec![at(3, 4), at(3, 3), at(3, 2)]);
}

#[test]
fn grow_snake_without_event_needs_no_tail_position() {
    let mut snake = spawn_snake();
    grow_snake(&mut snake, &LastTailPosition(None), None);
    assert_eq!(snake.len(), 2);
}

#[test]
fn plain_records_hold_what_they_are_given() {
    assert_eq!(SnakeHead { direction: SnakeDirection::Up }.direction, SnakeDirection::Up);
    assert_eq!(SnakeSegmentsVec(vec![at(1, 2)]).0, vec![at(1, 2)]);
    assert!(SnakeSegmentsVec::default().0.is_empty());
    assert_eq!(LastTailPosition::default().0, None);
}
