use rand::rngs::StdRng;
use rand::SeedableRng;

use snake::config::GridSize;
use snake::food::{free_cells, spawn_position, Food};
use snake::input::Direction;
use snake::snake::{Position, Snake};

#[test]
fn food_spawn_never_overlaps_snake() {
    let mut rng = StdRng::seed_from_u64(7);
    let snake = Snake::from_segments(
        vec![
            Position { x: 0, y: 0 },
            Position { x: 1, y: 0 },
            Position { x: 2, y: 0 },
        ],
        Direction::Right,
    );

    for _ in 0..100 {
        let food_position = spawn_position(
            &mut rng,
            GridSize {
                width: 8,
                height: 6,
            },
            &snake,
        );
        assert!(!snake.occupies(food_position));
    }
}

#[test]
fn food_grants_one_point() {
    let food = Food::new(Position { x: 1, y: 1 });
    assert_eq!(food.points(), 1);
}

#[test]
fn food_keeps_its_position() {
    let food = Food::new(Position { x: 3, y: 7 });
    assert_eq!(food.position, Position { x: 3, y: 7 });
}

#[test]
fn free_cells_are_listed_row_by_row() {
    let snake = Snake::from_segments(
        vec![Position { x: 1, y: 0 }, Position { x: 0, y: 1 }, Position { x: 9, y: 9 }],
        Direction::Up,
    );
    let cells = free_cells(GridSize { width: 3, height: 2 }, &snake);
    assert_eq!(
        cells,
        vec![
            Position { x: 0, y: 0 },
            Position { x: 2, y: 0 },
            Position { x: 1, y: 1 },
            Position { x: 2, y: 1 },
        ]
    );
}

#[test]
fn spawn_takes_the_only_free_cell() {
    let mut rng = StdRng::seed_from_u64(1);
    let snake = Snake::from_segments(
        vec![Position { x: 0, y: 0 }, Position { x: 1, y: 0 }, Position { x: 0, y: 1 }],
        Direction::Left,
    );
    let bounds = GridSize { width: 2, height: 2 };
    for _ in 0..20 {
        assert_eq!(spawn_position(&mut rng, bounds, &snake), Position { x: 1, y: 1 });
        assert_eq!(Food::spawn(&mut rng, bounds, &snake).position, Position { x: 1, y: 1 });
    }
}

#[test]
fn spawn_reaches_more_than_one_cell() {
    let mut rng = StdRng::seed_from_u64(7);
    let snake = Snake::from_segments(vec![Position { x: 0, y: 0 }], Direction::Right);
    let bounds = GridSize { width: 4, height: 4 };
    let first = spawn_position(&mut rng, bounds, &snake);
    let mut differs = false;
    for _ in 0..200 {
        let next = spawn_position(&mut rng, bounds, &snake);
        assert!(next.is_within_bounds(bounds));
        assert!(!snake.occupies(next));
        if next != first {
            differs = true;
        }
    }
    assert!(differs);
}

#[test]
fn snake_occupies_its_segments_only() {
    let snake = Snake::from_segments(
        vec![Position { x: 2, y: 3 }, Position { x: 2, y: 4 }],
        Direction::Up,
    );
    assert!(snake.occupies(Position { x: 2, y: 3 }));
    assert!(snake.occupies(Position { x: 2, y: 4 }));
    assert!(!snake.occupies(Position { x: 3, y: 2 }));
    assert_eq!(snake.segments().len(), 2);
    assert_eq!(snake.direction(), Direction::Up);
}

#[test]
fn position_bounds_are_half_open() {
    let bounds = GridSize { width: 4, height: 3 };
    assert!(Position { x: 0, y: 0 }.is_within_bounds(bounds));
    assert!(Position { x: 3, y: 2 }.is_within_bounds(bounds));
    assert!(!Position { x: 4, y: 2 }.is_within_bounds(bounds));
    assert!(!Position { x: 3, y: 3 }.is_within_bounds(bounds));
    assert!(!Position { x: -1, y: 0 }.is_within_bounds(bounds));
    assert!(!Position { x: 0, y: -1 }.is_within_bounds(bounds));
    assert_eq!(bounds.total_cells(), 12);
    assert_eq!(GridSize { width: 65535, height: 65535 }.total_cells(), 4294836225);
    assert_eq!(GridSize { width: 0, height: 9 }.total_cells(), 0);
}
