use snake_game::{random_range, Direction, SnakeGame, DEFAULT_SEED};

#[test]
fn test() {
    println!("{:?}", SnakeGame::new(10, 10));
}

#[test]
fn new_places_snake_and_food() {
    let g = SnakeGame::new(10, 10);
    assert_eq!(g.width(), 10);
    assert_eq!(g.height(), 10);
    assert_eq!(g.snake(), vec![(5, 5)]);
    assert_eq!(g.food(), (2, 2));
    assert_eq!(g.direction(), Direction::Up);
    assert!(!g.is_game_over());
    assert_eq!(g.points(), 0);
}

#[test]
fn new_on_narrow_board_clamps_food() {
    let g = SnakeGame::new(1, 2);
    assert_eq!(g.snake(), vec![(0, 1)]);
    assert_eq!(g.food(), (0, 1));
}

#[test]
fn in_bounds_excludes_column_and_row_zero() {
    let g = SnakeGame::new(4, 3);
    for y in 0..3 {
        assert!(!g.in_bounds((0, y)));
    }
    for x in 0..4 {
        assert!(!g.in_bounds((x, 0)));
    }
    assert!(g.in_bounds((3, 2)));
    assert!(g.in_bounds((1, 1)));
    assert!(!g.in_bounds((4, 2)));
    assert!(!g.in_bounds((3, 3)));
}

#[test]
fn repeat_and_reversal_are_ignored() {
    let mut g = SnakeGame::new(10, 10);
    g.change_direction(Direction::Up);
    assert_eq!(g.direction(), Direction::Up);
    g.change_direction(Direction::Down);
    assert_eq!(g.direction(), Direction::Up);
    g.change_direction(Direction::Right);
    assert_eq!(g.direction(), Direction::Right);
    g.change_direction(Direction::Left);
    assert_eq!(g.direction(), Direction::Right);
    g.change_direction(Direction::Down);
    assert_eq!(g.direction(), Direction::Down);
    g.change_direction(Direction::Up);
    assert_eq!(g.direction(), Direction::Down);
    g.change_direction(Direction::Down);
    assert_eq!(g.direction(), Direction::Down);
}

#[test]
fn heading_left_refuses_right_and_accepts_down() {
    let mut g = SnakeGame::new(10, 10);
    g.change_direction(Direction::Left);
    assert_eq!(g.direction(), Direction::Left);
    g.change_direction(Direction::Right);
    assert_eq!(g.direction(), Direction::Left);
    g.change_direction(Direction::Left);
    assert_eq!(g.direction(), Direction::Left);
    g.change_direction(Direction::Down);
    assert_eq!(g.direction(), Direction::Down);
    g.change_direction(Direction::Left);
    assert_eq!(g.direction(), Direction::Left);
    g.change_direction(Direction::Up);
    assert_eq!(g.direction(), Direction::Up);
}

#[test]
fn first_tick_on_ten_by_ten_moves_up() {
    let mut g = SnakeGame::new(10, 10);
    g.tick();
    assert_eq!(g.snake(), vec![(5, 4)]);
    assert!(!g.is_game_over());
    assert_eq!(g.food(), (2, 2));
}

#[test]
fn food_on_initial_head_is_left_behind() {
    let mut g = SnakeGame::new(5, 5);
    assert_eq!(g.snake(), vec![(2, 2)]);
    assert_eq!(g.food(), (2, 2));
    g.tick();
    assert_eq!(g.snake(), vec![(2, 1)]);
    assert_eq!(g.food(), (2, 2));
    assert!(!g.is_game_over());
}

#[test]
fn eating_grows_and_moves_food() {
    let mut g = SnakeGame::new(5, 5);
    g.tick();
    g.change_direction(Direction::Right);
    g.tick();
    g.change_direction(Direction::Down);
    g.tick();
    assert_eq!(g.snake(), vec![(3, 2)]);
    g.change_direction(Direction::Left);
    g.tick();
    assert_eq!(g.snake(), vec![(2, 2), (3, 2)]);
    assert_eq!(g.food(), (4, 4));
    assert!(!g.is_game_over());
    assert_eq!(g.points(), 0);
    g.tick();
    assert_eq!(g.snake(), vec![(1, 2), (2, 2)]);
    assert_eq!(g.food(), (4, 4));
}

#[test]
fn new_food_is_never_drawn_on_the_new_head() {
    let mut g = SnakeGame::new(3, 3);
    g.change_direction(Direction::Right);
    g.tick();
    assert_eq!(g.snake(), vec![(2, 1)]);
    g.change_direction(Direction::Down);
    g.tick();
    assert_eq!(g.snake(), vec![(2, 2), (2, 1)]);
    assert_eq!(g.food(), (0, 0));
    assert!(!g.snake().contains(&g.food()));
    assert!(!g.is_game_over());
}

#[test]
fn new_food_avoids_the_grown_snake_on_a_tiny_board() {
    let mut g = SnakeGame::with_seed(2, 3, 1 << 40);
    g.change_direction(Direction::Right);
    g.change_direction(Direction::Down);
    g.tick();
    assert!(!g.is_game_over());
    assert_eq!(g.snake(), vec![(1, 2), (1, 1)]);
    assert_eq!(g.food(), (1, 0));
    assert!(!g.snake().contains(&g.food()));
}

#[test]
fn seeded_games_repeat() {
    let mut a = SnakeGame::with_seed(5, 5, DEFAULT_SEED);
    let mut b = SnakeGame::new(5, 5);
    for d in [Direction::Up, Direction::Right, Direction::Down, Direction::Left] {
        a.change_direction(d);
        b.change_direction(d);
        a.tick();
        b.tick();
    }
    assert_eq!(a.snake(), b.snake());
    assert_eq!(a.food(), b.food());
}

#[test]
fn leaving_the_board_ends_the_game() {
    let mut g = SnakeGame::new(10, 10);
    for _ in 0..4 {
        g.tick();
        assert!(!g.is_game_over());
    }
    assert_eq!(g.snake(), vec![(5, 1)]);
    g.tick();
    assert!(g.is_game_over());
    assert_eq!(g.snake(), vec![(5, 1)]);
}

#[test]
fn game_over_is_final() {
    let mut g = SnakeGame::new(10, 10);
    for _ in 0..5 {
        g.tick();
    }
    assert!(g.is_game_over());
    let snake = g.snake();
    let food = g.food();
    g.change_direction(Direction::Right);
    g.tick();
    g.tick();
    assert!(g.is_game_over());
    assert_eq!(g.snake(), snake);
    assert_eq!(g.food(), food);
    assert_eq!(g.points(), 0);
}

#[test]
fn one_cell_board_ends_at_once() {
    let mut g = SnakeGame::new(1, 1);
    assert_eq!(g.snake(), vec![(0, 0)]);
    g.tick();
    assert!(g.is_game_over());
    assert_eq!(g.snake(), vec![(0, 0)]);
}

#[test]
fn moving_left_from_column_zero_ends_the_game() {
    let mut g = SnakeGame::new(1, 5);
    g.change_direction(Direction::Left);
    g.tick();
    assert!(g.is_game_over());
    assert_eq!(g.snake(), vec![(0, 2)]);
}

#[test]
fn reversing_into_the_neck_is_refused() {
    let mut g = SnakeGame::new(5, 5);
    g.tick();
    g.change_direction(Direction::Right);
    g.tick();
    g.change_direction(Direction::Down);
    g.tick();
    g.change_direction(Direction::Left);
    g.tick();
    assert_eq!(g.snake(), vec![(2, 2), (3, 2)]);
    g.change_direction(Direction::Right);
    assert_eq!(g.direction(), Direction::Left);
    g.tick();
    assert!(!g.is_game_over());
    assert_eq!(g.snake(), vec![(1, 2), (2, 2)]);
}

#[test]
fn running_into_the_tail_ends_the_game() {
    let mut g = SnakeGame::new(8, 8);
    let route = [
        Direction::Left,
        Direction::Left,
        Direction::Up,
        Direction::Up,
        Direction::Right,
        Direction::Down,
        Direction::Right,
        Direction::Right,
        Direction::Right,
        Direction::Right,
        Direction::Down,
        Direction::Left,
    ];
    for d in route {
        g.change_direction(d);
        g.tick();
        assert!(!g.is_game_over());
    }
    assert_eq!(g.snake(), vec![(6, 4), (7, 4), (7, 3), (6, 3)]);
    assert_eq!(g.food(), (0, 0));
    g.change_direction(Direction::Up);
    g.tick();
    assert!(g.is_game_over());
    assert_eq!(g.snake(), vec![(6, 4), (7, 4), (7, 3), (6, 3)]);
    assert_eq!(g.food(), (0, 0));
}

#[test]
fn random_range_values() {
    let mut s = DEFAULT_SEED;
    assert_eq!(random_range(&mut s, 0, 24), 15);
    assert_eq!(s, 15860402102123842989);
    let mut s = DEFAULT_SEED;
    assert_eq!(random_range(&mut s, 10, 20), 15);
    let mut s = 1u64;
    assert_eq!(random_range(&mut s, 0, 1000), 0);
    assert_eq!(s, 1082269761);
    let mut s = 0u64;
    assert_eq!(random_range(&mut s, 0, 5), 0);
    assert_eq!(s, 0);
}
