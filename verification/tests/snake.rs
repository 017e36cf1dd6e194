use cyber_path::models::{Direction, Position};
use cyber_path::snake::{SnakeGame, SnakeMoveResult, body_contains, free_cells};
use std::collections::VecDeque;

#[test]
fn snake_starts_with_three_segments() {
    let game = SnakeGame::new(10, 10);
    assert_eq!(game.body.len(), 3);
}

#[test]
fn snake_moves_in_direction() {
    let mut game = SnakeGame::new(10, 10);
    let head_before = game.head();
    game.direction = Direction::Right;
    if let SnakeMoveResult::Moved { .. } | SnakeMoveResult::AteFood { .. } = game.tick() {
        assert_eq!(game.head().x, head_before.x + 1);
        assert_eq!(game.head().y, head_before.y);
    }
}

#[test]
fn cannot_reverse_direction() {
    let mut game = SnakeGame::new(10, 10);
    game.direction = Direction::Right;
    game.try_change_direction(Direction::Left);
    assert_eq!(game.direction, Direction::Right);
}

#[test]
fn can_change_to_perpendicular() {
    let mut game = SnakeGame::new(10, 10);
    game.direction = Direction::Right;
    game.try_change_direction(Direction::Up);
    assert_eq!(game.direction, Direction::Up);
}

#[test]
fn eating_food_grows_snake() {
    let mut game = SnakeGame::new(10, 10);
    let initial_len = game.body.len();
    game.food = Position::new(game.head().x + 1, game.head().y);
    game.direction = Direction::Right;
    assert!(matches!(game.tick(), SnakeMoveResult::AteFood { .. }));
    assert_eq!(game.body.len(), initial_len + 1);
}

#[test]
fn collision_with_wall() {
    let mut game = SnakeGame::new(10, 10);
    game.body.clear();
    game.body.push_back(Position::new(9, 5));
    game.direction = Direction::Right;
    assert!(matches!(game.tick(), SnakeMoveResult::Collision));
}

#[test]
fn collision_with_self() {
    let mut game = SnakeGame::new(10, 10);
    game.body.clear();
    game.body.push_back(Position::new(5, 5));
    game.body.push_back(Position::new(6, 5));
    game.body.push_back(Position::new(6, 4));
    game.body.push_back(Position::new(5, 4));
    game.body.push_back(Position::new(4, 4));
    game.body.push_back(Position::new(4, 5));
    game.body.push_back(Position::new(4, 6));
    game.body.push_back(Position::new(5, 6));
    game.direction = Direction::Down;
    assert!(matches!(game.tick(), SnakeMoveResult::Collision));
}

#[test]
fn level_increases_every_five_points() {
    let mut game = SnakeGame::new(10, 10);
    assert_eq!(game.level(), 1);
    game.score = 5;
    assert_eq!(game.level(), 2);
    game.score = 10;
    assert_eq!(game.level(), 3);
}

#[test]
fn tick_speed_decreases_with_score() {
    let mut game = SnakeGame::new(10, 10);
    let slow = game.tick_ms();
    game.score = 10;
    let fast = game.tick_ms();
    assert!(fast < slow);
}

#[test]
fn start_body_and_food() {
    let game = SnakeGame::new(10, 8);
    let body: Vec<Position> = game.body.iter().copied().collect();
    assert_eq!(body, vec![Position::new(5, 4), Position::new(4, 4), Position::new(3, 4)]);
    assert_eq!(game.direction, Direction::Right);
    assert_eq!(game.score, 0);
    assert!(game.food.x < 10 && game.food.y < 8);
    assert!(!body.contains(&game.food));
}

#[test]
fn plain_move_drops_the_tail() {
    let mut game = SnakeGame::new(10, 10);
    game.food = Position::new(0, 0);
    let result = game.tick();
    assert_eq!(result, SnakeMoveResult::Moved { tail_removed: Position::new(3, 5) });
    let body: Vec<Position> = game.body.iter().copied().collect();
    assert_eq!(body, vec![Position::new(6, 5), Position::new(5, 5), Position::new(4, 5)]);
    assert_eq!(game.score, 0);
}

#[test]
fn eating_scores_and_draws_new_food_off_the_snake() {
    let mut game = SnakeGame::new(10, 10);
    game.food = Position::new(6, 5);
    match game.tick() {
        SnakeMoveResult::AteFood { new_food } => {
            assert!(new_food.x < 10 && new_food.y < 10);
            assert!(!game.body.contains(&new_food));
            assert_eq!(game.food, new_food);
        }
        other => panic!("expected food, got {:?}", other),
    }
    assert_eq!(game.score, 1);
}

#[test]
fn collision_at_top_edge() {
    let mut game = SnakeGame::new(10, 10);
    game.body.clear();
    game.body.push_back(Position::new(3, 0));
    game.direction = Direction::Up;
    assert_eq!(game.tick(), SnakeMoveResult::Collision);
    assert_eq!(game.body.len(), 1);
}

#[test]
fn tick_speed_floor() {
    let mut game = SnakeGame::new(10, 10);
    assert_eq!(game.tick_ms(), 300);
    game.score = 10;
    assert_eq!(game.tick_ms(), 200);
    game.score = 25;
    assert_eq!(game.tick_ms(), 100);
}

#[test]
fn free_cells_skip_the_body() {
    let mut body = VecDeque::new();
    body.push_back(Position::new(0, 0));
    body.push_back(Position::new(1, 1));
    let free = free_cells(2, 2, &body);
    assert_eq!(free, vec![Position::new(0, 1), Position::new(1, 0)]);
    assert!(body_contains(&body, Position::new(1, 1)));
    assert!(!body_contains(&body, Position::new(1, 0)));
}

#[test]
fn full_grid_food_falls_back_to_corner() {
    // On a grid of two cells the starting snake covers both.
    let game = SnakeGame::new(2, 1);
    assert_eq!(game.food, Position::new(0, 0));
    assert_eq!(game.body.len(), 3);
}

#[test]
fn snake_restart_resets() {
    let mut game = SnakeGame::new(10, 10);
    game.score = 7;
    game.direction = Direction::Up;
    game.restart();
    assert_eq!(game.score, 0);
    assert_eq!(game.direction, Direction::Right);
    assert_eq!(game.body.len(), 3);
}

#[test]
fn food_under_the_body_at_full_score_is_a_collision() {
    let mut game = SnakeGame::new(10, 10);
    game.body.clear();
    game.body.push_back(Position::new(2, 2));
    game.body.push_back(Position::new(3, 2));
    game.body.push_back(Position::new(3, 3));
    game.body.push_back(Position::new(2, 3));
    game.direction = Direction::Down;
    game.food = Position::new(2, 3);
    game.score = u32::MAX;
    assert!(matches!(game.tick(), SnakeMoveResult::Collision));
    assert_eq!(game.score, u32::MAX);
}
