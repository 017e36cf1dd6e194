use cyber_path::game::{Game, MoveResult, PathError, create_path, extend_walk, path_candidates};
use cyber_path::models::{Direction, Position};
use std::collections::HashSet;

#[test]
fn path_has_correct_length() {
    let path = create_path(10, 10, 5).unwrap();
    assert_eq!(path.len(), 6);
}

#[test]
fn path_has_no_duplicates() {
    let path = create_path(10, 10, 8).unwrap();
    let set: HashSet<_> = path.iter().copied().collect();
    assert_eq!(set.len(), path.len());
}

#[test]
fn path_steps_are_adjacent() {
    let path = create_path(10, 10, 6).unwrap();
    for pair in path.windows(2) {
        assert!(pair[0].direction_to(pair[1]).is_some());
    }
}

#[test]
fn path_stays_in_bounds() {
    let cols = 5;
    let rows = 5;
    let path = create_path(cols, rows, 4).unwrap();
    for pos in &path {
        assert!(pos.x < cols && pos.y < rows);
    }
}

#[test]
fn check_move_correct() {
    let mut game = Game::new(10, 10);
    game.path = vec![
        Position::new(1, 1),
        Position::new(2, 1),
        Position::new(3, 1),
    ];
    game.player_index = 0;
    assert!(matches!(
        game.check_move(Direction::Right),
        MoveResult::Correct(_)
    ));
}

#[test]
fn check_move_wrong() {
    let mut game = Game::new(10, 10);
    game.path = vec![
        Position::new(1, 1),
        Position::new(2, 1),
        Position::new(3, 1),
    ];
    game.player_index = 0;
    assert!(matches!(game.check_move(Direction::Up), MoveResult::Wrong));
}

#[test]
fn check_move_round_complete() {
    let mut game = Game::new(10, 10);
    game.path = vec![Position::new(1, 1), Position::new(2, 1)];
    game.player_index = 0;
    assert!(matches!(
        game.check_move(Direction::Right),
        MoveResult::RoundComplete
    ));
}

#[test]
fn walking_the_path_completes_the_round() {
    let mut game = Game::new(8, 6);
    game.generate_path().unwrap();
    assert_eq!(game.path.len(), 4);
    assert_eq!(game.player_index, 0);
    let path = game.path.clone();
    for i in 0..path.len() - 1 {
        let dir = path[i].direction_to(path[i + 1]).unwrap();
        let result = game.check_move(dir);
        if i + 2 == path.len() {
            assert_eq!(result, MoveResult::RoundComplete);
        } else {
            assert_eq!(result, MoveResult::Correct(path[i + 1]));
        }
    }
}

#[test]
fn wrong_move_keeps_position() {
    let mut game = Game::new(10, 10);
    game.path = vec![Position::new(1, 1), Position::new(1, 2), Position::new(2, 2)];
    assert_eq!(game.check_move(Direction::Left), MoveResult::Wrong);
    assert_eq!(game.player_index, 0);
    assert_eq!(game.check_move(Direction::Down), MoveResult::Correct(Position::new(1, 2)));
    assert_eq!(game.player_index, 1);
    assert_eq!(game.remaining_path().to_vec(), vec![Position::new(2, 2)]);
}

#[test]
fn timings_shrink_with_rounds() {
    let mut game = Game::new(10, 10);
    assert_eq!(game.move_count(), 3);
    assert_eq!(game.preview_step_ms(), 670);
    assert_eq!(game.preview_hold_ms(), 1900);
    game.round = 10;
    assert_eq!(game.preview_step_ms(), 400);
    assert_eq!(game.preview_hold_ms(), 1000);
    game.round = 40;
    assert_eq!(game.preview_step_ms(), 200);
    assert_eq!(game.preview_hold_ms(), 500);
    game.advance_round();
    assert_eq!(game.round, 41);
    assert_eq!(game.move_count(), 43);
}

#[test]
fn zero_moves_give_a_single_cell() {
    let path = create_path(3, 3, 0).unwrap();
    assert_eq!(path.len(), 1);
    assert!(path[0].x < 3 && path[0].y < 3);
}

#[test]
fn too_long_path_is_refused() {
    assert_eq!(create_path(2, 2, 4), Err(PathError::AttemptsExhausted));
    assert_eq!(create_path(0, 0, 1), Err(PathError::AttemptsExhausted));
}

#[test]
fn failed_generation_keeps_the_game() {
    let mut game = Game::new(1, 1);
    game.path = vec![Position::new(0, 0)];
    assert_eq!(game.generate_path(), Err(PathError::AttemptsExhausted));
    assert_eq!(game.path, vec![Position::new(0, 0)]);
}

#[test]
fn candidates_follow_direction_order() {
    let visited = vec![Position::new(2, 2), Position::new(2, 1)];
    let c = path_candidates(5, 5, &visited, Position::new(2, 2));
    assert_eq!(c, vec![Position::new(2, 3), Position::new(1, 2), Position::new(3, 2)]);
    let corner = path_candidates(5, 5, &Vec::new(), Position::new(0, 0));
    assert_eq!(corner, vec![Position::new(0, 1), Position::new(1, 0)]);
}

#[test]
fn start_and_error_message() {
    let mut game = Game::new(10, 10);
    game.path = vec![Position::new(4, 4), Position::new(4, 3)];
    assert_eq!(game.start_position(), Position::new(4, 4));
    assert!(PathError::AttemptsExhausted.message().contains("1000 attempts"));
}

#[test]
fn short_walks_never_get_stuck() {
    for _ in 0..200 {
        assert_eq!(create_path(2, 2, 3).unwrap().len(), 4);
        assert_eq!(create_path(1, 2, 1).unwrap().len(), 2);
        let mut game = Game::new(2, 2);
        assert!(game.generate_path().is_ok());
    }
}

#[test]
fn walk_takes_the_drawn_candidate() {
    let mut path = vec![Position::new(2, 2), Position::new(2, 1)];
    let options = path_candidates(5, 5, &path, Position::new(2, 1));
    assert_eq!(options, vec![Position::new(2, 0), Position::new(1, 1), Position::new(3, 1)]);
    extend_walk(&mut path, &options, 5, 5, 1);
    assert_eq!(path, vec![Position::new(2, 2), Position::new(2, 1), Position::new(1, 1)]);
}
