use cyber_path::chase::{
    ChaseGame, ChaseMoveResult, bot_spawn_for, bot_step_for, open_dirs, player_spawn_for,
};
use cyber_path::models::{Direction, Position};

#[test]
fn bot_moves_toward_player() {
    let mut game = ChaseGame {
        round: 1,
        cols: 10,
        rows: 10,
        player_pos: Position::new(5, 5),
        bot_pos: Position::new(0, 0),
        moves_survived: 0,
    };
    let old_dist = game.bot_pos.manhattan_distance(game.player_pos);
    game.move_bot();
    let new_dist = game.bot_pos.manhattan_distance(game.player_pos);
    assert!(new_dist < old_dist);
}

#[test]
fn bot_step_size_increases() {
    let game1 = ChaseGame::new(10, 10);
    let mut game3 = ChaseGame::new(10, 10);
    game3.round = 3;
    let mut game5 = ChaseGame::new(10, 10);
    game5.round = 5;
    assert!(game1.bot_step_size() < game3.bot_step_size());
    assert!(game3.bot_step_size() < game5.bot_step_size());
}

#[test]
fn caught_when_bot_reaches_player() {
    let mut game = ChaseGame {
        round: 1,
        cols: 10,
        rows: 10,
        player_pos: Position::new(1, 0),
        bot_pos: Position::new(0, 0),
        moves_survived: 0,
    };
    // Move player left into bot
    let result = game.move_player(Direction::Left);
    assert!(matches!(result, ChaseMoveResult::Caught { .. }));
}

#[test]
fn invalid_move_at_boundary() {
    let mut game = ChaseGame {
        round: 1,
        cols: 10,
        rows: 10,
        player_pos: Position::new(0, 0),
        bot_pos: Position::new(9, 9),
        moves_survived: 0,
    };
    let result = game.move_player(Direction::Left);
    assert!(matches!(result, ChaseMoveResult::InvalidMove));
}

#[test]
fn survived_after_enough_moves() {
    let mut game = ChaseGame {
        round: 1,
        cols: 20,
        rows: 20,
        player_pos: Position::new(0, 0),
        bot_pos: Position::new(19, 19),
        moves_survived: 0,
    };
    game.moves_survived = game.moves_to_survive() - 1;
    // Move right (away from bot at 19,19 is not optimal, but valid)
    let result = game.move_player(Direction::Right);
    assert!(
        matches!(result, ChaseMoveResult::Survived { .. })
            || matches!(result, ChaseMoveResult::Caught { .. })
    );
}

#[test]
fn survival_target_and_bot_speed_formulas() {
    let mut game = ChaseGame::new(10, 10);
    assert_eq!(game.moves_to_survive(), 15);
    assert_eq!(game.bot_step_size(), 1);
    game.round = 4;
    assert_eq!(game.moves_to_survive(), 30);
    assert_eq!(game.bot_step_size(), 2);
}

#[test]
fn bot_prefers_first_direction_on_ties() {
    // Up and Left both bring a pursuing bot one cell closer; Up comes first.
    let next = bot_step_for(Position::new(5, 5), Position::new(2, 2), 10, 10, None);
    assert_eq!(next, Position::new(5, 4));
}

#[test]
fn bot_takes_two_steps_in_round_three() {
    let start = Position::new(0, 0);
    for _ in 0..50 {
        let mut game = ChaseGame {
            round: 3,
            cols: 10,
            rows: 10,
            player_pos: Position::new(5, 0),
            bot_pos: start,
            moves_survived: 0,
        };
        game.move_bot();
        let moved = game.bot_pos.manhattan_distance(start);
        assert!(moved == 2 || moved == 0);
        assert!(game.bot_pos.x < 10 && game.bot_pos.y < 10);
    }
}

#[test]
fn bot_stops_on_the_player() {
    let mut game = ChaseGame {
        round: 7,
        cols: 10,
        rows: 10,
        player_pos: Position::new(1, 0),
        bot_pos: Position::new(1, 0),
        moves_survived: 0,
    };
    game.move_bot();
    assert_eq!(game.bot_pos, Position::new(1, 0));
}

#[test]
fn moved_reports_old_positions_and_counts() {
    let mut game = ChaseGame {
        round: 1,
        cols: 10,
        rows: 10,
        player_pos: Position::new(0, 0),
        bot_pos: Position::new(9, 9),
        moves_survived: 0,
    };
    let result = game.move_player(Direction::Right);
    assert_eq!(
        result,
        ChaseMoveResult::Moved { old_player: Position::new(0, 0), old_bot: Position::new(9, 9) }
    );
    assert_eq!(game.player_pos, Position::new(1, 0));
    assert!(game.bot_pos == Position::new(9, 8) || game.bot_pos == Position::new(8, 9));
    assert_eq!(game.moves_survived, 1);
}

#[test]
fn caught_after_bot_step() {
    for _ in 0..50 {
        let mut game = ChaseGame {
            round: 1,
            cols: 10,
            rows: 10,
            player_pos: Position::new(0, 0),
            bot_pos: Position::new(2, 0),
            moves_survived: 3,
        };
        let result = game.move_player(Direction::Right);
        assert_eq!(game.player_pos, Position::new(1, 0));
        if game.bot_pos == game.player_pos {
            assert_eq!(
                result,
                ChaseMoveResult::Caught { old_player: Position::new(0, 0), old_bot: Position::new(2, 0) }
            );
            assert_eq!(game.moves_survived, 3);
        } else {
            assert!(game.bot_pos == Position::new(2, 1) || game.bot_pos == Position::new(3, 0));
            assert!(matches!(result, ChaseMoveResult::Moved { .. }));
            assert_eq!(game.moves_survived, 4);
        }
    }
}

#[test]
fn pursuing_and_wandering_steps() {
    let bot = Position::new(2, 0);
    let player = Position::new(1, 0);
    assert_eq!(open_dirs(bot, 10, 10), vec![Direction::Down, Direction::Left, Direction::Right]);
    assert_eq!(bot_step_for(bot, player, 10, 10, None), Position::new(1, 0));
    assert_eq!(bot_step_for(bot, player, 10, 10, Some(0)), Position::new(2, 1));
    assert_eq!(bot_step_for(bot, player, 10, 10, Some(2)), Position::new(3, 0));
    assert_eq!(bot_step_for(bot, player, 10, 10, Some(4)), Position::new(1, 0));
    let corner = Position::new(0, 0);
    assert_eq!(open_dirs(corner, 1, 1), vec![]);
    assert_eq!(bot_step_for(corner, Position::new(0, 0), 1, 1, Some(3)), corner);
}

#[test]
fn bot_wanders_sometimes() {
    // Pursuing from (5, 5) towards (5, 0) always steps up; only a wandering step goes
    // elsewhere, and over many moves some step does.
    let mut wandered = false;
    for _ in 0..400 {
        let mut game = ChaseGame {
            round: 1,
            cols: 10,
            rows: 10,
            player_pos: Position::new(5, 0),
            bot_pos: Position::new(5, 5),
            moves_survived: 0,
        };
        game.move_bot();
        assert_eq!(game.bot_pos.manhattan_distance(Position::new(5, 5)), 1);
        if game.bot_pos != Position::new(5, 4) {
            wandered = true;
        }
    }
    assert!(wandered);
}

#[test]
fn invalid_move_changes_nothing() {
    let mut game = ChaseGame {
        round: 2,
        cols: 10,
        rows: 10,
        player_pos: Position::new(9, 4),
        bot_pos: Position::new(0, 0),
        moves_survived: 5,
    };
    assert_eq!(game.move_player(Direction::Right), ChaseMoveResult::InvalidMove);
    assert_eq!(game.player_pos, Position::new(9, 4));
    assert_eq!(game.bot_pos, Position::new(0, 0));
    assert_eq!(game.moves_survived, 5);
}

#[test]
fn bot_spawns_in_opposite_corner() {
    assert_eq!(bot_spawn_for(10, 8, Position::new(1, 1)), Position::new(9, 7));
    assert_eq!(bot_spawn_for(10, 8, Position::new(7, 6)), Position::new(0, 0));
    assert_eq!(bot_spawn_for(10, 8, Position::new(2, 5)), Position::new(9, 0));
}

#[test]
fn new_game_spawns_on_grid() {
    for _ in 0..50 {
        let game = ChaseGame::new(7, 5);
        assert!(game.player_pos.x == 0 || game.player_pos.x == 6);
        assert!(game.player_pos.y == 0 || game.player_pos.y == 4);
        assert_eq!(game.bot_pos, Position::new(6 - game.player_pos.x, 4 - game.player_pos.y));
        assert_eq!(game.round, 1);
        assert_eq!(game.moves_survived, 0);
    }
}

#[test]
fn advance_round_and_restart() {
    let mut game = ChaseGame::new(10, 10);
    game.moves_survived = 7;
    game.advance_round();
    assert_eq!(game.round, 2);
    assert_eq!(game.moves_survived, 0);
    assert_eq!(game.bot_pos, Position::new(9 - game.player_pos.x, 9 - game.player_pos.y));
    game.restart();
    assert_eq!(game.round, 1);
    assert_eq!(game.moves_survived, 0);
}

#[test]
fn player_spawns_on_the_corner_of_its_draw() {
    assert_eq!(player_spawn_for(10, 8, 2, 3), Position::new(0, 0));
    assert_eq!(player_spawn_for(10, 8, 5, 3), Position::new(9, 0));
    assert_eq!(player_spawn_for(10, 8, 4, 7), Position::new(0, 7));
    assert_eq!(player_spawn_for(1, 0, 0, 0), Position::new(0, 0));
}
