use cyber_path::flappy::{FlappyGame, FlappyMoveResult, Pipe};
use cyber_path::models::Position;

#[test]
fn player_starts_in_middle() {
    let game = FlappyGame::new(10, 10);
    assert_eq!(game.player_y, 5);
}

#[test]
fn jump_moves_player_up() {
    let mut game = FlappyGame::new(10, 10);
    let y_before = game.player_y;
    game.jump();
    assert!(game.player_y < y_before);
}

#[test]
fn gravity_pulls_player_down() {
    let mut game = FlappyGame::new(10, 10);
    game.player_y = 5;
    game.tick();
    game.tick();
    game.tick();
    assert_eq!(game.player_y, 6);
}

#[test]
fn collision_at_ceiling() {
    let mut game = FlappyGame::new(10, 10);
    game.player_y = 10;
    let result = game.tick();
    assert!(matches!(result, FlappyMoveResult::Collision));
}

#[test]
fn pipes_spawn_over_time() {
    let mut game = FlappyGame::new(10, 10);
    for _ in 0..15 {
        game.tick();
    }
    assert!(!game.pipes.is_empty());
}

#[test]
fn pipes_move_left() {
    let mut game = FlappyGame::new(10, 10);
    game.pipes.push(Pipe {
        x: 5,
        gap_y: 5,
        gap_size: 3,
        scored: false,
    });
    game.tick();
    assert_eq!(game.pipes[0].x, 4);
}

#[test]
fn score_increases_when_passing_pipe() {
    let mut game = FlappyGame::new(10, 10);
    game.player_x = 7;
    game.pipes.push(Pipe {
        x: 7,
        gap_y: game.player_y,
        gap_size: 3,
        scored: false,
    });
    game.tick();
    assert_eq!(game.score, 1);
}

#[test]
fn jump_stops_at_top() {
    let mut game = FlappyGame::new(10, 10);
    game.player_y = 1;
    game.jump();
    assert_eq!(game.player_y, 0);
    game.jump();
    assert_eq!(game.player_y, 0);
}

#[test]
fn gravity_stops_at_last_row() {
    let mut game = FlappyGame::new(10, 10);
    game.player_y = 9;
    game.ticks = 2;
    game.tick();
    assert_eq!(game.player_y, 9);
    assert_eq!(game.ticks, 3);
}

#[test]
fn spawned_pipe_gap_leaves_room() {
    for _ in 0..30 {
        let mut game = FlappyGame::new(10, 10);
        game.ticks = 14;
        game.tick();
        assert_eq!(game.pipes.len(), 1);
        let pipe = &game.pipes[0];
        assert_eq!(pipe.x, 8);
        assert_eq!(pipe.gap_size, 3);
        assert!(pipe.gap_y >= 3 && pipe.gap_y < 7);
        assert!(!pipe.scored);
    }
}

#[test]
fn narrow_grid_gap_falls_back_to_middle() {
    let mut game = FlappyGame::new(10, 5);
    game.ticks = 14;
    game.tick();
    assert_eq!(game.pipes[0].gap_y, 2);
}

#[test]
fn pipe_reaching_left_edge_disappears() {
    let mut game = FlappyGame::new(10, 10);
    game.player_x = 0;
    game.pipes.push(Pipe { x: 1, gap_y: 5, gap_size: 3, scored: false });
    game.pipes.push(Pipe { x: 6, gap_y: 5, gap_size: 3, scored: false });
    game.tick();
    assert_eq!(game.pipes.len(), 1);
    assert_eq!(game.pipes[0].x, 5);
}

#[test]
fn hitting_a_pipe_is_a_collision() {
    let mut game = FlappyGame::new(10, 10);
    game.player_x = 4;
    game.player_y = 0;
    game.pipes.push(Pipe { x: 5, gap_y: 5, gap_size: 3, scored: false });
    assert!(matches!(game.tick(), FlappyMoveResult::Collision));
    assert_eq!(game.score, 0);
}

#[test]
fn moved_reports_old_state() {
    let mut game = FlappyGame::new(10, 10);
    game.pipes.push(Pipe { x: 8, gap_y: 5, gap_size: 3, scored: false });
    match game.tick() {
        FlappyMoveResult::Moved { old_player, old_pipe_positions } => {
            assert_eq!(old_player, Position::new(2, 5));
            assert_eq!(old_pipe_positions, vec![8]);
        }
        _ => panic!("expected a plain move"),
    }
}

#[test]
fn scored_pipe_counts_once() {
    let mut game = FlappyGame::new(10, 10);
    game.player_x = 7;
    game.pipes.push(Pipe { x: 7, gap_y: game.player_y, gap_size: 3, scored: false });
    assert!(matches!(game.tick(), FlappyMoveResult::ScoredPoint { .. }));
    assert!(game.pipes[0].scored);
    game.player_x = 0;
    assert!(matches!(game.tick(), FlappyMoveResult::Moved { .. }));
    assert_eq!(game.score, 1);
}

#[test]
fn tick_speed_and_gap_size() {
    let mut game = FlappyGame::new(10, 10);
    assert_eq!(game.tick_ms(), 150);
    assert_eq!(game.gap_size(), 3);
    game.score = 10;
    assert_eq!(game.tick_ms(), 100);
    assert_eq!(game.gap_size(), 2);
    game.score = 20;
    assert_eq!(game.tick_ms(), 80);
    assert_eq!(game.gap_size(), 2);
}

#[test]
fn flappy_restart_resets() {
    let mut game = FlappyGame::new(12, 8);
    game.score = 4;
    game.ticks = 40;
    game.pipes.push(Pipe { x: 3, gap_y: 4, gap_size: 3, scored: true });
    game.restart();
    assert_eq!(game.score, 0);
    assert_eq!(game.ticks, 0);
    assert!(game.pipes.is_empty());
    assert_eq!(game.player_pos(), Position::new(3, 4));
}

#[test]
fn pushed_pipe_enters_at_right_edge() {
    let mut game = FlappyGame::new(10, 10);
    game.score = 30;
    game.push_pipe(4);
    assert_eq!(game.pipes.len(), 1);
    assert_eq!(game.pipes[0].x, 9);
    assert_eq!(game.pipes[0].gap_y, 4);
    assert_eq!(game.pipes[0].gap_size, 2);
    assert!(!game.pipes[0].scored);
}

#[test]
fn far_pipe_with_a_high_gap_does_not_matter() {
    let mut game = FlappyGame::new(10, 10);
    game.pipes.push(Pipe { x: 8, gap_y: u16::MAX, gap_size: 3, scored: false });
    assert!(matches!(game.tick(), FlappyMoveResult::Moved { .. }));
    assert_eq!(game.pipes[0].x, 7);
}

#[test]
fn collision_at_full_score_keeps_the_score() {
    let mut game = FlappyGame::new(10, 10);
    game.score = u32::MAX;
    game.player_x = 4;
    game.player_y = 0;
    game.pipes.push(Pipe { x: 5, gap_y: 5, gap_size: 3, scored: false });
    assert!(matches!(game.tick(), FlappyMoveResult::Collision));
    assert_eq!(game.score, u32::MAX);
}
