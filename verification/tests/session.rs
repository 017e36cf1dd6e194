use cyber_path::chase::ChaseGame;
use cyber_path::game::Game;
use cyber_path::input::{Input, PostRoundInput};
use cyber_path::models::{Direction, Position};
use cyber_path::session::{
    Effect, Paint, Phase, Sound, Status, animate_path, chase_on_input, chase_on_post_round,
    chase_round_start, clear_path, path_on_input, path_on_post_round, path_round_start,
};

fn three_step_game() -> Game {
    let mut game = Game::new(10, 10);
    game.path = vec![Position::new(1, 1), Position::new(2, 1), Position::new(2, 2)];
    game
}

#[test]
fn path_intro_effects() {
    let mut game = Game::new(6, 6);
    let effects = path_round_start(&mut game).unwrap();
    let n = game.path.len();
    assert_eq!(n, 4);
    assert_eq!(effects.len(), 3 + 3 * n + 1 + n + 2);
    assert_eq!(effects[0], Effect::NewScreen);
    assert_eq!(effects[1], Effect::RoundInfo { round: 1, moves: 3 });
    assert_eq!(effects[2], Effect::Show(Status::WatchPath, Paint::Yellow));
    assert_eq!(effects[3], Effect::Fill(game.path[0], Paint::Cyan));
    assert_eq!(effects[4], Effect::Play(Sound::BotPath));
    assert_eq!(effects[5], Effect::Pause(670));
    assert_eq!(effects[6], Effect::Fill(game.path[1], Paint::Green));
    assert_eq!(effects[3 + 3 * n], Effect::Pause(1900));
    assert_eq!(effects[4 + 3 * n], Effect::Clear(game.path[0]));
    assert_eq!(effects[effects.len() - 2], Effect::Show(Status::ReproducePath, Paint::Yellow));
    assert_eq!(effects[effects.len() - 1], Effect::Fill(game.path[0], Paint::Cyan));
}

#[test]
fn animation_and_clearing() {
    let path = [Position::new(0, 0), Position::new(1, 0)];
    assert_eq!(
        animate_path(&path, 300),
        vec![
            Effect::Fill(Position::new(0, 0), Paint::Cyan),
            Effect::Play(Sound::BotPath),
            Effect::Pause(300),
            Effect::Fill(Position::new(1, 0), Paint::Green),
            Effect::Play(Sound::BotPath),
            Effect::Pause(300),
        ]
    );
    assert_eq!(
        clear_path(&path),
        vec![Effect::Clear(Position::new(0, 0)), Effect::Clear(Position::new(1, 0))]
    );
}

#[test]
fn path_correct_then_complete() {
    let mut game = three_step_game();
    let (phase, effects) = path_on_input(&mut game, Input::Move(Direction::Right));
    assert_eq!(phase, Phase::Playing);
    assert_eq!(effects, vec![Effect::Fill(Position::new(2, 1), Paint::Green), Effect::PlayMovement]);
    let (phase, effects) = path_on_input(&mut game, Input::Move(Direction::Down));
    assert_eq!(phase, Phase::Won);
    assert_eq!(
        effects,
        vec![
            Effect::Fill(Position::new(2, 2), Paint::Green),
            Effect::Play(Sound::Winning),
            Effect::Show(Status::PathCorrect, Paint::Green),
        ]
    );
}

#[test]
fn path_wrong_move_reveals_the_rest() {
    let mut game = three_step_game();
    game.round = 4;
    let (phase, effects) = path_on_input(&mut game, Input::Move(Direction::Up));
    assert_eq!(phase, Phase::Lost);
    assert_eq!(
        effects,
        vec![
            Effect::Play(Sound::Losing),
            Effect::Fill(Position::new(1, 0), Paint::Red),
            Effect::Fill(Position::new(2, 1), Paint::DarkYellow),
            Effect::Fill(Position::new(2, 2), Paint::DarkYellow),
            Effect::Show(Status::PathWrong { round: 4 }, Paint::Red),
        ]
    );
    assert_eq!(game.player_index, 0);
}

#[test]
fn path_wrong_move_off_the_grid_marks_nothing() {
    let mut game = Game::new(10, 10);
    game.path = vec![Position::new(0, 3), Position::new(1, 3)];
    let (phase, effects) = path_on_input(&mut game, Input::Move(Direction::Left));
    assert_eq!(phase, Phase::Lost);
    assert_eq!(
        effects,
        vec![
            Effect::Play(Sound::Losing),
            Effect::Fill(Position::new(1, 3), Paint::DarkYellow),
            Effect::Show(Status::PathWrong { round: 1 }, Paint::Red),
        ]
    );
}

#[test]
fn path_quit_and_post_round() {
    let mut game = three_step_game();
    let (phase, effects) = path_on_input(&mut game, Input::Quit);
    assert_eq!(phase, Phase::Quit);
    assert!(effects.is_empty());
    game.round = 6;
    assert_eq!(path_on_post_round(&mut game, PostRoundInput::Quit), Phase::Quit);
    assert_eq!(game.round, 6);
    assert_eq!(path_on_post_round(&mut game, PostRoundInput::PlayAgain), Phase::Playing);
    assert_eq!(game.round, 1);
    assert!(game.path.is_empty());
}

fn chase_game(player: Position, bot: Position) -> ChaseGame {
    ChaseGame { round: 1, cols: 10, rows: 10, player_pos: player, bot_pos: bot, moves_survived: 0 }
}

#[test]
fn chase_start_effects() {
    let game = chase_game(Position::new(1, 1), Position::new(9, 9));
    assert_eq!(
        chase_round_start(&game),
        vec![
            Effect::NewScreen,
            Effect::Fill(Position::new(1, 1), Paint::Cyan),
            Effect::Fill(Position::new(9, 9), Paint::Magenta),
            Effect::Show(Status::FleeTarget { moves: 15 }, Paint::Yellow),
            Effect::ChaseInfo { round: 1, survived: 0, target: 15, bot_steps: 1 },
        ]
    );
}

#[test]
fn chase_move_effects() {
    let mut game = chase_game(Position::new(1, 1), Position::new(9, 9));
    let (phase, effects) = chase_on_input(&mut game, Input::Move(Direction::Right));
    assert_eq!(phase, Phase::Playing);
    assert!(game.bot_pos == Position::new(9, 8) || game.bot_pos == Position::new(8, 9));
    assert_eq!(
        effects,
        vec![
            Effect::Clear(Position::new(1, 1)),
            Effect::Clear(Position::new(9, 9)),
            Effect::Fill(Position::new(2, 1), Paint::Cyan),
            Effect::Fill(game.bot_pos, Paint::Magenta),
            Effect::PlayMovement,
            Effect::ChaseInfo { round: 1, survived: 1, target: 15, bot_steps: 1 },
        ]
    );
}

#[test]
fn chase_caught_and_survived_effects() {
    let mut game = chase_game(Position::new(1, 0), Position::new(0, 0));
    let (phase, effects) = chase_on_input(&mut game, Input::Move(Direction::Left));
    assert_eq!(phase, Phase::Lost);
    assert_eq!(
        effects,
        vec![
            Effect::Clear(Position::new(1, 0)),
            Effect::Clear(Position::new(0, 0)),
            Effect::Fill(Position::new(0, 0), Paint::Red),
            Effect::Play(Sound::Losing),
            Effect::Show(Status::Caught { round: 1 }, Paint::Red),
        ]
    );
    let mut game = chase_game(Position::new(0, 0), Position::new(9, 9));
    game.moves_survived = 14;
    let (phase, effects) = chase_on_input(&mut game, Input::Move(Direction::Down));
    assert_eq!(phase, Phase::Won);
    assert_eq!(
        effects,
        vec![
            Effect::Clear(Position::new(0, 0)),
            Effect::Clear(Position::new(9, 9)),
            Effect::Fill(Position::new(0, 1), Paint::Green),
            Effect::Play(Sound::Winning),
            Effect::Show(Status::Survived, Paint::Green),
        ]
    );
}

#[test]
fn chase_invalid_move_and_quit() {
    let mut game = chase_game(Position::new(0, 0), Position::new(9, 9));
    let (phase, effects) = chase_on_input(&mut game, Input::Move(Direction::Up));
    assert_eq!(phase, Phase::Playing);
    assert!(effects.is_empty());
    let (phase, effects) = chase_on_input(&mut game, Input::Quit);
    assert_eq!(phase, Phase::Quit);
    assert!(effects.is_empty());
    game.round = 3;
    assert_eq!(chase_on_post_round(&mut game, PostRoundInput::PlayAgain), Phase::Playing);
    assert_eq!(game.round, 1);
    assert_eq!(chase_on_post_round(&mut game, PostRoundInput::Quit), Phase::Quit);
}
