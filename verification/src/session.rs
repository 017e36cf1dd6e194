use crate::chase::{ChaseGame, ChaseMoveResult, bot_steps, survival_target};
use crate::game::{Game, MoveResult, PathError, attempts_stuck, preview_hold_for, preview_step_for, valid_path, walk_cannot_stick};
use crate::input::{FlappyInput, Input, PostRoundInput};
use crate::snake::{SnakeGame, SnakeMoveResult, valid_food};
use crate::flappy::{FlappyGame, FlappyMoveResult, Pipe, collides, sub_sat, valid_gap, gap_size_for};
use crate::models::{Position, in_grid};
use vstd::prelude::*;

verus! {

/// The colours a cell or a status line is painted in.
#[derive(Clone, Copy, Debug, PartialEq, Eq, Structural)]
pub enum Paint {
    Cyan,
    Magenta,
    Green,
    Red,
    Yellow,
    DarkYellow,
}

/// The sounds of the games.
#[derive(Clone, Copy, Debug, PartialEq, Eq, Structural)]
pub enum Sound {
    Winning,
    Losing,
    Movement,
    BotPath,
}

/// The messages of the status line.
#[derive(Clone, Copy, Debug, PartialEq, Eq, Structural)]
pub enum Status {
    WatchPath,
    ReproducePath,
    PathCorrect,
    PathWrong { round: u32 },
    FleeTarget { moves: u32 },
    Caught { round: u32 },
    Survived,
    CollectCoins,
    SnakeOver { score: u32 },
    PressSpace,
    FlappyOver { score: u32 },
}

/// One thing the display or the speakers have to do.
#[derive(Clone, Copy, Debug, PartialEq, Eq, Structural)]
pub enum Effect {
    /// Clear the screen and draw the title and the empty grid.
    NewScreen,
    /// Show the path round information line.
    RoundInfo { round: u32, moves: u32 },
    /// Show the chase information line.
    ChaseInfo { round: u32, survived: u32, target: u32, bot_steps: u32 },
    /// Show the snake information line.
    SnakeInfo { score: u32, level: u32 },
    /// Show the flappy information line.
    FlappyInfo { score: u32 },
    Fill(Position, Paint),
    Clear(Position),
    Play(Sound),
    /// Stop the movement sound that may still play, and play it anew.
    PlayMovement,
    Show(Status, Paint),
    /// Wait this many milliseconds.
    Pause(u64),
}

/// Where a session stands after an event.
#[derive(Clone, Copy, Debug, PartialEq, Eq, Structural)]
pub enum Phase {
    /// The round goes on.
    Playing,
    /// The round is won; the next one starts after any key.
    Won,
    /// The round is lost; the player chooses between playing again and quitting.
    Lost,
    /// The player quits.
    Quit,
}

/// The preview of a path: each cell lit in turn, the first in cyan and the others in
/// green, with the bot sound and a pause of `ms` milliseconds after each.
pub open spec fn path_animation(path: Seq<Position>, ms: u64) -> Seq<Effect>
    decreases path.len(),
{
    if path.len() == 0 {
        seq![]
    } else {
        path_animation(path.drop_last(), ms) + seq![
            Effect::Fill(path.last(), if path.len() == 1 { Paint::Cyan } else { Paint::Green }),
            Effect::Play(Sound::BotPath),
            Effect::Pause(ms),
        ]
    }
}

/// Every cell of `path` cleared, in order.
pub open spec fn clear_cells(path: Seq<Position>) -> Seq<Effect> {
    path.map_values(|p: Position| Effect::Clear(p))
}

/// Every cell of `path` painted in `paint`, in order.
pub open spec fn fill_cells(path: Seq<Position>, paint: Paint) -> Seq<Effect> {
    path.map_values(|p: Position| Effect::Fill(p, paint))
}

/// The start of a path round: the screen, the round line, the preview of the path, the
/// pause before it is hidden, and the start cell lit for the player.
pub open spec fn path_intro(g: Game) -> Seq<Effect> {
    seq![
        Effect::NewScreen,
        Effect::RoundInfo { round: g.round, moves: (g.round + 2) as u32 },
        Effect::Show(Status::WatchPath, Paint::Yellow),
    ] + path_animation(g.path@, preview_step_for(g.round) as u64) + seq![
        Effect::Pause(preview_hold_for(g.round) as u64),
    ] + clear_cells(g.path@) + seq![
        Effect::Show(Status::ReproducePath, Paint::Yellow),
        Effect::Fill(g.path@[0], Paint::Cyan),
    ]
}

/// The cell a wrong move points at, marked red, when it lies on the grid.
pub open spec fn wrong_mark(g: Game, d: crate::models::Direction) -> Seq<Effect> {
    match g.path@[g.player_index as int].step(d) {
        Some(w) => if in_grid(w, g.cols, g.rows) {
            seq![Effect::Fill(w, Paint::Red)]
        } else {
            seq![]
        },
        None => seq![],
    }
}

/// The answer to a wrong move: the losing sound, the wrong cell, the rest of the path
/// revealed, and the status line.
pub open spec fn path_failure(g: Game, d: crate::models::Direction) -> Seq<Effect> {
    seq![Effect::Play(Sound::Losing)] + wrong_mark(g, d) + fill_cells(
        g.path@.subrange(g.player_index + 1, g.path@.len() as int),
        Paint::DarkYellow,
    ) + seq![Effect::Show(Status::PathWrong { round: g.round }, Paint::Red)]
}

/// Starts a path round: draws a new path and returns what to show.
/// When no path can be drawn, nothing changes.
pub fn path_round_start(game: &mut Game) -> (r: Result<Vec<Effect>, PathError>)
    requires
        old(game).round <= u32::MAX - 2,
    ensures
        final(game).round == old(game).round,
        final(game).cols == old(game).cols,
        final(game).rows == old(game).rows,
        r is Err ==> final(game).path@ == old(game).path@
            && final(game).player_index == old(game).player_index,
        r matches Ok(e) ==> valid_path(final(game).path@, old(game).cols, old(game).rows, old(game).round + 3)
            && final(game).player_index == 0 && e@ == path_intro(*final(game)),
        walk_cannot_stick(old(game).cols, old(game).rows, (old(game).round + 2) as u32) ==> r is Ok,
        r is Err ==> attempts_stuck(old(game).cols, old(game).rows, (old(game).round + 2) as u32),
{
    game.generate_path()?;
    let mut e: Vec<Effect> = Vec::new();
    e.push(Effect::NewScreen);
    e.push(Effect::RoundInfo { round: game.round, moves: game.move_count() });
    e.push(Effect::Show(Status::WatchPath, Paint::Yellow));
    let step_ms = game.preview_step_ms();
    let mut preview = animate_path(game.path.as_slice(), step_ms);
    e.append(&mut preview);
    e.push(Effect::Pause(game.preview_hold_ms()));
    let mut hidden = clear_path(game.path.as_slice());
    e.append(&mut hidden);
    e.push(Effect::Show(Status::ReproducePath, Paint::Yellow));
    e.push(Effect::Fill(game.start_position(), Paint::Cyan));
    assert(e@ =~= path_intro(*game));
    Ok(e)
}

/// The preview of a path: each cell lit in turn, the first in cyan and the others in
/// green, with the bot sound and a pause of `step_ms` milliseconds after each.
pub fn animate_path(path: &[Position], step_ms: u64) -> (e: Vec<Effect>)
    ensures
        e@ == path_animation(path@, step_ms),
{
    let mut e: Vec<Effect> = Vec::new();
    let mut i: usize = 0;
    while i < path.len()
        invariant
            i <= path@.len(),
            e@ == path_animation(path@.take(i as int), step_ms),
        decreases path@.len() - i,
    {
        let paint = if i == 0 { Paint::Cyan } else { Paint::Green };
        e.push(Effect::Fill(path[i], paint));
        e.push(Effect::Play(Sound::BotPath));
        e.push(Effect::Pause(step_ms));
        proof {
            let t = path@.take(i + 1);
            assert(t.drop_last() == path@.take(i as int));
            assert(t.last() == path@[i as int]);
            assert(e@ =~= path_animation(t, step_ms));
        }
        i = i + 1;
    }
    assert(path@.take(i as int) == path@);
    e
}

/// Every cell of `path` cleared, in order.
pub fn clear_path(path: &[Position]) -> (e: Vec<Effect>)
    ensures
        e@ == clear_cells(path@),
{
    let mut e: Vec<Effect> = Vec::new();
    let mut j: usize = 0;
    while j < path.len()
        invariant
            j <= path@.len(),
            e@ == clear_cells(path@.take(j as int)),
        decreases path@.len() - j,
    {
        e.push(Effect::Clear(path[j]));
        proof {
            assert(clear_cells(path@.take(j + 1)) =~= clear_cells(path@.take(j as int)).push(
                Effect::Clear(path@[j as int]),
            ));
        }
        j = j + 1;
    }
    assert(path@.take(j as int) == path@);
    e
}

/// Answers one input of the player during a path round.
pub fn path_on_input(game: &mut Game, input: Input) -> (r: (Phase, Vec<Effect>))
    requires
        old(game).in_progress(),
        input matches Input::Move(d) ==> old(game).path@[old(game).player_index as int].can_step(d),
    ensures
        final(game).round == old(game).round,
        final(game).cols == old(game).cols,
        final(game).rows == old(game).rows,
        final(game).path@ == old(game).path@,
        input == Input::Quit ==> r.0 == Phase::Quit && r.1@ == Seq::<Effect>::empty()
            && final(game).player_index == old(game).player_index,
        input matches Input::Move(d) ==> ({
            let i = old(game).player_index as int;
            let path = old(game).path@;
            if path[i].direction_towards(path[i + 1]) == Some(d) {
                &&& final(game).player_index == i + 1
                &&& i + 1 >= path.len() - 1 ==> r.0 == Phase::Won && r.1@ == seq![
                    Effect::Fill(path.last(), Paint::Green),
                    Effect::Play(Sound::Winning),
                    Effect::Show(Status::PathCorrect, Paint::Green),
                ]
                &&& i + 1 < path.len() - 1 ==> r.0 == Phase::Playing && r.1@ == seq![
                    Effect::Fill(path[i + 1], Paint::Green),
                    Effect::PlayMovement,
                ]
            } else {
                &&& final(game).player_index == i
                &&& r.0 == Phase::Lost
                &&& r.1@ == path_failure(*old(game), d)
            }
        }),
{
    let dir = match input {
        Input::Quit => {
            return (Phase::Quit, Vec::new());
        },
        Input::Move(d) => d,
    };
    let ghost start = *game;
    let mut e: Vec<Effect> = Vec::new();
    match game.check_move(dir) {
        MoveResult::Correct(pos) => {
            e.push(Effect::Fill(pos, Paint::Green));
            e.push(Effect::PlayMovement);
            (Phase::Playing, e)
        },
        MoveResult::RoundComplete => {
            let last = game.path[game.path.len() - 1];
            e.push(Effect::Fill(last, Paint::Green));
            e.push(Effect::Play(Sound::Winning));
            e.push(Effect::Show(Status::PathCorrect, Paint::Green));
            (Phase::Won, e)
        },
        MoveResult::Wrong => {
            e.push(Effect::Play(Sound::Losing));
            let current = game.path[game.player_index];
            if let Some(wrong) = current.neighbor(dir) {
                if wrong.x < game.cols && wrong.y < game.rows {
                    e.push(Effect::Fill(wrong, Paint::Red));
                }
            }
            let ghost marked = e@;
            assert(marked == seq![Effect::Play(Sound::Losing)] + wrong_mark(start, dir));
            let ghost from: int = game.player_index + 1;
            let rest = game.remaining_path();
            let mut k: usize = 0;
            while k < rest.len()
                invariant
                    k <= rest@.len(),
                    rest@ == start.path@.subrange(from, start.path@.len() as int),
                    e@ == marked + fill_cells(rest@.take(k as int), Paint::DarkYellow),
                decreases rest@.len() - k,
            {
                e.push(Effect::Fill(rest[k], Paint::DarkYellow));
                proof {
                    assert(fill_cells(rest@.take(k + 1), Paint::DarkYellow) =~= fill_cells(
                        rest@.take(k as int),
                        Paint::DarkYellow,
                    ).push(Effect::Fill(rest@[k as int], Paint::DarkYellow)));
                    assert(e@ =~= marked + fill_cells(rest@.take(k + 1), Paint::DarkYellow));
                }
                k = k + 1;
            }
            assert(rest@.take(k as int) == rest@);
            e.push(Effect::Show(Status::PathWrong { round: game.round }, Paint::Red));
            assert(e@ =~= path_failure(start, dir));
            (Phase::Lost, e)
        },
    }
}

/// Answers the choice after a lost path round: a new game, or the end.
pub fn path_on_post_round(game: &mut Game, answer: PostRoundInput) -> (p: Phase)
    ensures
        answer == PostRoundInput::PlayAgain ==> p == Phase::Playing && final(game).round == 1
            && final(game).cols == old(game).cols && final(game).rows == old(game).rows
            && final(game).path@ == Seq::<Position>::empty() && final(game).player_index == 0,
        answer == PostRoundInput::Quit ==> p == Phase::Quit && *final(game) == *old(game),
{
    match answer {
        PostRoundInput::PlayAgain => {
            let cols = game.cols;
            let rows = game.rows;
            *game = Game::new(cols, rows);
            Phase::Playing
        },
        PostRoundInput::Quit => Phase::Quit,
    }
}

/// What to show when a chase round starts.
pub fn chase_round_start(game: &ChaseGame) -> (e: Vec<Effect>)
    requires
        game.round_ok(),
    ensures
        e@ == seq![
            Effect::NewScreen,
            Effect::Fill(game.player_pos, Paint::Cyan),
            Effect::Fill(game.bot_pos, Paint::Magenta),
            Effect::Show(Status::FleeTarget { moves: survival_target(game.round) as u32 }, Paint::Yellow),
            Effect::ChaseInfo {
                round: game.round,
                survived: game.moves_survived,
                target: survival_target(game.round) as u32,
                bot_steps: bot_steps(game.round) as u32,
            },
        ],
{
    let mut e: Vec<Effect> = Vec::new();
    e.push(Effect::NewScreen);
    e.push(Effect::Fill(game.player_pos, Paint::Cyan));
    e.push(Effect::Fill(game.bot_pos, Paint::Magenta));
    e.push(Effect::Show(Status::FleeTarget { moves: game.moves_to_survive() }, Paint::Yellow));
    e.push(chase_info(game));
    e
}

/// The chase information line for the current state.
fn chase_info(game: &ChaseGame) -> (e: Effect)
    requires
        game.round_ok(),
    ensures
        e == (Effect::ChaseInfo {
            round: game.round,
            survived: game.moves_survived,
            target: survival_target(game.round) as u32,
            bot_steps: bot_steps(game.round) as u32,
        }),
{
    Effect::ChaseInfo {
        round: game.round,
        survived: game.moves_survived,
        target: game.moves_to_survive(),
        bot_steps: game.bot_step_size(),
    }
}

/// Answers one input of the player during a chase round.
pub fn chase_on_input(game: &mut ChaseGame, input: Input) -> (r: (Phase, Vec<Effect>))
    requires
        input matches Input::Move(d) ==> old(game).can_move(d),
    ensures
        final(game).round == old(game).round,
        final(game).cols == old(game).cols,
        final(game).rows == old(game).rows,
        input == Input::Quit ==> r.0 == Phase::Quit && r.1@ == Seq::<Effect>::empty() && *final(game)
            == *old(game),
        input matches Input::Move(d) ==> ({
            let g = *old(game);
            match g.target(d) {
                None => r.0 == Phase::Playing && r.1@ == Seq::<Effect>::empty() && *final(game) == g,
                Some(p) => {
                    let bot = final(game).bot_pos;
                    let survived = g.moves_survived + 1;
                    let target = survival_target(g.round);
                    &&& final(game).player_pos == p
                    &&& g.bot_answers(p, bot)
                    &&& bot == p ==> final(game).moves_survived == g.moves_survived && r.0 == Phase::Lost
                        && r.1@ == seq![
                        Effect::Clear(g.player_pos),
                        Effect::Clear(g.bot_pos),
                        Effect::Fill(p, Paint::Red),
                        Effect::Play(Sound::Losing),
                        Effect::Show(Status::Caught { round: g.round }, Paint::Red),
                    ]
                    &&& bot != p ==> final(game).moves_survived == survived
                    &&& bot != p && survived >= target ==> r.0 == Phase::Won && r.1@ == seq![
                        Effect::Clear(g.player_pos),
                        Effect::Clear(g.bot_pos),
                        Effect::Fill(p, Paint::Green),
                        Effect::Play(Sound::Winning),
                        Effect::Show(Status::Survived, Paint::Green),
                    ]
                    &&& bot != p && survived < target ==> r.0 == Phase::Playing && r.1@ == seq![
                        Effect::Clear(g.player_pos),
                        Effect::Clear(g.bot_pos),
                        Effect::Fill(p, Paint::Cyan),
                        Effect::Fill(bot, Paint::Magenta),
                        Effect::PlayMovement,
                        Effect::ChaseInfo {
                            round: g.round,
                            survived: survived as u32,
                            target: target as u32,
                            bot_steps: bot_steps(g.round) as u32,
                        },
                    ]
                },
            }
        }),
{
    let dir = match input {
        Input::Quit => {
            return (Phase::Quit, Vec::new());
        },
        Input::Move(d) => d,
    };
    let ghost start = *game;
    let mut e: Vec<Effect> = Vec::new();
    match game.move_player(dir) {
        ChaseMoveResult::InvalidMove => (Phase::Playing, e),
        ChaseMoveResult::Moved { old_player, old_bot } => {
            proof {
                let p = game.player_pos;
                let draws = choose|draws: Seq<Option<usize>>|
                    draws.len() == crate::chase::bot_steps(start.round) && #[trigger] crate::chase::bot_walk(
                        start.bot_pos,
                        p,
                        start.cols,
                        start.rows,
                        draws,
                    ) == game.bot_pos;
                assert(crate::chase::bot_walk(start.bot_pos, p, start.cols, start.rows, draws) != p);
                assert(start.may_escape(p));
            }
            e.push(Effect::Clear(old_player));
            e.push(Effect::Clear(old_bot));
            e.push(Effect::Fill(game.player_pos, Paint::Cyan));
            e.push(Effect::Fill(game.bot_pos, Paint::Magenta));
            e.push(Effect::PlayMovement);
            e.push(chase_info(game));
            (Phase::Playing, e)
        },
        ChaseMoveResult::Caught { old_player, old_bot } => {
            e.push(Effect::Clear(old_player));
            e.push(Effect::Clear(old_bot));
            e.push(Effect::Fill(game.player_pos, Paint::Red));
            if game.bot_pos != game.player_pos {
                e.push(Effect::Fill(game.bot_pos, Paint::Magenta));
            }
            e.push(Effect::Play(Sound::Losing));
            e.push(Effect::Show(Status::Caught { round: game.round }, Paint::Red));
            (Phase::Lost, e)
        },
        ChaseMoveResult::Survived { old_player, old_bot } => {
            e.push(Effect::Clear(old_player));
            e.push(Effect::Clear(old_bot));
            e.push(Effect::Fill(game.player_pos, Paint::Green));
            e.push(Effect::Play(Sound::Winning));
            e.push(Effect::Show(Status::Survived, Paint::Green));
            (Phase::Won, e)
        },
    }
}

/// Answers the choice after a lost chase round: a restart from round 1, or the end.
pub fn chase_on_post_round(game: &mut ChaseGame, answer: PostRoundInput) -> (p: Phase)
    ensures
        answer == PostRoundInput::PlayAgain ==> p == Phase::Playing && final(game).round == 1
            && final(game).cols == old(game).cols && final(game).rows == old(game).rows
            && final(game).moves_survived == 0 && crate::chase::valid_spawn(
            final(game).cols,
            final(game).rows,
            final(game).player_pos,
        ) && final(game).bot_pos == crate::chase::opposite_corner(
            final(game).cols,
            final(game).rows,
            final(game).player_pos,
        ),
        answer == PostRoundInput::Quit ==> p == Phase::Quit && *final(game) == *old(game),
{
    match answer {
        PostRoundInput::PlayAgain => {
            game.restart();
            Phase::Playing
        },
        PostRoundInput::Quit => Phase::Quit,
    }
}

/// The snake drawn cell by cell: the head in cyan, the rest of the body in green.
pub open spec fn snake_cells(body: Seq<Position>) -> Seq<Effect> {
    Seq::new(body.len(), |i: int| Effect::Fill(body[i], if i == 0 { Paint::Cyan } else { Paint::Green }))
}

/// What to show when a snake game starts: the screen, the snake, the food as a yellow
/// coin, the score line and the status line.
pub fn snake_round_start(game: &SnakeGame) -> (e: Vec<Effect>)
    ensures
        e@ == seq![Effect::NewScreen] + snake_cells(game@) + seq![
            Effect::Fill(game.food, Paint::Yellow),
            Effect::SnakeInfo { score: game.score, level: (1 + game.score / 5) as u32 },
            Effect::Show(Status::CollectCoins, Paint::Yellow),
        ],
{
    let mut e: Vec<Effect> = Vec::new();
    e.push(Effect::NewScreen);
    let mut i: usize = 0;
    while i < game.body.len()
        invariant
            i <= game@.len(),
            e@ == seq![Effect::NewScreen] + snake_cells(game@.take(i as int)),
        decreases game@.len() - i,
    {
        let paint = if i == 0 { Paint::Cyan } else { Paint::Green };
        e.push(Effect::Fill(game.body[i], paint));
        proof {
            assert(snake_cells(game@.take(i + 1)) =~= snake_cells(game@.take(i as int)).push(
                Effect::Fill(game@[i as int], paint),
            ));
            assert(e@ =~= seq![Effect::NewScreen] + snake_cells(game@.take(i + 1)));
        }
        i = i + 1;
    }
    assert(game@.take(i as int) == game@);
    e.push(Effect::Fill(game.food, Paint::Yellow));
    e.push(Effect::SnakeInfo { score: game.score, level: game.level() });
    e.push(Effect::Show(Status::CollectCoins, Paint::Yellow));
    e
}

/// Answers one input of the player in a snake game: a direction turns the snake unless it
/// would reverse it.
pub fn snake_on_input(game: &mut SnakeGame, input: Input) -> (p: Phase)
    ensures
        final(game).cols == old(game).cols,
        final(game).rows == old(game).rows,
        final(game)@ == old(game)@,
        final(game).food == old(game).food,
        final(game).score == old(game).score,
        input == Input::Quit ==> p == Phase::Quit && final(game).direction == old(game).direction,
        input matches Input::Move(d) ==> p == Phase::Playing && final(game).direction
            == crate::snake::turned(old(game).direction, d),
{
    match input {
        Input::Quit => Phase::Quit,
        Input::Move(d) => {
            game.try_change_direction(d);
            Phase::Playing
        },
    }
}

/// Advances a snake game by one tick and tells what to show.
pub fn snake_on_tick(game: &mut SnakeGame) -> (r: (Phase, Vec<Effect>))
    requires
        old(game).can_tick(),
    ensures
        final(game).cols == old(game).cols,
        final(game).rows == old(game).rows,
        final(game).direction == old(game).direction,
        (old(game).next_head() is None || old(game)@.contains(old(game).next_head()->0)) ==> r.0
            == Phase::Lost && final(game)@ == old(game)@ && final(game).food == old(game).food
            && final(game).score == old(game).score && r.1@ == seq![
            Effect::Play(Sound::Losing),
            Effect::Show(Status::SnakeOver { score: old(game).score }, Paint::Red),
        ],
        old(game).next_head() matches Some(p) ==> (!old(game)@.contains(p) && p == old(game).food
            ==> r.0 == Phase::Playing && final(game)@ == seq![p] + old(game)@ && final(game).score
            == old(game).score + 1 && valid_food(final(game).cols, final(game).rows, final(game)@, final(game).food)
            && r.1@ == seq![
            Effect::Fill(old(game)@[0], Paint::Green),
            Effect::Fill(p, Paint::Cyan),
            Effect::Fill(final(game).food, Paint::Yellow),
            Effect::Play(Sound::Winning),
            Effect::SnakeInfo { score: final(game).score, level: (1 + final(game).score / 5) as u32 },
        ]),
        old(game).next_head() matches Some(p) ==> (!old(game)@.contains(p) && p != old(game).food
            ==> r.0 == Phase::Playing && final(game)@ == seq![p] + old(game)@.drop_last()
            && final(game).food == old(game).food && final(game).score == old(game).score && r.1@
            == seq![
            Effect::Fill(old(game)@[0], Paint::Green),
            Effect::Clear(old(game)@.last()),
            Effect::Fill(p, Paint::Cyan),
        ]),
{
    let old_head = game.head();
    let score = game.score;
    let mut e: Vec<Effect> = Vec::new();
    match game.tick() {
        SnakeMoveResult::Collision => {
            e.push(Effect::Play(Sound::Losing));
            e.push(Effect::Show(Status::SnakeOver { score }, Paint::Red));
            (Phase::Lost, e)
        },
        SnakeMoveResult::Moved { tail_removed } => {
            e.push(Effect::Fill(old_head, Paint::Green));
            e.push(Effect::Clear(tail_removed));
            e.push(Effect::Fill(game.head(), Paint::Cyan));
            (Phase::Playing, e)
        },
        SnakeMoveResult::AteFood { new_food } => {
            e.push(Effect::Fill(old_head, Paint::Green));
            e.push(Effect::Fill(game.head(), Paint::Cyan));
            e.push(Effect::Fill(new_food, Paint::Yellow));
            e.push(Effect::Play(Sound::Winning));
            e.push(Effect::SnakeInfo { score: game.score, level: game.level() });
            (Phase::Playing, e)
        },
    }
}

/// Answers the choice after a lost snake game: a new game, or the end.
pub fn snake_on_post_round(game: &mut SnakeGame, answer: PostRoundInput) -> (p: Phase)
    requires
        old(game).cols >= 2,
    ensures
        answer == PostRoundInput::PlayAgain ==> p == Phase::Playing && final(game).cols == old(game).cols
            && final(game).rows == old(game).rows && final(game)@ == crate::snake::start_body(
            old(game).cols,
            old(game).rows,
        ) && final(game).direction == crate::models::Direction::Right && final(game).score == 0
            && valid_food(final(game).cols, final(game).rows, final(game)@, final(game).food),
        answer == PostRoundInput::Quit ==> p == Phase::Quit && final(game)@ == old(game)@
            && final(game).score == old(game).score,
{
    match answer {
        PostRoundInput::PlayAgain => {
            game.restart();
            Phase::Playing
        },
        PostRoundInput::Quit => Phase::Quit,
    }
}

/// Row `y` lies inside the gap of pipe `p`.
pub open spec fn in_gap(p: Pipe, y: u16) -> bool {
    sub_sat(p.gap_y, p.gap_size / 2) <= y <= p.gap_y + p.gap_size / 2
}

/// The cells of the column of pipe `p` in rows `0..n` outside the gap, painted green.
pub open spec fn column_fills(p: Pipe, n: nat) -> Seq<Effect>
    decreases n,
{
    if n == 0 {
        seq![]
    } else {
        let y = (n - 1) as u16;
        column_fills(p, (n - 1) as nat) + if in_gap(p, y) {
            seq![]
        } else {
            seq![Effect::Fill(Position { x: p.x, y }, Paint::Green)]
        }
    }
}

/// The pipes of `s` drawn in order, those whose column lies on a grid of `cols` by `rows`.
pub open spec fn pipe_fills(s: Seq<Pipe>, cols: u16, rows: u16) -> Seq<Effect>
    decreases s.len(),
{
    if s.len() == 0 {
        seq![]
    } else {
        pipe_fills(s.drop_last(), cols, rows) + if s.last().x < cols {
            column_fills(s.last(), rows as nat)
        } else {
            seq![]
        }
    }
}

/// The player collides with a pipe exactly on the cells the pipe is drawn on: in the
/// pipe's column, the player hits it exactly at the rows outside the gap, which are the
/// rows painted green; in the column before, at the same rows.
pub proof fn lemma_collision_cells_are_drawn(p: Pipe, player_x: u16, y: u16, rows: u16)
    requires
        y < rows,
    ensures
        crate::flappy::hits(p, player_x, y) <==> crate::flappy::in_column(p, player_x) && !in_gap(p, y),
        column_fills(p, rows as nat).contains(Effect::Fill(Position { x: p.x, y }, Paint::Green)) <==> !in_gap(p, y),
{
    lemma_column_fills_rows(p, rows as nat, y);
}

/// The green cells of a pipe's column in rows `0..n` are the rows outside its gap.
proof fn lemma_column_fills_rows(p: Pipe, n: nat, y: u16)
    requires
        n <= u16::MAX + 1,
    ensures
        column_fills(p, n).contains(Effect::Fill(Position { x: p.x, y }, Paint::Green)) <==> y < n && !in_gap(p, y),
    decreases n,
{
    if n > 0 {
        lemma_column_fills_rows(p, (n - 1) as nat, y);
        let prev = column_fills(p, (n - 1) as nat);
        let r = (n - 1) as u16;
        let add = if in_gap(p, r) {
            seq![]
        } else {
            seq![Effect::Fill(Position { x: p.x, y: r }, Paint::Green)]
        };
        let e = Effect::Fill(Position { x: p.x, y }, Paint::Green);
        assert(column_fills(p, n) == prev + add);
        if (prev + add).contains(e) {
            let k = choose|k: int| 0 <= k < (prev + add).len() && (prev + add)[k] == e;
            if k < prev.len() {
                assert(prev[k] == e);
            } else {
                assert(add[k - prev.len()] == e);
            }
        }
        if y < n && !in_gap(p, y) {
            if y == r {
                assert((prev + add)[prev.len() as int] == e);
            } else {
                let k = choose|k: int| 0 <= k < prev.len() && prev[k] == e;
                assert((prev + add)[k] == e);
            }
        }
    }
}

/// The cells of column `x` in rows `0..n` cleared.
pub open spec fn column_clears(x: u16, n: nat) -> Seq<Effect>
    decreases n,
{
    if n == 0 {
        seq![]
    } else {
        column_clears(x, (n - 1) as nat).push(Effect::Clear(Position { x, y: (n - 1) as u16 }))
    }
}

/// The columns of `xs` that lie on a grid of `cols` by `rows`, cleared in order.
pub open spec fn columns_clears(xs: Seq<u16>, cols: u16, rows: u16) -> Seq<Effect>
    decreases xs.len(),
{
    if xs.len() == 0 {
        seq![]
    } else {
        columns_clears(xs.drop_last(), cols, rows) + if xs.last() < cols {
            column_clears(xs.last(), rows as nat)
        } else {
            seq![]
        }
    }
}

/// A single cell painted, when it lies on the grid.
pub open spec fn fill_on_grid(p: Position, paint: Paint, cols: u16, rows: u16) -> Seq<Effect> {
    if in_grid(p, cols, rows) { seq![Effect::Fill(p, paint)] } else { seq![] }
}

/// A single cell cleared, when it lies on the grid.
pub open spec fn clear_on_grid(p: Position, cols: u16, rows: u16) -> Seq<Effect> {
    if in_grid(p, cols, rows) { seq![Effect::Clear(p)] } else { seq![] }
}

/// The pipes in green and the player in cyan.
pub open spec fn flappy_frame(g: FlappyGame) -> Seq<Effect> {
    pipe_fills(g@, g.cols, g.rows) + fill_on_grid(Position { x: g.player_x, y: g.player_y }, Paint::Cyan, g.cols, g.rows)
}

/// The column of pipe `pipe`, rows `0..rows`, drawn outside the gap.
fn draw_column(e: &mut Vec<Effect>, pipe: &Pipe, rows: u16)
    ensures
        final(e)@ == old(e)@ + column_fills(*pipe, rows as nat),
{
    let ghost start = e@;
    let gap_start = pipe.gap_y.saturating_sub(pipe.gap_size / 2);
    let gap_end: u32 = pipe.gap_y as u32 + (pipe.gap_size / 2) as u32;
    let mut y: u16 = 0;
    while y < rows
        invariant
            y <= rows,
            gap_start == sub_sat(pipe.gap_y, pipe.gap_size / 2),
            gap_end == pipe.gap_y + pipe.gap_size / 2,
            e@ == start + column_fills(*pipe, y as nat),
        decreases rows - y,
    {
        if y < gap_start || y as u32 > gap_end {
            e.push(Effect::Fill(Position::new(pipe.x, y), Paint::Green));
        }
        proof {
            assert(e@ =~= start + column_fills(*pipe, (y + 1) as nat));
        }
        y = y + 1;
    }
}

/// The cells of column `x`, rows `0..rows`, cleared.
fn clear_column(e: &mut Vec<Effect>, x: u16, rows: u16)
    ensures
        final(e)@ == old(e)@ + column_clears(x, rows as nat),
{
    let ghost start = e@;
    let mut y: u16 = 0;
    while y < rows
        invariant
            y <= rows,
            e@ == start + column_clears(x, y as nat),
        decreases rows - y,
    {
        e.push(Effect::Clear(Position::new(x, y)));
        proof {
            assert(e@ =~= start + column_clears(x, (y + 1) as nat));
        }
        y = y + 1;
    }
}

/// Appends the pipes in green and the player in cyan.
fn draw_flappy_frame(e: &mut Vec<Effect>, game: &FlappyGame)
    ensures
        final(e)@ == old(e)@ + flappy_frame(*game),
{
    let ghost start = e@;
    let mut i: usize = 0;
    while i < game.pipes.len()
        invariant
            i <= game@.len(),
            e@ == start + pipe_fills(game@.take(i as int), game.cols, game.rows),
        decreases game@.len() - i,
    {
        let pipe = &game.pipes[i];
        let ghost before = e@;
        if pipe.x < game.cols {
            draw_column(e, pipe, game.rows);
        }
        proof {
            let t = game@.take(i + 1);
            assert(t.drop_last() == game@.take(i as int));
            assert(t.last() == game@[i as int]);
            assert(e@ =~= start + pipe_fills(t, game.cols, game.rows));
        }
        i = i + 1;
    }
    assert(game@.take(i as int) == game@);
    if game.player_x < game.cols && game.player_y < game.rows {
        e.push(Effect::Fill(game.player_pos(), Paint::Cyan));
    }
    assert(e@ =~= start + flappy_frame(*game));
}

/// What to show when a flappy game starts: the screen, the pipes and the player, the score
/// line and the status line.
pub fn flappy_round_start(game: &FlappyGame) -> (e: Vec<Effect>)
    ensures
        e@ == seq![Effect::NewScreen] + flappy_frame(*game) + seq![
            Effect::FlappyInfo { score: game.score },
            Effect::Show(Status::PressSpace, Paint::Yellow),
        ],
{
    let mut e: Vec<Effect> = Vec::new();
    e.push(Effect::NewScreen);
    draw_flappy_frame(&mut e, game);
    e.push(Effect::FlappyInfo { score: game.score });
    e.push(Effect::Show(Status::PressSpace, Paint::Yellow));
    e
}

/// Answers one input of the player in a flappy game.
pub fn flappy_on_input(game: &mut FlappyGame, input: FlappyInput) -> (p: Phase)
    ensures
        input == FlappyInput::Quit ==> p == Phase::Quit && final(game).player_y == old(game).player_y,
        input == FlappyInput::Jump ==> p == Phase::Playing && final(game).player_y == sub_sat(old(game).player_y, 2),
        final(game).player_x == old(game).player_x,
        final(game).cols == old(game).cols,
        final(game).rows == old(game).rows,
        final(game)@ == old(game)@,
        final(game).score == old(game).score,
        final(game).ticks == old(game).ticks,
{
    match input {
        FlappyInput::Quit => Phase::Quit,
        FlappyInput::Jump => {
            game.jump();
            Phase::Playing
        },
    }
}

/// Advances a flappy game by one tick and tells what to show: on a collision the game is
/// lost; otherwise the old player cell and the old pipe columns are cleared and the new
/// frame drawn, with the winning sound and the new score when a pipe was passed.
pub fn flappy_on_tick(game: &mut FlappyGame) -> (r: (Phase, Vec<Effect>))
    requires
        old(game).can_tick(),
    ensures
        exists|gap_y: u16|
            valid_gap(gap_y, old(game).rows, gap_size_for(old(game).score)) && #[trigger] old(game).ticked_to(
                gap_y,
                *final(game),
            ),
        collides(final(game).player_x, final(game).player_y, final(game).rows, final(game)@) ==> r.0
            == Phase::Lost && r.1@ == seq![
            Effect::Play(Sound::Losing),
            Effect::Show(Status::FlappyOver { score: old(game).score }, Paint::Red),
        ],
        !collides(final(game).player_x, final(game).player_y, final(game).rows, final(game)@) ==> r.0
            == Phase::Playing && r.1@ == clear_on_grid(
            Position { x: old(game).player_x, y: old(game).player_y },
            old(game).cols,
            old(game).rows,
        ) + columns_clears(crate::flappy::pipe_columns(old(game)@), old(game).cols, old(game).rows)
            + flappy_frame(*final(game)) + if final(game).score == old(game).score + 1 {
            seq![Effect::Play(Sound::Winning), Effect::FlappyInfo { score: final(game).score }]
        } else {
            seq![]
        },
{
    let ghost start = *game;
    let score = game.score;
    let cols = game.cols;
    let rows = game.rows;
    let r = game.tick();
    let mut e: Vec<Effect> = Vec::new();
    match r {
        FlappyMoveResult::Collision => {
            e.push(Effect::Play(Sound::Losing));
            e.push(Effect::Show(Status::FlappyOver { score }, Paint::Red));
            (Phase::Lost, e)
        },
        FlappyMoveResult::Moved { old_player, old_pipe_positions } => {
            push_old_frame_clears(&mut e, old_player, &old_pipe_positions, cols, rows);
            draw_flappy_frame(&mut e, game);
            (Phase::Playing, e)
        },
        FlappyMoveResult::ScoredPoint { old_player, old_pipe_positions } => {
            push_old_frame_clears(&mut e, old_player, &old_pipe_positions, cols, rows);
            draw_flappy_frame(&mut e, game);
            e.push(Effect::Play(Sound::Winning));
            e.push(Effect::FlappyInfo { score: game.score });
            (Phase::Playing, e)
        },
    }
}

/// Appends the clearing of the old player cell and of the old pipe columns.
fn push_old_frame_clears(e: &mut Vec<Effect>, old_player: Position, xs: &Vec<u16>, cols: u16, rows: u16)
    ensures
        final(e)@ == old(e)@ + clear_on_grid(old_player, cols, rows) + columns_clears(xs@, cols, rows),
{
    let ghost start = e@;
    if old_player.x < cols && old_player.y < rows {
        e.push(Effect::Clear(old_player));
    }
    let ghost mid = e@;
    assert(mid =~= start + clear_on_grid(old_player, cols, rows));
    let mut i: usize = 0;
    while i < xs.len()
        invariant
            i <= xs@.len(),
            e@ == mid + columns_clears(xs@.take(i as int), cols, rows),
        decreases xs@.len() - i,
    {
        let x = xs[i];
        if x < cols {
            clear_column(e, x, rows);
        }
        proof {
            let t = xs@.take(i + 1);
            assert(t.drop_last() == xs@.take(i as int));
            assert(t.last() == xs@[i as int]);
            assert(e@ =~= mid + columns_clears(t, cols, rows));
        }
        i = i + 1;
    }
    assert(xs@.take(i as int) == xs@);
}

/// Answers the choice after a lost flappy game: a new game, or the end.
pub fn flappy_on_post_round(game: &mut FlappyGame, answer: PostRoundInput) -> (p: Phase)
    ensures
        answer == PostRoundInput::PlayAgain ==> p == Phase::Playing && final(game).cols == old(game).cols
            && final(game).rows == old(game).rows && final(game).player_y == old(game).rows / 2
            && final(game).player_x == old(game).cols / 4 && final(game)@ == Seq::<Pipe>::empty()
            && final(game).score == 0 && final(game).ticks == 0,
        answer == PostRoundInput::Quit ==> p == Phase::Quit && final(game)@ == old(game)@
            && final(game).score == old(game).score,
{
    match answer {
        PostRoundInput::PlayAgain => {
            game.restart();
            Phase::Playing
        },
        PostRoundInput::Quit => Phase::Quit,
    }
}

} // verus!
