use crate::models::{Direction, Position, in_grid};
use crate::random::{random_below_or_zero, random_index};
use vstd::prelude::*;

verus! {

/// What one move of the player led to. The old positions let a display erase them.
#[derive(Debug, PartialEq, Eq, Structural)]
pub enum ChaseMoveResult {
    Moved { old_player: Position, old_bot: Position },
    Caught { old_player: Position, old_bot: Position },
    Survived { old_player: Position, old_bot: Position },
    InvalidMove,
}

/// Chase mode: the player flees from a bot for a number of moves that grows each round,
/// while the bot takes more steps per move.
pub struct ChaseGame {
    pub round: u32,
    pub cols: u16,
    pub rows: u16,
    pub player_pos: Position,
    pub bot_pos: Position,
    pub moves_survived: u32,
}

/// The directions in the order in which the bot considers them.
pub open spec fn dir_at(i: int) -> Direction {
    if i == 0 {
        Direction::Up
    } else if i == 1 {
        Direction::Down
    } else if i == 2 {
        Direction::Left
    } else {
        Direction::Right
    }
}

/// The player's distance after the bot steps from `bot` towards `d`, when that step
/// stays on the grid.
pub open spec fn approach(bot: Position, player: Position, cols: u16, rows: u16, d: Direction) -> Option<nat> {
    match bot.step(d) {
        Some(p) => if in_grid(p, cols, rows) {
            Some(p.distance(player))
        } else {
            None
        },
        None => None,
    }
}

/// Among the first `n` directions of the bot's order, the first one whose step stays on
/// the grid and ends closest to the player, with that distance.
pub open spec fn best_among(bot: Position, player: Position, cols: u16, rows: u16, n: nat) -> Option<(Direction, nat)>
    decreases n,
{
    if n == 0 {
        None
    } else {
        let prev = best_among(bot, player, cols, rows, (n - 1) as nat);
        let d = dir_at(n - 1);
        match approach(bot, player, cols, rows, d) {
            None => prev,
            Some(dist) => match prev {
                None => Some((d, dist)),
                Some(best) => if dist < best.1 {
                    Some((d, dist))
                } else {
                    prev
                },
            },
        }
    }
}

/// The direction in which the bot steps from `bot`: the first of Up, Down, Left, Right
/// among those that stay on the grid with the least distance to the player.
pub open spec fn best_step(bot: Position, player: Position, cols: u16, rows: u16) -> Option<Direction> {
    match best_among(bot, player, cols, rows, 4) {
        Some(best) => Some(best.0),
        None => None,
    }
}

/// The bot can step from `bot` towards `d` without leaving the grid.
pub open spec fn open_step(bot: Position, cols: u16, rows: u16, d: Direction) -> bool {
    bot.step(d) matches Some(p) && in_grid(p, cols, rows)
}

/// `d` alone when `open`, else nothing.
pub open spec fn dir_if(open: bool, d: Direction) -> Seq<Direction> {
    if open { seq![d] } else { seq![] }
}

/// The directions in which the bot can step from `bot` without leaving the grid, in the
/// order Up, Down, Left, Right.
pub open spec fn open_directions(bot: Position, cols: u16, rows: u16) -> Seq<Direction> {
    dir_if(open_step(bot, cols, rows, Direction::Up), Direction::Up) + dir_if(
        open_step(bot, cols, rows, Direction::Down),
        Direction::Down,
    ) + dir_if(open_step(bot, cols, rows, Direction::Left), Direction::Left) + dir_if(
        open_step(bot, cols, rows, Direction::Right),
        Direction::Right,
    )
}

/// The direction of one step of the bot from `bot`, for the draw `draw` made for that
/// step. With `None` the bot pursues: it takes the `best_step`. With `Some(i)` it wanders:
/// it takes open direction number `i`, counted round their number.
pub open spec fn bot_direction(bot: Position, player: Position, cols: u16, rows: u16, draw: Option<usize>) -> Option<Direction> {
    match draw {
        None => best_step(bot, player, cols, rows),
        Some(i) => {
            let open = open_directions(bot, cols, rows);
            if open.len() == 0 {
                None
            } else {
                Some(open[i as int % open.len() as int])
            }
        },
    }
}

/// Where one step of the bot from `bot` ends for the draw `draw`; with no direction to
/// take, the bot stays.
pub open spec fn bot_next(bot: Position, player: Position, cols: u16, rows: u16, draw: Option<usize>) -> Position {
    match bot_direction(bot, player, cols, rows, draw) {
        Some(d) => match bot.step(d) {
            Some(p) => p,
            None => bot,
        },
        None => bot,
    }
}

/// Where the bot stands after its steps towards `player` from `bot`, one step per draw of
/// `draws`; it stops as soon as it reaches the player.
pub open spec fn bot_walk(bot: Position, player: Position, cols: u16, rows: u16, draws: Seq<Option<usize>>) -> Position
    decreases draws.len(),
{
    if draws.len() == 0 {
        bot
    } else {
        let b = bot_walk(bot, player, cols, rows, draws.drop_last());
        if b == player {
            b
        } else {
            bot_next(b, player, cols, rows, draws.last())
        }
    }
}

/// The draws of a bot that pursues on each of `n` steps.
pub open spec fn pursuit(n: nat) -> Seq<Option<usize>> {
    Seq::new(n, |i: int| None)
}

/// The corner where the bot appears: on the far side, column- and row-wise, of the player.
pub open spec fn spawn_corner(cols: u16, rows: u16, player: Position) -> Position {
    Position {
        x: if player.x < cols / 2 { (cols - 1) as u16 } else { 0 },
        y: if player.y < rows / 2 { (rows - 1) as u16 } else { 0 },
    }
}

/// A corner coordinate on an axis of `size` cells: the first or the last cell, or 0 on an
/// axis without cells.
pub open spec fn corner_coord(size: u16, c: u16) -> bool {
    if size == 0 { c == 0 } else { c == 0 || c == size - 1 }
}

/// A player spawn cell: a corner of the grid.
pub open spec fn valid_spawn(cols: u16, rows: u16, player: Position) -> bool {
    corner_coord(cols, player.x) && corner_coord(rows, player.y)
}

/// The corner diagonally opposite the corner `p`.
pub open spec fn opposite_corner(cols: u16, rows: u16, p: Position) -> Position {
    Position {
        x: if cols == 0 { 0 } else { (cols - 1 - p.x) as u16 },
        y: if rows == 0 { 0 } else { (rows - 1 - p.y) as u16 },
    }
}

/// The corner a random draw `draw` on an axis of `size` cells stands for: the first cell
/// for a draw in the first half, the last cell otherwise, and 0 on an axis without cells.
pub open spec fn corner_for(size: u16, draw: u16) -> u16 {
    if size == 0 {
        0
    } else if draw < size / 2 {
        0
    } else {
        (size - 1) as u16
    }
}

/// For a player on a corner, the bot's corner is the opposite one.
pub proof fn lemma_spawn_corner_is_opposite(cols: u16, rows: u16, player: Position)
    requires
        valid_spawn(cols, rows, player),
    ensures
        spawn_corner(cols, rows, player) == opposite_corner(cols, rows, player),
{
}

/// The number of moves to survive in a round.
pub open spec fn survival_target(round: u32) -> int {
    15 + (round - 1) * 5
}

/// The number of steps the bot takes per player move in a round.
pub open spec fn bot_steps(round: u32) -> int {
    1 + (round - 1) / 2
}

impl ChaseGame {
    /// The cell the player moves to with `dir`, when that move stays on the grid.
    pub open spec fn target(self, dir: Direction) -> Option<Position> {
        match self.player_pos.step(dir) {
            Some(p) => if in_grid(p, self.cols, self.rows) {
                Some(p)
            } else {
                None
            },
            None => None,
        }
    }

    /// `bot` is a cell where the bot may end after the player moved to `p`: where its
    /// steps for this round lead for some draws.
    pub open spec fn bot_answers(self, p: Position, bot: Position) -> bool {
        exists|draws: Seq<Option<usize>>|
            draws.len() == bot_steps(self.round) && #[trigger] bot_walk(self.bot_pos, p, self.cols, self.rows, draws)
                == bot
    }

    /// For some draws, the bot does not catch the player who moved to `p`.
    pub open spec fn may_escape(self, p: Position) -> bool {
        exists|draws: Seq<Option<usize>>|
            draws.len() == bot_steps(self.round) && #[trigger] bot_walk(self.bot_pos, p, self.cols, self.rows, draws)
                != p
    }

    /// The round counter admits the survival target without overflow.
    pub open spec fn round_ok(self) -> bool {
        self.round >= 1 && survival_target(self.round) <= u32::MAX
    }

    /// A move towards `dir` can be played without arithmetic overflow: the bot's step
    /// count is computed when the player does not step onto the bot, the survival count
    /// and target when the bot may miss the player.
    pub open spec fn can_move(self, dir: Direction) -> bool {
        &&& self.player_pos.can_step(dir)
        &&& match self.target(dir) {
            Some(p) => p != self.bot_pos ==> {
                &&& self.round >= 1
                &&& self.bot_pos.x < u16::MAX
                &&& self.bot_pos.y < u16::MAX
                &&& self.may_escape(p) ==> self.round_ok() && self.moves_survived < u32::MAX
            },
            None => true,
        }
    }

    /// A new game in round 1: the player on a random corner, the bot on the opposite one.
    pub fn new(cols: u16, rows: u16) -> (g: Self)
        ensures
            g.round == 1,
            g.cols == cols,
            g.rows == rows,
            g.moves_survived == 0,
            valid_spawn(cols, rows, g.player_pos),
            g.bot_pos == opposite_corner(cols, rows, g.player_pos),
    {
        let (player_pos, bot_pos) = Self::spawn_positions(cols, rows);
        Self { round: 1, cols, rows, player_pos, bot_pos, moves_survived: 0 }
    }

    fn spawn_positions(cols: u16, rows: u16) -> (r: (Position, Position))
        ensures
            valid_spawn(cols, rows, r.0),
            r.1 == opposite_corner(cols, rows, r.0),
    {
        let draw_x = random_below_or_zero(cols);
        let draw_y = random_below_or_zero(rows);
        let player = player_spawn_for(cols, rows, draw_x, draw_y);
        proof {
            lemma_spawn_corner_is_opposite(cols, rows, player);
        }
        (player, bot_spawn_for(cols, rows, player))
    }

    pub fn moves_to_survive(&self) -> (n: u32)
        requires
            self.round_ok(),
        ensures
            n == survival_target(self.round),
    {
        15 + (self.round - 1) * 5
    }

    pub fn bot_step_size(&self) -> (n: u32)
        requires
            self.round >= 1,
        ensures
            n == bot_steps(self.round),
    {
        1 + (self.round - 1) / 2
    }

    /// Moves the player one cell towards `dir`, then lets the bot answer.
    ///
    /// A move off the grid changes nothing. Otherwise the player is caught when it steps
    /// onto the bot or the bot reaches it; else the move counts as survived, and the
    /// round is won once the survival target is reached.
    pub fn move_player(&mut self, dir: Direction) -> (r: ChaseMoveResult)
        requires
            old(self).can_move(dir),
        ensures
            final(self).round == old(self).round,
            final(self).cols == old(self).cols,
            final(self).rows == old(self).rows,
            old(self).target(dir) is None ==> r == ChaseMoveResult::InvalidMove && *final(self)
                == *old(self),
            old(self).target(dir) matches Some(p) ==> {
                let bot = final(self).bot_pos;
                let old_player = old(self).player_pos;
                let old_bot = old(self).bot_pos;
                &&& final(self).player_pos == p
                &&& old(self).bot_answers(p, bot)
                &&& p == old_bot ==> bot == old_bot
                &&& bot == p ==> r == (ChaseMoveResult::Caught { old_player, old_bot })
                    && final(self).moves_survived == old(self).moves_survived
                &&& bot != p ==> final(self).moves_survived == old(self).moves_survived + 1
                &&& bot != p && final(self).moves_survived >= survival_target(old(self).round)
                    ==> r == (ChaseMoveResult::Survived { old_player, old_bot })
                &&& bot != p && final(self).moves_survived < survival_target(old(self).round)
                    ==> r == (ChaseMoveResult::Moved { old_player, old_bot })
            },
    {
        let old_player = self.player_pos;
        let old_bot = self.bot_pos;

        let new_pos = match self.player_pos.neighbor(dir) {
            Some(p) => {
                if p.x < self.cols && p.y < self.rows {
                    p
                } else {
                    return ChaseMoveResult::InvalidMove;
                }
            },
            None => return ChaseMoveResult::InvalidMove,
        };
        self.player_pos = new_pos;

        if self.player_pos == self.bot_pos {
            proof {
                let n = bot_steps(self.round) as nat;
                lemma_walk_stays_at_player(old_bot, new_pos, self.cols, self.rows, seq![], pursuit(n));
                assert(seq![] + pursuit(n) =~= pursuit(n));
                assert(bot_walk(old_bot, new_pos, self.cols, self.rows, pursuit(n)) == old_bot);
            }
            return ChaseMoveResult::Caught { old_player, old_bot };
        }

        let ghost before = *self;
        self.move_bot();

        if self.player_pos == self.bot_pos {
            return ChaseMoveResult::Caught { old_player, old_bot };
        }
        proof {
            let draws = choose|draws: Seq<Option<usize>>|
                draws.len() == bot_steps(before.round) && #[trigger] bot_walk(
                    before.bot_pos,
                    new_pos,
                    before.cols,
                    before.rows,
                    draws,
                ) == self.bot_pos;
            assert(bot_walk(before.bot_pos, new_pos, before.cols, before.rows, draws) != new_pos);
            assert(old(self).may_escape(new_pos));
        }

        self.moves_survived = self.moves_survived + 1;

        if self.moves_survived >= self.moves_to_survive() {
            ChaseMoveResult::Survived { old_player, old_bot }
        } else {
            ChaseMoveResult::Moved { old_player, old_bot }
        }
    }

    /// Lets the bot take its steps for this round towards the player. Before each step a
    /// coin is drawn among 4: on 0 the bot wanders to a random open neighbour, otherwise
    /// it pursues.
    pub fn move_bot(&mut self)
        requires
            old(self).round >= 1,
            old(self).bot_pos != old(self).player_pos ==> old(self).bot_pos.x < u16::MAX
                && old(self).bot_pos.y < u16::MAX,
        ensures
            old(self).bot_answers(old(self).player_pos, final(self).bot_pos),
            final(self).round == old(self).round,
            final(self).cols == old(self).cols,
            final(self).rows == old(self).rows,
            final(self).player_pos == old(self).player_pos,
            final(self).moves_survived == old(self).moves_survived,
    {
        let steps = self.bot_step_size();
        let ghost start = self.bot_pos;
        let ghost mut draws: Seq<Option<usize>> = seq![];
        let mut i: u32 = 0;
        while i < steps
            invariant
                i <= steps,
                steps == bot_steps(self.round),
                draws.len() == i,
                self.round == old(self).round,
                self.cols == old(self).cols,
                self.rows == old(self).rows,
                self.player_pos == old(self).player_pos,
                self.moves_survived == old(self).moves_survived,
                start == old(self).bot_pos,
                self.bot_pos == bot_walk(start, self.player_pos, self.cols, self.rows, draws),
                self.bot_pos != self.player_pos ==> self.bot_pos.x < u16::MAX && self.bot_pos.y < u16::MAX,
            decreases steps - i,
        {
            if self.bot_pos == self.player_pos {
                proof {
                    let more = pursuit((steps - i) as nat);
                    lemma_walk_stays_at_player(start, self.player_pos, self.cols, self.rows, draws, more);
                    assert(bot_walk(start, self.player_pos, self.cols, self.rows, draws + more) == self.bot_pos);
                }
                return;
            }
            let coin = random_index(4);
            let draw = draw_bot_step(coin, self.bot_pos, self.cols, self.rows);
            let next = bot_step_for(self.bot_pos, self.player_pos, self.cols, self.rows, draw);
            proof {
                let grown = draws.push(draw);
                assert(grown.drop_last() =~= draws);
                lemma_open_steps_stay(self.bot_pos, self.player_pos, self.cols, self.rows, draw);
                draws = grown;
            }
            self.bot_pos = next;
            i = i + 1;
        }
        assert(bot_walk(start, self.player_pos, self.cols, self.rows, draws) == self.bot_pos);
    }

    /// Starts the next round with fresh positions.
    pub fn advance_round(&mut self)
        requires
            old(self).round < u32::MAX,
        ensures
            final(self).round == old(self).round + 1,
            final(self).cols == old(self).cols,
            final(self).rows == old(self).rows,
            final(self).moves_survived == 0,
            valid_spawn(final(self).cols, final(self).rows, final(self).player_pos),
            final(self).bot_pos == opposite_corner(final(self).cols, final(self).rows, final(self).player_pos),
    {
        self.round = self.round + 1;
        self.reset_positions();
    }

    /// Starts over from round 1 with fresh positions.
    pub fn restart(&mut self)
        ensures
            final(self).round == 1,
            final(self).cols == old(self).cols,
            final(self).rows == old(self).rows,
            final(self).moves_survived == 0,
            valid_spawn(final(self).cols, final(self).rows, final(self).player_pos),
            final(self).bot_pos == opposite_corner(final(self).cols, final(self).rows, final(self).player_pos),
    {
        self.round = 1;
        self.reset_positions();
    }

    fn reset_positions(&mut self)
        ensures
            final(self).round == old(self).round,
            final(self).cols == old(self).cols,
            final(self).rows == old(self).rows,
            final(self).moves_survived == 0,
            valid_spawn(final(self).cols, final(self).rows, final(self).player_pos),
            final(self).bot_pos == opposite_corner(final(self).cols, final(self).rows, final(self).player_pos),
    {
        let (player_pos, bot_pos) = Self::spawn_positions(self.cols, self.rows);
        self.player_pos = player_pos;
        self.bot_pos = bot_pos;
        self.moves_survived = 0;
    }
}

/// The direction of the bot's pursuing step from `bot`, or `None` when no step stays on
/// the grid.
fn best_direction(bot: Position, player: Position, cols: u16, rows: u16) -> (r: Option<Direction>)
    requires
        bot.x < u16::MAX,
        bot.y < u16::MAX,
    ensures
        r == best_step(bot, player, cols, rows),
{
    let mut best: Option<(Direction, u32)> = None;
    let mut i: usize = 0;
    while i < 4
        invariant
            i <= 4,
            bot.x < u16::MAX,
            bot.y < u16::MAX,
            match best {
                None => best_among(bot, player, cols, rows, i as nat) is None,
                Some(b) => best_among(bot, player, cols, rows, i as nat) == Some((b.0, b.1 as nat)),
            },
        decreases 4 - i,
    {
        let dir = if i == 0 {
            Direction::Up
        } else if i == 1 {
            Direction::Down
        } else if i == 2 {
            Direction::Left
        } else {
            Direction::Right
        };
        if let Some(p) = bot.neighbor(dir) {
            if p.x < cols && p.y < rows {
                let dist = p.manhattan_distance(player);
                match best {
                    None => {
                        best = Some((dir, dist));
                    },
                    Some(b) => {
                        if dist < b.1 {
                            best = Some((dir, dist));
                        }
                    },
                }
            }
        }
        i = i + 1;
    }
    match best {
        Some(b) => Some(b.0),
        None => None,
    }
}

/// The directions in which the bot can step from `bot` without leaving the grid, in the
/// order Up, Down, Left, Right.
pub fn open_dirs(bot: Position, cols: u16, rows: u16) -> (r: Vec<Direction>)
    requires
        bot.x < u16::MAX,
        bot.y < u16::MAX,
    ensures
        r@ == open_directions(bot, cols, rows),
{
    let mut r: Vec<Direction> = Vec::new();
    let mut i: usize = 0;
    while i < 4
        invariant
            i <= 4,
            bot.x < u16::MAX,
            bot.y < u16::MAX,
            r@ == if i == 0 {
                seq![]
            } else if i == 1 {
                dir_if(open_step(bot, cols, rows, Direction::Up), Direction::Up)
            } else if i == 2 {
                dir_if(open_step(bot, cols, rows, Direction::Up), Direction::Up) + dir_if(
                    open_step(bot, cols, rows, Direction::Down),
                    Direction::Down,
                )
            } else if i == 3 {
                dir_if(open_step(bot, cols, rows, Direction::Up), Direction::Up) + dir_if(
                    open_step(bot, cols, rows, Direction::Down),
                    Direction::Down,
                ) + dir_if(open_step(bot, cols, rows, Direction::Left), Direction::Left)
            } else {
                open_directions(bot, cols, rows)
            },
        decreases 4 - i,
    {
        let dir = if i == 0 {
            Direction::Up
        } else if i == 1 {
            Direction::Down
        } else if i == 2 {
            Direction::Left
        } else {
            Direction::Right
        };
        let ghost before = r@;
        if let Some(p) = bot.neighbor(dir) {
            if p.x < cols && p.y < rows {
                r.push(dir);
            }
        }
        assert(r@ == before + dir_if(open_step(bot, cols, rows, dir), dir));
        i = i + 1;
    }
    r
}

/// Where one step of the bot from `bot` ends for the draw `draw`: `None` pursues the
/// player, `Some(i)` wanders to open direction number `i`, counted round their number.
pub fn bot_step_for(bot: Position, player: Position, cols: u16, rows: u16, draw: Option<usize>) -> (p: Position)
    requires
        bot.x < u16::MAX,
        bot.y < u16::MAX,
    ensures
        p == bot_next(bot, player, cols, rows, draw),
{
    let dir = match draw {
        None => best_direction(bot, player, cols, rows),
        Some(i) => {
            let open = open_dirs(bot, cols, rows);
            if open.len() == 0 {
                None
            } else {
                Some(open[i % open.len()])
            }
        },
    };
    match dir {
        Some(d) => match bot.neighbor(d) {
            Some(p) => p,
            None => bot,
        },
        None => bot,
    }
}

/// The draw for one step of the bot, given the coin drawn for that step among 4 (`coin`
/// is `Some(k)` with `k < 4`): on a coin of 0 the bot wanders, and a random open
/// direction is drawn; on any other coin it pursues.
fn draw_bot_step(coin: Option<usize>, bot: Position, cols: u16, rows: u16) -> (d: Option<usize>)
    requires
        bot.x < u16::MAX,
        bot.y < u16::MAX,
    ensures
        coin != Some(0usize) ==> d is None,
        coin == Some(0usize) && open_directions(bot, cols, rows).len() > 0 ==> d is Some,
        d matches Some(i) ==> i < open_directions(bot, cols, rows).len(),
{
    match coin {
        Some(0) => {
            let open = open_dirs(bot, cols, rows);
            random_index(open.len())
        },
        _ => None,
    }
}

/// The corner where the player appears for the random draws `draw_x` and `draw_y`.
pub fn player_spawn_for(cols: u16, rows: u16, draw_x: u16, draw_y: u16) -> (p: Position)
    ensures
        p == (Position { x: corner_for(cols, draw_x), y: corner_for(rows, draw_y) }),
        valid_spawn(cols, rows, p),
{
    let x = if cols == 0 {
        0
    } else if draw_x < cols / 2 {
        0
    } else {
        cols - 1
    };
    let y = if rows == 0 {
        0
    } else if draw_y < rows / 2 {
        0
    } else {
        rows - 1
    };
    Position::new(x, y)
}

/// The corner where the bot appears for a player standing on `player`.
pub fn bot_spawn_for(cols: u16, rows: u16, player: Position) -> (b: Position)
    ensures
        b == spawn_corner(cols, rows, player),
{
    let bx = if player.x < cols / 2 { cols - 1 } else { 0 };
    let by = if player.y < rows / 2 { rows - 1 } else { 0 };
    Position::new(bx, by)
}

/// A bot that has reached the player stays there, whatever further draws come.
pub proof fn lemma_walk_stays_at_player(
    bot: Position,
    player: Position,
    cols: u16,
    rows: u16,
    draws: Seq<Option<usize>>,
    more: Seq<Option<usize>>,
)
    requires
        bot_walk(bot, player, cols, rows, draws) == player,
    ensures
        bot_walk(bot, player, cols, rows, draws + more) == player,
    decreases more.len(),
{
    if more.len() == 0 {
        assert(draws + more =~= draws);
    } else {
        lemma_walk_stays_at_player(bot, player, cols, rows, draws, more.drop_last());
        assert((draws + more).drop_last() =~= draws + more.drop_last());
    }
}

/// Every open direction leads onto the grid.
proof fn lemma_open_directions(bot: Position, cols: u16, rows: u16)
    ensures
        forall|k: int|
            0 <= k < open_directions(bot, cols, rows).len() ==> open_step(
                bot,
                cols,
                rows,
                #[trigger] open_directions(bot, cols, rows)[k],
            ),
{
    let u = dir_if(open_step(bot, cols, rows, Direction::Up), Direction::Up);
    let d = dir_if(open_step(bot, cols, rows, Direction::Down), Direction::Down);
    let l = dir_if(open_step(bot, cols, rows, Direction::Left), Direction::Left);
    let r = dir_if(open_step(bot, cols, rows, Direction::Right), Direction::Right);
    let all = open_directions(bot, cols, rows);
    assert forall|k: int| 0 <= k < all.len() implies open_step(bot, cols, rows, #[trigger] all[k]) by {
        let ud = u + d;
        let udl = ud + l;
        assert(all == udl + r);
        if k < udl.len() {
            assert(all[k] == udl[k]);
            if k < ud.len() {
                assert(udl[k] == ud[k]);
                if k < u.len() {
                    assert(ud[k] == u[k]);
                } else {
                    assert(ud[k] == d[k - u.len()]);
                }
            } else {
                assert(udl[k] == l[k - ud.len()]);
            }
        } else {
            assert(all[k] == r[k - udl.len()]);
        }
    }
}

/// A step of the bot either leaves it where it is or takes it to a neighbouring cell of
/// the grid.
proof fn lemma_open_steps_stay(bot: Position, player: Position, cols: u16, rows: u16, draw: Option<usize>)
    requires
        bot.x < u16::MAX,
        bot.y < u16::MAX,
    ensures
        bot_next(bot, player, cols, rows, draw) == bot || (in_grid(bot_next(bot, player, cols, rows, draw), cols, rows)
            && bot.distance(bot_next(bot, player, cols, rows, draw)) == 1),
{
    lemma_open_directions(bot, cols, rows);
    lemma_best_among_min(bot, player, cols, rows, 4);
    match bot_direction(bot, player, cols, rows, draw) {
        Some(d) => {
            assert(open_step(bot, cols, rows, d)) by {
                match draw {
                    None => {
                        let b = best_among(bot, player, cols, rows, 4)->0;
                        assert(approach(bot, player, cols, rows, b.0) is Some);
                    },
                    Some(i) => {
                        let open = open_directions(bot, cols, rows);
                        let k = i as int % open.len() as int;
                        assert(0 <= k < open.len());
                        assert(open_step(bot, cols, rows, open[k]));
                    },
                }
            }
            assert(d == Direction::Up || d == Direction::Down || d == Direction::Left || d == Direction::Right);
        },
        None => {},
    }
}

/// Every direction the bot may take ends at most one cell closer to the player, and the
/// chosen one is at least as close as any other on the grid.
proof fn lemma_best_among_min(bot: Position, player: Position, cols: u16, rows: u16, n: nat)
    requires
        n <= 4,
    ensures
        best_among(bot, player, cols, rows, n) matches Some(b) ==> approach(bot, player, cols, rows, b.0) == Some(b.1),
        forall|i: int| 0 <= i < n && #[trigger] approach(bot, player, cols, rows, dir_at(i)) is Some
            ==> (best_among(bot, player, cols, rows, n) matches Some(b)
                && b.1 <= approach(bot, player, cols, rows, dir_at(i))->0),
    decreases n,
{
    if n > 0 {
        lemma_best_among_min(bot, player, cols, rows, (n - 1) as nat);
    }
}

/// Each step of the bot takes it exactly one cell closer to a player on the grid.
pub proof fn lemma_bot_step_closes_in(bot: Position, player: Position, cols: u16, rows: u16)
    requires
        in_grid(bot, cols, rows),
        in_grid(player, cols, rows),
        bot != player,
    ensures
        best_step(bot, player, cols, rows) matches Some(d) && bot.step(d) matches Some(p)
            && in_grid(p, cols, rows) && p.distance(player) + 1 == bot.distance(player),
{
    lemma_best_among_min(bot, player, cols, rows, 4);
    let toward: int = if player.x > bot.x {
        3
    } else if player.x < bot.x {
        2
    } else if player.y > bot.y {
        1
    } else {
        0
    };
    assert(approach(bot, player, cols, rows, dir_at(toward)) == Some((bot.distance(player) - 1) as nat));
    let b = best_among(bot, player, cols, rows, 4)->0;
    assert(dir_at(0) == Direction::Up && dir_at(1) == Direction::Down);
    assert(dir_at(2) == Direction::Left && dir_at(3) == Direction::Right);
    assert(b.0 == Direction::Up || b.0 == Direction::Down || b.0 == Direction::Left || b.0 == Direction::Right);
}

/// A step without a wandering draw is a pursuit step: it moves the bot to a neighbouring
/// cell of the grid exactly one cell closer to the player, and no wandering step ends
/// closer to the player than it.
pub proof fn lemma_pursuit_step(bot: Position, player: Position, cols: u16, rows: u16, i: usize)
    requires
        in_grid(bot, cols, rows),
        in_grid(player, cols, rows),
        bot != player,
    ensures
        in_grid(bot_next(bot, player, cols, rows, None), cols, rows),
        bot.distance(bot_next(bot, player, cols, rows, None)) == 1,
        bot_next(bot, player, cols, rows, None).distance(player) + 1 == bot.distance(player),
        bot_next(bot, player, cols, rows, None).distance(player) <= bot_next(bot, player, cols, rows, Some(i)).distance(
            player,
        ),
{
    lemma_bot_step_closes_in(bot, player, cols, rows);
    lemma_open_steps_stay(bot, player, cols, rows, None);
    lemma_open_steps_stay(bot, player, cols, rows, Some(i));
    crate::models::lemma_distance_metric(bot, player);
    let w = bot_next(bot, player, cols, rows, Some(i));
    crate::models::lemma_distance_metric(w, player);
    crate::models::lemma_distance_metric(bot, w);
}

/// Whatever the draws, a bot on the grid stays on the grid and gets at most one cell
/// closer to the player per step; a bot that only pursues closes in by exactly one cell per
/// step until it reaches the player.
pub proof fn lemma_bot_walk_distance(bot: Position, player: Position, cols: u16, rows: u16, draws: Seq<Option<usize>>)
    requires
        in_grid(bot, cols, rows),
        in_grid(player, cols, rows),
    ensures
        in_grid(bot_walk(bot, player, cols, rows, draws), cols, rows),
        bot_walk(bot, player, cols, rows, draws).distance(player) >= bot.distance(player) - draws.len(),
        draws == pursuit(draws.len()) ==> bot_walk(bot, player, cols, rows, draws).distance(player) == if bot.distance(
            player,
        ) >= draws.len() {
            bot.distance(player) - draws.len()
        } else {
            0
        },
    decreases draws.len(),
{
    if draws.len() > 0 {
        let rest = draws.drop_last();
        lemma_bot_walk_distance(bot, player, cols, rows, rest);
        if draws == pursuit(draws.len()) {
            assert(rest =~= pursuit(rest.len()));
        }
        let b = bot_walk(bot, player, cols, rows, rest);
        crate::models::lemma_distance_metric(b, player);
        if b != player {
            lemma_open_steps_stay(b, player, cols, rows, draws.last());
            let n = bot_next(b, player, cols, rows, draws.last());
            assert(n.distance(player) >= b.distance(player) - 1);
            if draws == pursuit(draws.len()) {
                assert(draws.last() is None);
                lemma_bot_step_closes_in(b, player, cols, rows);
            }
        }
    }
}

/// A move that stays on the grid keeps both the player and the bot on the grid, whatever
/// the bot draws.
pub proof fn lemma_move_keeps_on_grid(g: ChaseGame, dir: Direction, p: Position, bot: Position)
    requires
        in_grid(g.player_pos, g.cols, g.rows),
        in_grid(g.bot_pos, g.cols, g.rows),
        g.target(dir) == Some(p),
        g.bot_answers(p, bot),
    ensures
        in_grid(p, g.cols, g.rows),
        in_grid(bot, g.cols, g.rows),
{
    let draws = choose|draws: Seq<Option<usize>>|
        draws.len() == bot_steps(g.round) && #[trigger] bot_walk(g.bot_pos, p, g.cols, g.rows, draws) == bot;
    lemma_bot_walk_distance(g.bot_pos, p, g.cols, g.rows, draws);
}

/// The bot catches the player who moved to `p` only when it started no more cells away
/// from `p` than it may step this round; a bot that only pursues catches the player
/// exactly then.
pub proof fn lemma_caught_only_within_reach(g: ChaseGame, dir: Direction, p: Position, bot: Position)
    requires
        in_grid(g.player_pos, g.cols, g.rows),
        in_grid(g.bot_pos, g.cols, g.rows),
        g.round >= 1,
        g.target(dir) == Some(p),
        g.bot_answers(p, bot),
    ensures
        bot == p ==> g.bot_pos.distance(p) <= bot_steps(g.round),
        (bot_walk(g.bot_pos, p, g.cols, g.rows, pursuit(bot_steps(g.round) as nat)) == p) <==> g.bot_pos.distance(p)
            <= bot_steps(g.round),
{
    let draws = choose|draws: Seq<Option<usize>>|
        draws.len() == bot_steps(g.round) && #[trigger] bot_walk(g.bot_pos, p, g.cols, g.rows, draws) == bot;
    lemma_bot_walk_distance(g.bot_pos, p, g.cols, g.rows, draws);
    crate::models::lemma_distance_metric(bot, p);
    let chase = pursuit(bot_steps(g.round) as nat);
    lemma_bot_walk_distance(g.bot_pos, p, g.cols, g.rows, chase);
    crate::models::lemma_distance_metric(bot_walk(g.bot_pos, p, g.cols, g.rows, chase), p);
}

/// Each round asks for five more survived moves, and every second round the bot takes
/// one more step per move.
pub proof fn lemma_difficulty_grows(round: u32)
    requires
        round >= 1,
    ensures
        round < u32::MAX ==> survival_target((round + 1) as u32) == survival_target(round) + 5,
        round + 2 <= u32::MAX ==> bot_steps((round + 2) as u32) == bot_steps(round) + 1,
        round + 1 <= u32::MAX ==> bot_steps(round) <= bot_steps((round + 1) as u32),
{
}

} // verus!
