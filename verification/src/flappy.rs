use crate::models::Position;
use crate::random::random_in_range;
use vstd::prelude::*;

verus! {

/// What one tick of the runner led to. The old positions let a display erase them.
#[derive(Debug)]
pub enum FlappyMoveResult {
    Moved { old_player: Position, old_pipe_positions: Vec<u16> },
    Collision,
    ScoredPoint { old_player: Position, old_pipe_positions: Vec<u16> },
}

/// Flappy mode: the player falls under gravity, jumps, and must pass through the gaps
/// of pipes that scroll in from the right.
pub struct FlappyGame {
    pub cols: u16,
    pub rows: u16,
    pub player_y: u16,
    pub player_x: u16,
    pub pipes: Vec<Pipe>,
    pub score: u32,
    pub ticks: u32,
}

/// A pipe in column `x`, open over the rows `gap_y - gap_size / 2 ..= gap_y + gap_size / 2`.
pub struct Pipe {
    pub x: u16,
    pub gap_y: u16,
    pub gap_size: u16,
    pub scored: bool,
}

/// `x - 1`, or `0` for `0`.
pub open spec fn dec_sat(x: u16) -> u16 {
    if x == 0 { 0 } else { (x - 1) as u16 }
}

/// `x - y`, or `0` when `y > x`.
pub open spec fn sub_sat(x: u16, y: u16) -> u16 {
    if y > x { 0 } else { (x - y) as u16 }
}

/// A pipe passes the player when it moves to a column left of the player for the first time.
pub open spec fn passes(p: Pipe, player_x: u16) -> bool {
    !p.scored && player_x > dec_sat(p.x)
}

/// A pipe after moving one column to the left.
pub open spec fn shifted(p: Pipe, player_x: u16) -> Pipe {
    Pipe { x: dec_sat(p.x), gap_y: p.gap_y, gap_size: p.gap_size, scored: p.scored || passes(p, player_x) }
}

/// All pipes moved one column to the left, those that reached column 0 dropped, in order.
pub open spec fn advance_pipes(s: Seq<Pipe>, player_x: u16) -> Seq<Pipe>
    decreases s.len(),
{
    if s.len() == 0 {
        seq![]
    } else {
        let rest = advance_pipes(s.drop_last(), player_x);
        let m = shifted(s.last(), player_x);
        if m.x > 0 { rest.push(m) } else { rest }
    }
}

/// Some pipe of `s` passes the player.
pub open spec fn any_passes(s: Seq<Pipe>, player_x: u16) -> bool {
    exists|i: int| 0 <= i < s.len() && #[trigger] passes(s[i], player_x)
}

/// The columns of the pipes of `s`, in order.
pub open spec fn pipe_columns(s: Seq<Pipe>) -> Seq<u16> {
    s.map_values(|p: Pipe| p.x)
}

/// The player's column is the column of pipe `p` or the one before it.
pub open spec fn in_column(p: Pipe, player_x: u16) -> bool {
    player_x >= dec_sat(p.x) && player_x <= p.x
}

/// The player at `(player_x, player_y)` hits pipe `p`: it stands in the pipe's column or
/// the one before, outside the gap.
pub open spec fn hits(p: Pipe, player_x: u16, player_y: u16) -> bool {
    &&& in_column(p, player_x)
    &&& (player_y < sub_sat(p.gap_y, p.gap_size / 2) || player_y > p.gap_y + p.gap_size / 2)
}

/// The player has left the grid at the bottom or hits a pipe.
pub open spec fn collides(player_x: u16, player_y: u16, rows: u16, s: Seq<Pipe>) -> bool {
    player_y >= rows || exists|i: int| 0 <= i < s.len() && #[trigger] hits(s[i], player_x, player_y)
}

/// No pipe of `s` before index `i` hits the player.
pub open spec fn no_hit_before(s: Seq<Pipe>, i: int, player_x: u16, player_y: u16) -> bool {
    forall|j: int| 0 <= j < i ==> !#[trigger] hits(s[j], player_x, player_y)
}

/// The end row of the gap of every pipe that the collision check reaches is representable:
/// the check looks at the pipes in order while the player is on the grid, computes the gap
/// of a pipe in the player's column, and stops at the first pipe that the player hits.
pub open spec fn gap_ends_fit(player_x: u16, player_y: u16, rows: u16, s: Seq<Pipe>) -> bool {
    player_y < rows ==> forall|i: int|
        0 <= i < s.len() && #[trigger] in_column(s[i], player_x) && no_hit_before(s, i, player_x, player_y)
            ==> s[i].gap_y + s[i].gap_size / 2 <= u16::MAX
}

/// The height of the gap of a new pipe: 3 rows, narrowing to 2 from a score of 10 on.
pub open spec fn gap_size_for(score: u32) -> u16 {
    let g = sub_sat(3, (score / 10) as u16);
    if g < 2 { 2 } else { g }
}

/// A gap centre a new pipe may get: a row that leaves room for the gap above and below,
/// or the middle row when there is no such row.
pub open spec fn valid_gap(gap_y: u16, rows: u16, gap_size: u16) -> bool {
    if gap_size < sub_sat(rows, gap_size) {
        gap_size <= gap_y < sub_sat(rows, gap_size)
    } else {
        gap_y == rows / 2
    }
}

/// The pipe that appears at the right edge.
pub open spec fn new_pipe(cols: u16, gap_y: u16, gap_size: u16) -> Pipe {
    Pipe { x: (cols - 1) as u16, gap_y, gap_size, scored: false }
}

impl FlappyGame {
    /// The tick counter after the next tick.
    pub open spec fn next_tick(self) -> int {
        self.ticks + 1
    }

    /// The next tick pulls the player down.
    pub open spec fn falls(self) -> bool {
        self.next_tick() % 3 == 0
    }

    /// The next tick brings a new pipe.
    pub open spec fn spawns(self) -> bool {
        self.next_tick() % 15 == 0
    }

    /// The player's row after the pull of the next tick.
    pub open spec fn fallen_y(self) -> u16 {
        if self.falls() {
            if self.player_y + 1 <= self.rows - 1 {
                (self.player_y + 1) as u16
            } else {
                (self.rows - 1) as u16
            }
        } else {
            self.player_y
        }
    }

    /// The pipes at the start of the next tick's move, with a new pipe whose gap is centred
    /// on `gap_y` when one appears.
    pub open spec fn pipes_before_move(self, gap_y: u16) -> Seq<Pipe> {
        if self.spawns() {
            self@.push(new_pipe(self.cols, gap_y, gap_size_for(self.score)))
        } else {
            self@
        }
    }

    /// With a new pipe whose gap is centred on `gap_y`, the next tick computes the gap end
    /// of each pipe it checks, and the score it may add, without overflow.
    pub open spec fn tick_fits(self, gap_y: u16) -> bool {
        let before = self.pipes_before_move(gap_y);
        let after = advance_pipes(before, self.player_x);
        &&& gap_ends_fit(self.player_x, self.fallen_y(), self.rows, after)
        &&& !collides(self.player_x, self.fallen_y(), self.rows, after) && any_passes(before, self.player_x)
            ==> self.score < u32::MAX
    }

    /// The next tick can run without arithmetic overflow, whatever gap a new pipe gets.
    pub open spec fn can_tick(self) -> bool {
        &&& self.ticks < u32::MAX
        &&& self.falls() ==> self.rows >= 1 && self.player_y < u16::MAX
        &&& self.spawns() ==> self.cols >= 1
        &&& forall|gap_y: u16| valid_gap(gap_y, self.rows, gap_size_for(self.score)) ==> #[trigger] self.tick_fits(gap_y)
    }

    /// The state after the next tick, when a new pipe gets its gap centred on `gap_y`.
    pub open spec fn ticked_to(self, gap_y: u16, next: FlappyGame) -> bool {
        let before = self.pipes_before_move(gap_y);
        let after = advance_pipes(before, self.player_x);
        &&& next.cols == self.cols
        &&& next.rows == self.rows
        &&& next.player_x == self.player_x
        &&& next.ticks == self.next_tick()
        &&& next.player_y == self.fallen_y()
        &&& next@ == after
        &&& collides(self.player_x, self.fallen_y(), self.rows, after) ==> next.score == self.score
        &&& !collides(self.player_x, self.fallen_y(), self.rows, after) ==> next.score == if any_passes(
            before,
            self.player_x,
        ) {
            self.score + 1
        } else {
            self.score as int
        }
    }

    /// The state and result of the next tick, when a new pipe gets its gap centred on `gap_y`.
    pub open spec fn ticked(self, gap_y: u16, next: FlappyGame, r: FlappyMoveResult) -> bool {
        let before = self.pipes_before_move(gap_y);
        let after = advance_pipes(before, self.player_x);
        let old_player = Position { x: self.player_x, y: self.player_y };
        &&& self.ticked_to(gap_y, next)
        &&& collides(self.player_x, self.fallen_y(), self.rows, after) ==> r is Collision
            && next.score == self.score
        &&& !collides(self.player_x, self.fallen_y(), self.rows, after) && any_passes(before, self.player_x)
            ==> next.score == self.score + 1 && (r matches FlappyMoveResult::ScoredPoint {
            old_player: op,
            old_pipe_positions: xs,
        } && op == old_player && xs@ == pipe_columns(self@))
        &&& !collides(self.player_x, self.fallen_y(), self.rows, after) && !any_passes(before, self.player_x)
            ==> next.score == self.score && (r matches FlappyMoveResult::Moved {
            old_player: op,
            old_pipe_positions: xs,
        } && op == old_player && xs@ == pipe_columns(self@))
    }

    /// The pipes, as a sequence.
    pub open spec fn view(self) -> Seq<Pipe> {
        self.pipes@
    }

    /// A new game: the player in the middle row, a quarter of the way across, no pipes.
    pub fn new(cols: u16, rows: u16) -> (g: Self)
        ensures
            g.cols == cols,
            g.rows == rows,
            g.player_y == rows / 2,
            g.player_x == cols / 4,
            g@ == Seq::<Pipe>::empty(),
            g.score == 0,
            g.ticks == 0,
    {
        Self { cols, rows, player_y: rows / 2, player_x: cols / 4, pipes: Vec::new(), score: 0, ticks: 0 }
    }

    pub fn player_pos(&self) -> (p: Position)
        ensures
            p == (Position { x: self.player_x, y: self.player_y }),
    {
        Position::new(self.player_x, self.player_y)
    }

    /// Milliseconds per tick: 150, minus 5 per point, but at least 80.
    pub fn tick_ms(&self) -> (ms: u64)
        ensures
            ms == if 150 - 5 * self.score >= 80 { 150 - 5 * self.score } else { 80 },
    {
        let slowed = 150u64.saturating_sub(self.score as u64 * 5);
        if slowed >= 80 { slowed } else { 80 }
    }

    /// Moves the player up two rows, but not above the first row.
    pub fn jump(&mut self)
        ensures
            final(self).player_y == sub_sat(old(self).player_y, 2),
            final(self).player_x == old(self).player_x,
            final(self).cols == old(self).cols,
            final(self).rows == old(self).rows,
            final(self)@ == old(self)@,
            final(self).score == old(self).score,
            final(self).ticks == old(self).ticks,
    {
        self.player_y = self.player_y.saturating_sub(2);
    }

    /// Advances the game by one tick: gravity every third tick, a new pipe every fifteenth,
    /// every pipe one column to the left, then the collision check and the score.
    pub fn tick(&mut self) -> (r: FlappyMoveResult)
        requires
            old(self).can_tick(),
        ensures
            exists|gap_y: u16|
                valid_gap(gap_y, old(self).rows, gap_size_for(old(self).score)) && #[trigger] old(
                    self,
                ).ticked(gap_y, *final(self), r),
    {
        let ghost start = *self;
        let old_player = self.player_pos();
        let old_pipe_positions = self.pipe_columns();

        self.ticks = self.ticks + 1;

        if self.ticks % 3 == 0 {
            let lower = self.player_y + 1;
            self.player_y = if lower <= self.rows - 1 { lower } else { self.rows - 1 };
        }

        let ghost mut gap: u16 = if gap_size_for(start.score) < sub_sat(start.rows, gap_size_for(start.score)) {
            gap_size_for(start.score)
        } else {
            start.rows / 2
        };
        if self.ticks % 15 == 0 {
            self.spawn_pipe();
            proof {
                gap = self@.last().gap_y;
            }
        }
        assert(self@ == start.pipes_before_move(gap));

        let scored = self.move_pipes();

        assert(valid_gap(gap, start.rows, gap_size_for(start.score)));
        assert(start.tick_fits(gap));
        assert(self.ticks == start.next_tick());
        assert(self.player_y == start.fallen_y());
        assert(self@ == advance_pipes(start.pipes_before_move(gap), start.player_x));
        if self.check_collision() {
            let r = FlappyMoveResult::Collision;
            assert(start.ticked(gap, *self, r));
            return r;
        }
        if scored {
            self.score = self.score + 1;
            let r = FlappyMoveResult::ScoredPoint { old_player, old_pipe_positions };
            assert(start.ticked(gap, *self, r));
            r
        } else {
            let r = FlappyMoveResult::Moved { old_player, old_pipe_positions };
            assert(start.ticked(gap, *self, r));
            r
        }
    }

    /// The columns of the pipes, in order.
    fn pipe_columns(&self) -> (xs: Vec<u16>)
        ensures
            xs@ == pipe_columns(self@),
    {
        let mut xs: Vec<u16> = Vec::new();
        let mut i: usize = 0;
        while i < self.pipes.len()
            invariant
                i <= self.pipes.len(),
                xs@ == pipe_columns(self@.take(i as int)),
            decreases self.pipes.len() - i,
        {
            xs.push(self.pipes[i].x);
            assert(self@.take(i + 1) == self@.take(i as int).push(self@[i as int]));
            i = i + 1;
        }
        assert(self@.take(i as int) == self@);
        xs
    }

    /// Moves every pipe one column to the left, marks the pipes that pass the player and
    /// drops those that reach column 0; tells whether some pipe passed the player.
    fn move_pipes(&mut self) -> (scored: bool)
        ensures
            final(self)@ == advance_pipes(old(self)@, old(self).player_x),
            scored == any_passes(old(self)@, old(self).player_x),
            final(self).cols == old(self).cols,
            final(self).rows == old(self).rows,
            final(self).player_x == old(self).player_x,
            final(self).player_y == old(self).player_y,
            final(self).score == old(self).score,
            final(self).ticks == old(self).ticks,
    {
        let mut kept: Vec<Pipe> = Vec::new();
        let mut scored = false;
        let mut i: usize = 0;
        while i < self.pipes.len()
            invariant
                i <= self.pipes.len(),
                kept@ == advance_pipes(self@.take(i as int), self.player_x),
                scored == any_passes(self@.take(i as int), self.player_x),
            decreases self.pipes.len() - i,
        {
            let p = &self.pipes[i];
            let x = p.x.saturating_sub(1);
            let mut mark = p.scored;
            if !p.scored && self.player_x > x {
                mark = true;
                scored = true;
            }
            if x > 0 {
                kept.push(Pipe { x, gap_y: p.gap_y, gap_size: p.gap_size, scored: mark });
            }
            proof {
                let t = self@.take(i + 1);
                assert(t.drop_last() == self@.take(i as int));
                assert(t.last() == self@[i as int]);
                if passes(self@[i as int], self.player_x) {
                    assert(passes(t[i as int], self.player_x));
                }
                if any_passes(self@.take(i as int), self.player_x) {
                    let j = choose|j: int| 0 <= j < i && #[trigger] passes(self@.take(i as int)[j], self.player_x);
                    assert(passes(t[j], self.player_x));
                }
            }
            i = i + 1;
        }
        assert(self@.take(i as int) == self@);
        self.pipes = kept;
        scored
    }

    /// Whether the player has left the grid at the bottom or hits a pipe.
    fn check_collision(&self) -> (c: bool)
        requires
            gap_ends_fit(self.player_x, self.player_y, self.rows, self@),
        ensures
            c == collides(self.player_x, self.player_y, self.rows, self@),
    {
        if self.player_y >= self.rows {
            return true;
        }
        let mut i: usize = 0;
        while i < self.pipes.len()
            invariant
                i <= self.pipes.len(),
                gap_ends_fit(self.player_x, self.player_y, self.rows, self@),
                self.player_y < self.rows,
                no_hit_before(self@, i as int, self.player_x, self.player_y),
            decreases self.pipes.len() - i,
        {
            let pipe = &self.pipes[i];
            if self.player_x >= pipe.x.saturating_sub(1) && self.player_x <= pipe.x {
                assert(in_column(self@[i as int], self.player_x));
                let gap_start = pipe.gap_y.saturating_sub(pipe.gap_size / 2);
                let gap_end = pipe.gap_y + pipe.gap_size / 2;
                if self.player_y < gap_start || self.player_y > gap_end {
                    assert(hits(self@[i as int], self.player_x, self.player_y));
                    return true;
                }
            }
            i = i + 1;
        }
        false
    }

    /// Adds a pipe at the right edge with its gap centred on a random row that leaves room
    /// for the gap above and below.
    fn spawn_pipe(&mut self)
        requires
            old(self).cols >= 1,
        ensures
            valid_gap(final(self)@.last().gap_y, old(self).rows, gap_size_for(old(self).score)),
            final(self)@ == old(self)@.push(
                new_pipe(old(self).cols, final(self)@.last().gap_y, gap_size_for(old(self).score)),
            ),
            final(self).cols == old(self).cols,
            final(self).rows == old(self).rows,
            final(self).player_x == old(self).player_x,
            final(self).player_y == old(self).player_y,
            final(self).score == old(self).score,
            final(self).ticks == old(self).ticks,
    {
        let gap_size = self.gap_size();
        let gap_y = match random_in_range(gap_size, self.rows.saturating_sub(gap_size)) {
            Some(y) => y,
            None => self.rows / 2,
        };
        self.push_pipe(gap_y);
    }

    /// The height of the gap of the next pipe.
    pub fn gap_size(&self) -> (g: u16)
        ensures
            g == gap_size_for(self.score),
    {
        let g = 3u16.saturating_sub((self.score / 10) as u16);
        if g < 2 { 2 } else { g }
    }

    /// Adds a pipe at the right edge with its gap centred on row `gap_y`.
    pub fn push_pipe(&mut self, gap_y: u16)
        requires
            old(self).cols >= 1,
        ensures
            final(self)@ == old(self)@.push(new_pipe(old(self).cols, gap_y, gap_size_for(old(self).score))),
            final(self).cols == old(self).cols,
            final(self).rows == old(self).rows,
            final(self).player_x == old(self).player_x,
            final(self).player_y == old(self).player_y,
            final(self).score == old(self).score,
            final(self).ticks == old(self).ticks,
    {
        let gap_size = self.gap_size();
        self.pipes.push(Pipe { x: self.cols - 1, gap_y, gap_size, scored: false });
    }

    /// A new game on the same grid.
    pub fn restart(&mut self)
        ensures
            final(self).cols == old(self).cols,
            final(self).rows == old(self).rows,
            final(self).player_y == old(self).rows / 2,
            final(self).player_x == old(self).cols / 4,
            final(self)@ == Seq::<Pipe>::empty(),
            final(self).score == 0,
            final(self).ticks == 0,
    {
        let cols = self.cols;
        let rows = self.rows;
        *self = Self::new(cols, rows);
    }
}

/// After the pipes move, every pipe on the screen lies right of column 0, and every pipe
/// left of the player has been counted, so that no pipe scores twice.
pub proof fn lemma_moved_pipes(s: Seq<Pipe>, player_x: u16)
    ensures
        forall|i: int| 0 <= i < advance_pipes(s, player_x).len() ==> (#[trigger] advance_pipes(s, player_x)[i]).x > 0,
        forall|i: int|
            0 <= i < advance_pipes(s, player_x).len() && (#[trigger] advance_pipes(s, player_x)[i]).x < player_x
                ==> advance_pipes(s, player_x)[i].scored,
    decreases s.len(),
{
    if s.len() > 0 {
        lemma_moved_pipes(s.drop_last(), player_x);
        let rest = advance_pipes(s.drop_last(), player_x);
        let m = shifted(s.last(), player_x);
        if m.x > 0 {
            assert forall|i: int| 0 <= i < rest.push(m).len() implies (#[trigger] rest.push(m)[i]).x > 0 by {
                if i < rest.len() {
                    assert(rest.push(m)[i] == rest[i]);
                }
            }
            assert forall|i: int| 0 <= i < rest.push(m).len() && (#[trigger] rest.push(m)[i]).x < player_x implies rest.push(
                m,
            )[i].scored by {
                if i < rest.len() {
                    assert(rest.push(m)[i] == rest[i]);
                }
            }
        }
    }
}

/// A pipe blocks its column and the one before it symmetrically above and below the
/// centre of its gap: the centre row is free, a row `d` above the centre is blocked exactly
/// when the row `d` below it is, and exactly when `d` exceeds half the gap's height.
/// Outside these two columns the pipe blocks nothing.
pub proof fn lemma_pipe_blocks_both_sides(p: Pipe, player_x: u16, d: u16)
    requires
        d <= p.gap_y,
        p.gap_y + d <= u16::MAX,
    ensures
        !hits(p, player_x, p.gap_y),
        in_column(p, player_x) ==> (hits(p, player_x, (p.gap_y - d) as u16) <==> d > p.gap_size / 2),
        in_column(p, player_x) ==> (hits(p, player_x, (p.gap_y + d) as u16) <==> d > p.gap_size / 2),
        !in_column(p, player_x) ==> !hits(p, player_x, (p.gap_y - d) as u16) && !hits(
            p,
            player_x,
            (p.gap_y + d) as u16,
        ),
{
}

/// A pipe that has been counted does not score again.
pub proof fn lemma_counted_pipe_never_scores(p: Pipe, player_x: u16)
    requires
        p.scored,
    ensures
        !passes(p, player_x),
        shifted(p, player_x).scored,
{
}

/// The tick gets shorter by 5 ms per point down to 80 ms and never grows back as the
/// score rises; the gap of new pipes is 3 rows below a score of 10 and 2 rows from there
/// on (as long as the score divided by 10 fits 16 bits), and always 2 or 3 rows.
pub proof fn lemma_flappy_gets_harder(a: u32, b: u32)
    requires
        a <= b,
    ensures
        (if 150 - 5 * b >= 80 { 150 - 5 * b } else { 80 }) <= (if 150 - 5 * a >= 80 { 150 - 5 * a } else { 80 }),
        a < 655360 ==> gap_size_for(a) == (if a < 10 { 3u16 } else { 2u16 }),
        2 <= gap_size_for(b) <= 3,
{
}

} // verus!
