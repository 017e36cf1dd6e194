use crate::models::{Direction, Position, in_grid, lemma_step_direction_agree, no_repeats};
use crate::random::{random_below_or_zero, random_index};
use vstd::prelude::*;

verus! {

/// How many random walks are tried before path generation gives up.
pub const MAX_PATH_ATTEMPTS: u32 = 1000;

/// The answer to one move of the player while reproducing the path.
#[derive(Debug, PartialEq, Eq, Structural)]
pub enum MoveResult {
    Correct(Position),
    RoundComplete,
    Wrong,
}

/// Path generation ran out of attempts without finding a walk of the requested length.
#[derive(Debug, PartialEq, Eq, Structural)]
pub enum PathError {
    AttemptsExhausted,
}

impl PathError {
    /// A human-readable description of the error.
    pub fn message(&self) -> (m: String)
        ensures
            m@ == "failed to generate a valid path after 1000 attempts"@,
    {
        String::from_str("failed to generate a valid path after 1000 attempts")
    }
}

/// Path mode: a path is shown, then the player has to walk it from memory; each round
/// the path grows by one move.
pub struct Game {
    pub round: u32,
    pub cols: u16,
    pub rows: u16,
    pub path: Vec<Position>,
    pub player_index: usize,
}

/// A cell where a path may start: on the grid, or column (row) 0 of a grid without
/// columns (rows).
pub open spec fn valid_start(cols: u16, rows: u16, p: Position) -> bool {
    &&& (cols > 0 ==> p.x < cols)
    &&& (cols == 0 ==> p.x == 0)
    &&& (rows > 0 ==> p.y < rows)
    &&& (rows == 0 ==> p.y == 0)
}

/// A path of `len` cells: it starts on a valid cell, continues on the grid, visits no
/// cell twice, and each cell is a neighbour of the one before.
pub open spec fn valid_path(path: Seq<Position>, cols: u16, rows: u16, len: int) -> bool {
    &&& path.len() == len
    &&& len > 0 ==> valid_start(cols, rows, path[0])
    &&& forall|i: int| 1 <= i < path.len() ==> in_grid(#[trigger] path[i], cols, rows)
    &&& no_repeats(path)
    &&& forall|i: int| 0 <= i < path.len() - 1 ==> (#[trigger] path[i]).direction_towards(path[i + 1]) is Some
}

/// The cell reached from `current` towards `d`, if it is on the grid and not yet visited.
pub open spec fn candidate(cols: u16, rows: u16, visited: Seq<Position>, current: Position, d: Direction) -> Option<Position> {
    match current.step(d) {
        Some(p) => if in_grid(p, cols, rows) && !visited.contains(p) {
            Some(p)
        } else {
            None
        },
        None => None,
    }
}

/// The cells of an option, as a sequence.
pub open spec fn option_seq(o: Option<Position>) -> Seq<Position> {
    match o {
        Some(p) => seq![p],
        None => seq![],
    }
}

/// The cells a path may continue to from `current`, in the order Up, Down, Left, Right.
pub open spec fn candidates(cols: u16, rows: u16, visited: Seq<Position>, current: Position) -> Seq<Position> {
    option_seq(candidate(cols, rows, visited, current, Direction::Up)) + option_seq(
        candidate(cols, rows, visited, current, Direction::Down),
    ) + option_seq(candidate(cols, rows, visited, current, Direction::Left)) + option_seq(
        candidate(cols, rows, visited, current, Direction::Right),
    )
}

/// `a - b`, or `0` when `b > a`.
pub open spec fn sat_sub(a: int, b: int) -> int {
    if b > a { 0 } else { a - b }
}

/// Milliseconds per step of the path preview in a round.
pub open spec fn preview_step_for(round: u32) -> int {
    if sat_sub(700, 30 * round) >= 200 { sat_sub(700, 30 * round) } else { 200 }
}

/// Milliseconds the whole path stays shown in a round.
pub open spec fn preview_hold_for(round: u32) -> int {
    if sat_sub(2000, 100 * round) >= 500 { sat_sub(2000, 100 * round) } else { 500 }
}

impl Game {
    /// The player may still move: there is a next cell on the path.
    pub open spec fn in_progress(self) -> bool {
        self.player_index + 1 < self.path@.len()
    }

    /// A new game in round 1 with no path yet.
    pub fn new(cols: u16, rows: u16) -> (g: Self)
        ensures
            g.round == 1,
            g.cols == cols,
            g.rows == rows,
            g.path@ == Seq::<Position>::empty(),
            g.player_index == 0,
    {
        Self { round: 1, cols, rows, path: Vec::new(), player_index: 0 }
    }

    /// The number of moves of this round's path: two more than the round.
    pub fn move_count(&self) -> (n: u32)
        requires
            self.round <= u32::MAX - 2,
        ensures
            n == self.round + 2,
    {
        2 + self.round
    }

    /// Milliseconds per step of the preview: 700, minus 30 per round, but at least 200.
    pub fn preview_step_ms(&self) -> (ms: u64)
        ensures
            ms == preview_step_for(self.round),
    {
        let t = 700u64.saturating_sub(self.round as u64 * 30);
        if t >= 200 { t } else { 200 }
    }

    /// Milliseconds the whole path stays shown: 2000, minus 100 per round, but at least 500.
    pub fn preview_hold_ms(&self) -> (ms: u64)
        ensures
            ms == preview_hold_for(self.round),
    {
        let t = 2000u64.saturating_sub(self.round as u64 * 100);
        if t >= 500 { t } else { 500 }
    }

    /// Draws a new random path for this round and puts the player at its start.
    /// On error nothing changes.
    pub fn generate_path(&mut self) -> (r: Result<(), PathError>)
        requires
            old(self).round <= u32::MAX - 2,
        ensures
            final(self).round == old(self).round,
            final(self).cols == old(self).cols,
            final(self).rows == old(self).rows,
            r is Ok ==> valid_path(final(self).path@, old(self).cols, old(self).rows, old(self).round + 3)
                && final(self).player_index == 0,
            walk_cannot_stick(old(self).cols, old(self).rows, (old(self).round + 2) as u32) ==> r is Ok,
            r is Err ==> attempts_stuck(old(self).cols, old(self).rows, (old(self).round + 2) as u32),
            r is Err ==> final(self).path@ == old(self).path@ && final(self).player_index == old(
                self,
            ).player_index,
    {
        let path = create_path(self.cols, self.rows, self.move_count())?;
        self.path = path;
        self.player_index = 0;
        Ok(())
    }

    /// The first cell of the path.
    pub fn start_position(&self) -> (p: Position)
        requires
            self.path@.len() > 0,
        ensures
            p == self.path@[0],
    {
        self.path[0]
    }

    /// The cells the player has yet to reach.
    pub fn remaining_path(&self) -> (s: &[Position])
        requires
            self.player_index < self.path@.len(),
        ensures
            s@ == self.path@.subrange(self.player_index + 1, self.path@.len() as int),
    {
        let all = self.path.as_slice();
        let end = all.len();
        let start = self.player_index + 1;
        &all[start..end]
    }

    /// Checks one move of the player against the path.
    ///
    /// The right direction advances the player; reaching the last cell completes the
    /// round. A wrong direction changes nothing.
    pub fn check_move(&mut self, direction: Direction) -> (r: MoveResult)
        requires
            old(self).in_progress(),
        ensures
            final(self).round == old(self).round,
            final(self).cols == old(self).cols,
            final(self).rows == old(self).rows,
            final(self).path@ == old(self).path@,
            ({
                let i = old(self).player_index as int;
                let path = old(self).path@;
                if path[i].direction_towards(path[i + 1]) == Some(direction) {
                    &&& final(self).player_index == i + 1
                    &&& i + 1 >= path.len() - 1 ==> r == MoveResult::RoundComplete
                    &&& i + 1 < path.len() - 1 ==> r == MoveResult::Correct(path[i + 1])
                } else {
                    r == MoveResult::Wrong && final(self).player_index == i
                }
            }),
    {
        let len = self.path.len();
        let current = self.path[self.player_index];
        let expected = self.path[self.player_index + 1];

        if current.direction_to(expected) == Some(direction) {
            self.player_index = self.player_index + 1;
            if self.player_index >= len - 1 {
                MoveResult::RoundComplete
            } else {
                MoveResult::Correct(expected)
            }
        } else {
            MoveResult::Wrong
        }
    }

    pub fn advance_round(&mut self)
        requires
            old(self).round < u32::MAX,
        ensures
            final(self).round == old(self).round + 1,
            final(self).cols == old(self).cols,
            final(self).rows == old(self).rows,
            final(self).path@ == old(self).path@,
            final(self).player_index == old(self).player_index,
    {
        self.round = self.round + 1;
    }
}

/// Whether `path` holds cell `p`.
pub fn path_contains(path: &Vec<Position>, p: Position) -> (r: bool)
    ensures
        r == path@.contains(p),
{
    let mut i: usize = 0;
    while i < path.len()
        invariant
            i <= path@.len(),
            forall|j: int| 0 <= j < i ==> path@[j] != p,
        decreases path@.len() - i,
    {
        if path[i] == p {
            return true;
        }
        i = i + 1;
    }
    false
}

/// The cells a path may continue to from `current`: the neighbours on the grid that it
/// has not visited, in the order Up, Down, Left, Right.
pub fn path_candidates(cols: u16, rows: u16, visited: &Vec<Position>, current: Position) -> (r: Vec<Position>)
    requires
        current.x < u16::MAX,
        current.y < u16::MAX,
    ensures
        r@ == candidates(cols, rows, visited@, current),
{
    let mut r: Vec<Position> = Vec::new();
    let ghost mut done: Seq<Position> = seq![];
    let mut i: usize = 0;
    while i < 4
        invariant
            i <= 4,
            current.x < u16::MAX,
            current.y < u16::MAX,
            r@ == if i == 0 {
                seq![]
            } else if i == 1 {
                option_seq(candidate(cols, rows, visited@, current, Direction::Up))
            } else if i == 2 {
                option_seq(candidate(cols, rows, visited@, current, Direction::Up)) + option_seq(
                    candidate(cols, rows, visited@, current, Direction::Down),
                )
            } else if i == 3 {
                option_seq(candidate(cols, rows, visited@, current, Direction::Up)) + option_seq(
                    candidate(cols, rows, visited@, current, Direction::Down),
                ) + option_seq(candidate(cols, rows, visited@, current, Direction::Left))
            } else {
                candidates(cols, rows, visited@, current)
            },
        decreases 4 - i,
    {
        let dir = if i == 0 {
            Direction::Up
        } else if i == 1 {
            Direction::Down
        } else if i == 2 {
            Direction::Left
        } else {
            Direction::Right
        };
        let ghost before = r@;
        if let Some(p) = current.neighbor(dir) {
            if p.x < cols && p.y < rows && !path_contains(visited, p) {
                r.push(p);
            }
        }
        assert(r@ == before + option_seq(candidate(cols, rows, visited@, current, dir)));
        i = i + 1;
    }
    r
}

/// A random walk of `moves` moves on a grid of `cols` by `rows` cannot get stuck, whatever
/// cells it chooses: it makes no move; or one move on a grid of two cells or more; or up to
/// three moves on a grid at least two cells wide and high (a cell there has two neighbours,
/// and only the cell it came from can be visited before the fourth cell).
pub open spec fn walk_cannot_stick(cols: u16, rows: u16, moves: u32) -> bool {
    ||| moves == 0
    ||| moves == 1 && cols >= 1 && rows >= 1 && (cols >= 2 || rows >= 2)
    ||| moves <= 3 && cols >= 2 && rows >= 2
}

/// A walk that got stuck before making `moves` moves: a valid path of at most `moves`
/// cells whose last cell has no neighbour on the grid left to visit.
pub open spec fn stuck_walk(cols: u16, rows: u16, moves: u32, w: Seq<Position>) -> bool {
    &&& 1 <= w.len() <= moves
    &&& valid_path(w, cols, rows, w.len() as int)
    &&& candidates(cols, rows, w, w.last()).len() == 0
}

/// Every one of `MAX_PATH_ATTEMPTS` random walks for a path of `moves` moves got stuck.
pub open spec fn attempts_stuck(cols: u16, rows: u16, moves: u32) -> bool {
    exists|walks: Seq<Seq<Position>>|
        walks.len() == MAX_PATH_ATTEMPTS && forall|k: int|
            0 <= k < walks.len() ==> stuck_walk(cols, rows, moves, #[trigger] walks[k])
}

/// Makes one random walk of `moves` steps from `start`; `None` when the walk gets stuck,
/// and then the cells it visited form a stuck walk from `start`.
fn walk_path(cols: u16, rows: u16, moves: u32, start: Position) -> (r: Option<Vec<Position>>)
    requires
        valid_start(cols, rows, start),
    ensures
        r matches Some(p) ==> valid_path(p@, cols, rows, moves + 1) && p@[0] == start,
        r is None ==> exists|w: Seq<Position>| stuck_walk(cols, rows, moves, w) && w[0] == start,
        walk_cannot_stick(cols, rows, moves) ==> r is Some,
{
    let mut path: Vec<Position> = Vec::new();
    path.push(start);
    let mut step: u32 = 0;
    while step < moves
        invariant
            step <= moves,
            valid_path(path@, cols, rows, step + 1),
            path@[0] == start,
        decreases moves - step,
    {
        let current = path[path.len() - 1];
        let options = path_candidates(cols, rows, &path, current);
        match random_index(options.len()) {
            Some(i) => {
                extend_walk(&mut path, &options, cols, rows, i);
            },
            None => {
                proof {
                    if walk_cannot_stick(cols, rows, moves) {
                        lemma_walk_not_stuck(cols, rows, path@, step + 1);
                    }
                    assert(stuck_walk(cols, rows, moves, path@));
                }
                return None;
            },
        }
        step = step + 1;
    }
    Some(path)
}

/// Extends a walk by the candidate numbered `choice`, among the cells it may continue to.
pub fn extend_walk(path: &mut Vec<Position>, options: &Vec<Position>, cols: u16, rows: u16, choice: usize)
    requires
        old(path)@.len() >= 1,
        valid_path(old(path)@, cols, rows, old(path)@.len() as int),
        old(path)@.last().x < u16::MAX,
        old(path)@.last().y < u16::MAX,
        options@ == candidates(cols, rows, old(path)@, old(path)@.last()),
        choice < options@.len(),
    ensures
        final(path)@ == old(path)@.push(options@[choice as int]),
        valid_path(final(path)@, cols, rows, old(path)@.len() + 1 as int),
{
    let next = options[choice];
    proof {
        lemma_candidate_extends(cols, rows, path@, path@.last(), next);
    }
    let ghost before = path@;
    path.push(next);
    proof {
        assert forall|a: int, b: int| 0 <= a < b < path@.len() implies path@[a] != path@[b] by {
            if b == path@.len() - 1 {
                assert(before.contains(path@[a]) ==> path@[a] != next);
                assert(before[a] == path@[a]);
            } else {
                assert(before[a] == path@[a] && before[b] == path@[b]);
            }
        }
        assert forall|a: int| 0 <= a < path@.len() - 1 implies (#[trigger] path@[a]).direction_towards(
            path@[a + 1],
        ) is Some by {
            if a < path@.len() - 2 {
                assert(before[a] == path@[a] && before[a + 1] == path@[a + 1]);
            }
        }
    }
}

/// Where a walk cannot get stuck, its last cell has a candidate to continue to.
proof fn lemma_walk_not_stuck(cols: u16, rows: u16, path: Seq<Position>, len: int)
    requires
        valid_path(path, cols, rows, len),
        1 <= len,
        (len == 1 && cols >= 1 && rows >= 1 && (cols >= 2 || rows >= 2)) || (len <= 3 && cols >= 2
            && rows >= 2),
    ensures
        candidates(cols, rows, path, path[len - 1]).len() > 0,
{
    let c = path[len - 1];
    assert(in_grid(c, cols, rows));
    let h = if c.x + 1 < cols {
        Direction::Right
    } else {
        Direction::Left
    };
    let v = if c.y + 1 < rows {
        Direction::Down
    } else {
        Direction::Up
    };
    let d = if cols >= 2 && rows >= 2 && len >= 2 && c.step(h) == Some(path[len - 2]) {
        v
    } else if cols >= 2 {
        h
    } else {
        v
    };
    let n = c.step(d)->0;
    assert(c.step(d) is Some && in_grid(n, cols, rows));
    assert(c.distance(n) == 1);
    if len == 3 {
        assert(path[0].direction_towards(path[1]) is Some);
        assert(path[1].direction_towards(path[2]) is Some);
        assert(path[0].distance(c) == 2 || path[0] == c);
    }
    assert(!path.contains(n)) by {
        if path.contains(n) {
            let k = choose|k: int| 0 <= k < path.len() && path[k] == n;
            if k == len - 2 {
                assert(c.step(h) is Some && c.step(h)->0 == n);
            }
        }
    }
    assert(candidate(cols, rows, path, c, d) == Some(n));
}

/// A candidate cell lies on the grid, is new to the path and neighbours the current cell.
proof fn lemma_candidate_extends(cols: u16, rows: u16, visited: Seq<Position>, current: Position, next: Position)
    requires
        current.x < u16::MAX,
        current.y < u16::MAX,
        candidates(cols, rows, visited, current).contains(next),
    ensures
        in_grid(next, cols, rows),
        !visited.contains(next),
        current.direction_towards(next) is Some,
{
    let c = candidates(cols, rows, visited, current);
    let k = choose|k: int| 0 <= k < c.len() && c[k] == next;
    let d = if candidate(cols, rows, visited, current, Direction::Up) == Some(next) {
        Direction::Up
    } else if candidate(cols, rows, visited, current, Direction::Down) == Some(next) {
        Direction::Down
    } else if candidate(cols, rows, visited, current, Direction::Left) == Some(next) {
        Direction::Left
    } else {
        Direction::Right
    };
    assert(candidate(cols, rows, visited, current, d) == Some(next));
    lemma_step_direction_agree(current, next, d);
}

/// Draws a random path of `moves` moves on a grid of `cols` columns and `rows` rows:
/// up to `MAX_PATH_ATTEMPTS` random walks are tried, each stepping to a random unvisited
/// neighbour until the walk is long enough or stuck.
pub fn create_path(cols: u16, rows: u16, moves: u32) -> (r: Result<Vec<Position>, PathError>)
    ensures
        r matches Ok(p) ==> valid_path(p@, cols, rows, moves + 1),
        r matches Err(e) ==> e == PathError::AttemptsExhausted && attempts_stuck(cols, rows, moves),
        walk_cannot_stick(cols, rows, moves) ==> r is Ok,
        moves >= 1 && cols * rows <= moves ==> r is Err,
{
    let ghost mut walks: Seq<Seq<Position>> = seq![];
    let mut attempt: u32 = 0;
    while attempt < MAX_PATH_ATTEMPTS
        invariant
            attempt <= MAX_PATH_ATTEMPTS,
            walk_cannot_stick(cols, rows, moves) ==> attempt == 0,
            walks.len() == attempt,
            forall|k: int| 0 <= k < walks.len() ==> stuck_walk(cols, rows, moves, #[trigger] walks[k]),
        decreases MAX_PATH_ATTEMPTS - attempt,
    {
        let start = Position::new(random_below_or_zero(cols), random_below_or_zero(rows));
        match walk_path(cols, rows, moves, start) {
            Some(path) => {
                proof {
                    if moves >= 1 {
                        lemma_path_needs_room(path@, cols, rows, moves + 1);
                    }
                }
                return Ok(path);
            },
            None => {
                proof {
                    let w = choose|w: Seq<Position>| stuck_walk(cols, rows, moves, w);
                    assert forall|k: int| 0 <= k < walks.push(w).len() implies stuck_walk(
                        cols,
                        rows,
                        moves,
                        #[trigger] walks.push(w)[k],
                    ) by {
                        if k < walks.len() {
                            assert(walks.push(w)[k] == walks[k]);
                        }
                    }
                    walks = walks.push(w);
                }
            },
        }
        attempt = attempt + 1;
    }
    assert(attempts_stuck(cols, rows, moves));
    Err(PathError::AttemptsExhausted)
}

/// `c` is a corner cell of a grid of `cols` by `rows` cells.
pub open spec fn is_corner(c: Position, cols: u16, rows: u16) -> bool {
    &&& in_grid(c, cols, rows)
    &&& c.x == 0 || c.x + 1 == cols
    &&& c.y == 0 || c.y + 1 == rows
}

/// Along a path, every step changes the sum of the coordinates by one, so the parity of
/// that sum alternates.
proof fn lemma_path_parity(w: Seq<Position>, cols: u16, rows: u16, i: int, j: int)
    requires
        valid_path(w, cols, rows, w.len() as int),
        0 <= i <= j < w.len(),
    ensures
        (w[i].x + w[i].y + (j - i) - w[j].x - w[j].y) % 2 == 0,
    decreases j - i,
{
    if i < j {
        lemma_path_parity(w, cols, rows, i, j - 1);
        let p = w[j - 1];
        let q = w[j];
        assert(p.direction_towards(q) is Some);
        let t: int = w[i].x + w[i].y + (j - 1 - i) - p.x - p.y;
        let u: int = w[i].x + w[i].y + (j - i) - q.x - q.y;
        assert(u == t || u == t + 2);
        assert(u % 2 == 0) by (nonlinear_arith)
            requires
                t % 2 == 0,
                u == t || u == t + 2,
        ;
    }
}

/// On a walk of at most five cells, a visited neighbour of the last cell is the cell one
/// or three steps before it.
proof fn lemma_visited_neighbour(w: Seq<Position>, cols: u16, rows: u16, n: Position)
    requires
        valid_path(w, cols, rows, w.len() as int),
        1 <= w.len() <= 5,
        w.contains(n),
        n.distance(w.last()) == 1,
    ensures
        n == w[w.len() - 2] || (w.len() >= 4 && n == w[w.len() - 4]),
{
    let k = choose|k: int| 0 <= k < w.len() && w[k] == n;
    lemma_path_parity(w, cols, rows, k, w.len() - 1);
}

/// A walk of at most five cells on a grid at least two cells wide and high gets stuck
/// only at a corner, after at least three moves, with the cell three steps back next to
/// that corner: the walk has gone round the corner's square.
pub proof fn lemma_short_stuck_walk_circles_a_corner(cols: u16, rows: u16, moves: u32, w: Seq<Position>)
    requires
        stuck_walk(cols, rows, moves, w),
        cols >= 2,
        rows >= 2,
        w.len() <= 5,
    ensures
        w.len() >= 4,
        is_corner(w.last(), cols, rows),
        w[w.len() - 4].distance(w.last()) == 1,
{
    let len = w.len() as int;
    let c = w.last();
    assert(in_grid(c, cols, rows)) by {
        if len == 1 {
            assert(valid_start(cols, rows, w[0]));
        } else {
            assert(in_grid(w[len - 1], cols, rows));
        }
    }
    let cs = candidates(cols, rows, w, c);
    assert(candidate(cols, rows, w, c, Direction::Up) is None);
    assert(candidate(cols, rows, w, c, Direction::Down) is None);
    assert(candidate(cols, rows, w, c, Direction::Left) is None);
    assert(candidate(cols, rows, w, c, Direction::Right) is None);
    let a = w[len - 2];
    let up = Position { x: c.x, y: (c.y - 1) as u16 };
    let down = Position { x: c.x, y: (c.y + 1) as u16 };
    let left = Position { x: (c.x - 1) as u16, y: c.y };
    let right = Position { x: (c.x + 1) as u16, y: c.y };
    if c.y > 0 {
        assert(c.step(Direction::Up) == Some(up) && in_grid(up, cols, rows));
        lemma_visited_neighbour(w, cols, rows, up);
    }
    if c.y + 1 < rows {
        assert(c.step(Direction::Down) == Some(down) && in_grid(down, cols, rows));
        lemma_visited_neighbour(w, cols, rows, down);
    }
    if c.x > 0 {
        assert(c.step(Direction::Left) == Some(left) && in_grid(left, cols, rows));
        lemma_visited_neighbour(w, cols, rows, left);
    }
    if c.x + 1 < cols {
        assert(c.step(Direction::Right) == Some(right) && in_grid(right, cols, rows));
        lemma_visited_neighbour(w, cols, rows, right);
    }
}

/// Every step of a valid path can be played: it goes one cell in some direction.
pub proof fn lemma_path_is_walkable(path: Seq<Position>, cols: u16, rows: u16, len: int, i: int)
    requires
        valid_path(path, cols, rows, len),
        0 <= i < len - 1,
        path[i].x < u16::MAX,
        path[i].y < u16::MAX,
    ensures
        path[i].direction_towards(path[i + 1]) matches Some(d) && path[i].step(d) == Some(path[i + 1]),
{
    let d = path[i].direction_towards(path[i + 1])->0;
    lemma_step_direction_agree(path[i], path[i + 1], d);
}

/// The cell's number when the grid is read column by column.
spec fn cell_number(p: Position, rows: u16) -> int {
    p.x * rows + p.y
}

proof fn lemma_cell_number(p: Position, q: Position, cols: u16, rows: u16)
    requires
        in_grid(p, cols, rows),
        in_grid(q, cols, rows),
    ensures
        0 <= cell_number(p, rows) < cols * rows,
        cell_number(p, rows) == cell_number(q, rows) ==> p == q,
{
    let (px, py, qx, qy, r, c) = (p.x as int, p.y as int, q.x as int, q.y as int, rows as int, cols as int);
    assert(0 <= px * r + py < c * r) by (nonlinear_arith)
        requires
            0 <= px < c,
            0 <= py < r,
    ;
    assert(px * r + py == qx * r + qy ==> px == qx && py == qy) by (nonlinear_arith)
        requires
            0 <= px,
            0 <= qx,
            0 <= py < r,
            0 <= qy < r,
    ;
    assert(cols * rows == c * r);
}

/// Distinct cells of a grid are no more than the grid has.
proof fn lemma_distinct_cells_fit(s: Seq<Position>, cols: u16, rows: u16)
    requires
        no_repeats(s),
        forall|i: int| 0 <= i < s.len() ==> in_grid(#[trigger] s[i], cols, rows),
    ensures
        s.len() <= cols * rows,
{
    let numbers = s.map_values(|p: Position| cell_number(p, rows));
    assert(numbers.no_duplicates()) by {
        assert forall|i: int, j: int| 0 <= i < numbers.len() && 0 <= j < numbers.len() && i != j implies numbers[i]
            != numbers[j] by {
            lemma_cell_number(s[i], s[j], cols, rows);
            if i < j {
                assert(s[i] != s[j]);
            } else {
                assert(s[j] != s[i]);
            }
        }
    }
    numbers.unique_seq_to_set();
    let range = vstd::set_lib::set_int_range(0, cols * rows);
    vstd::set_lib::lemma_int_range(0, cols * rows);
    assert(numbers.to_set().subset_of(range)) by {
        assert forall|n: int| numbers.to_set().contains(n) implies range.contains(n) by {
            let k = choose|k: int| 0 <= k < numbers.len() && numbers[k] == n;
            lemma_cell_number(s[k], s[k], cols, rows);
        }
    }
    vstd::set_lib::lemma_len_subset(numbers.to_set(), range);
}

/// A path of two or more cells fits only on a grid with at least as many cells.
pub proof fn lemma_path_needs_room(path: Seq<Position>, cols: u16, rows: u16, len: int)
    requires
        valid_path(path, cols, rows, len),
        len >= 2,
    ensures
        len <= cols * rows,
{
    assert(in_grid(path[1], cols, rows));
    assert forall|i: int| 0 <= i < path.len() implies in_grid(#[trigger] path[i], cols, rows) by {
        if i == 0 {
            assert(cols > 0 && rows > 0);
        }
    }
    lemma_distinct_cells_fit(path, cols, rows);
}

} // verus!
