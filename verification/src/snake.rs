use crate::models::{Direction, Position, in_grid, no_repeats, opposite};
use crate::random::random_index;
use std::collections::VecDeque;
use vstd::prelude::*;

verus! {

/// What one tick of the snake led to.
#[derive(Debug, PartialEq, Eq, Structural)]
pub enum SnakeMoveResult {
    Moved { tail_removed: Position },
    AteFood { new_food: Position },
    Collision,
}

/// Snake mode: the snake moves one cell per tick, grows when it eats, and dies when it
/// leaves the grid or runs into itself.
pub struct SnakeGame {
    pub cols: u16,
    pub rows: u16,
    pub body: VecDeque<Position>,
    pub direction: Direction,
    pub food: Position,
    pub score: u32,
}

/// A cell where food may appear: on the grid and off the snake.
pub open spec fn free_cell(cols: u16, rows: u16, body: Seq<Position>, p: Position) -> bool {
    in_grid(p, cols, rows) && !body.contains(p)
}

/// A cell where new food appears: a free cell, or the top left corner when none is free.
pub open spec fn valid_food(cols: u16, rows: u16, body: Seq<Position>, p: Position) -> bool {
    if exists|q: Position| free_cell(cols, rows, body, q) {
        free_cell(cols, rows, body, p)
    } else {
        p == Position { x: 0, y: 0 }
    }
}

/// Every cell lies on the grid.
pub open spec fn all_in_grid(s: Seq<Position>, cols: u16, rows: u16) -> bool {
    forall|i: int| 0 <= i < s.len() ==> in_grid(#[trigger] s[i], cols, rows)
}

/// The body a new game starts with: three cells from the centre leftwards.
pub open spec fn start_body(cols: u16, rows: u16) -> Seq<Position> {
    let cx = cols / 2;
    let cy = rows / 2;
    seq![
        Position { x: cx, y: cy },
        Position { x: (cx - 1) as u16, y: cy },
        Position { x: if cx >= 2 { (cx - 2) as u16 } else { 0 }, y: cy },
    ]
}

/// The direction after a request to turn towards `requested`: a reversal is ignored.
pub open spec fn turned(current: Direction, requested: Direction) -> Direction {
    if requested == opposite(current) { current } else { requested }
}

/// Milliseconds per tick for a score: 300, minus 10 per point, but at least 100.
pub open spec fn snake_tick_ms(score: u32) -> int {
    if 300 - 10 * score >= 100 { 300 - 10 * score } else { 100 }
}

impl SnakeGame {
    /// The cells of the body, head first.
    pub open spec fn view(self) -> Seq<Position> {
        self.body@
    }

    /// The cell the head moves to on the next tick, when it stays on the grid.
    pub open spec fn next_head(self) -> Option<Position> {
        match self@[0].step(self.direction) {
            Some(p) => if in_grid(p, self.cols, self.rows) {
                Some(p)
            } else {
                None
            },
            None => None,
        }
    }

    /// The next tick can run: there is a head, it can step, and eating (moving onto the
    /// food where the body does not cover it) keeps the score representable.
    pub open spec fn can_tick(self) -> bool {
        &&& self@.len() > 0
        &&& self@[0].can_step(self.direction)
        &&& self.next_head() == Some(self.food) && !self@.contains(self.food) ==> self.score < u32::MAX
    }

    /// A new game: a snake of three cells in the middle heading right, food on a free cell.
    pub fn new(cols: u16, rows: u16) -> (g: Self)
        requires
            cols >= 2,
        ensures
            g.cols == cols,
            g.rows == rows,
            g@ == start_body(cols, rows),
            g.direction == Direction::Right,
            valid_food(cols, rows, g@, g.food),
            g.score == 0,
    {
        let cx = cols / 2;
        let cy = rows / 2;
        let mut body = VecDeque::new();
        body.push_back(Position::new(cx, cy));
        body.push_back(Position::new(cx - 1, cy));
        body.push_back(Position::new(cx.saturating_sub(2), cy));

        let mut game = Self {
            cols,
            rows,
            body,
            direction: Direction::Right,
            food: Position::new(0, 0),
            score: 0,
        };
        assert(game@ == start_body(cols, rows));
        game.food = game.spawn_food();
        game
    }

    pub fn head(&self) -> (p: Position)
        requires
            self@.len() > 0,
        ensures
            p == self@[0],
    {
        self.body[0]
    }

    /// Milliseconds per tick: 300, minus 10 per point, but at least 100.
    pub fn tick_ms(&self) -> (ms: u64)
        ensures
            ms == snake_tick_ms(self.score),
    {
        let slowed = 300u64.saturating_sub(self.score as u64 * 10);
        if slowed >= 100 { slowed } else { 100 }
    }

    /// The level: one more for every five points.
    pub fn level(&self) -> (l: u32)
        ensures
            l == 1 + self.score / 5,
    {
        1 + self.score / 5
    }

    /// Turns the snake towards `dir`, unless that would reverse it.
    pub fn try_change_direction(&mut self, dir: Direction)
        ensures
            final(self).direction == turned(old(self).direction, dir),
            final(self).cols == old(self).cols,
            final(self).rows == old(self).rows,
            final(self)@ == old(self)@,
            final(self).food == old(self).food,
            final(self).score == old(self).score,
    {
        let allowed = match (self.direction, dir) {
            (Direction::Up, Direction::Down) => false,
            (Direction::Down, Direction::Up) => false,
            (Direction::Left, Direction::Right) => false,
            (Direction::Right, Direction::Left) => false,
            _ => true,
        };
        if allowed {
            self.direction = dir;
        }
    }

    /// Moves the snake one cell in its direction.
    ///
    /// Leaving the grid or running into the body is a collision and changes nothing.
    /// Otherwise the head advances; on the food the snake grows, the score rises and a
    /// new food cell is drawn, stored and returned, else the tail cell is given up.
    pub fn tick(&mut self) -> (r: SnakeMoveResult)
        requires
            old(self).can_tick(),
        ensures
            final(self).cols == old(self).cols,
            final(self).rows == old(self).rows,
            final(self).direction == old(self).direction,
            (old(self).next_head() is None || old(self)@.contains(old(self).next_head()->0)) ==> r
                == SnakeMoveResult::Collision && final(self)@ == old(self)@ && final(self).score
                == old(self).score && final(self).food == old(self).food,
            old(self).next_head() matches Some(p) ==> (!old(self)@.contains(p) && p == old(self).food
                ==> final(self)@ == seq![p] + old(self)@ && final(self).score == old(self).score + 1
                && (r matches SnakeMoveResult::AteFood { new_food } && final(self).food == new_food
                && valid_food(old(self).cols, old(self).rows, final(self)@, new_food))),
            old(self).next_head() matches Some(p) ==> (!old(self)@.contains(p) && p != old(self).food
                ==> final(self)@ == seq![p] + old(self)@.drop_last() && final(self).score == old(
                self,
            ).score && final(self).food == old(self).food && r == (SnakeMoveResult::Moved {
                tail_removed: old(self)@.last(),
            })),
    {
        let head = self.head();
        let new_head = match head.neighbor(self.direction) {
            Some(p) => {
                if p.x < self.cols && p.y < self.rows {
                    p
                } else {
                    return SnakeMoveResult::Collision;
                }
            },
            None => return SnakeMoveResult::Collision,
        };

        if body_contains(&self.body, new_head) {
            return SnakeMoveResult::Collision;
        }

        self.body.push_front(new_head);

        if new_head == self.food {
            self.score = self.score + 1;
            let new_food = self.spawn_food();
            self.food = new_food;
            SnakeMoveResult::AteFood { new_food }
        } else {
            let ghost grown = self@;
            let tail = self.body.pop_back().unwrap();
            assert(grown.subrange(0, grown.len() - 1) == seq![new_head] + old(self)@.drop_last());
            SnakeMoveResult::Moved { tail_removed: tail }
        }
    }

    /// A random free cell for the food, or the top left corner when the snake fills the grid.
    fn spawn_food(&self) -> (p: Position)
        ensures
            valid_food(self.cols, self.rows, self@, p),
    {
        let free = free_cells(self.cols, self.rows, &self.body);
        match random_index(free.len()) {
            Some(i) => free[i],
            None => {
                proof {
                    if exists|q: Position| free_cell(self.cols, self.rows, self@, q) {
                        let q = choose|q: Position| free_cell(self.cols, self.rows, self@, q);
                        assert(free@.contains(q));
                    }
                }
                Position::new(0, 0)
            },
        }
    }

    /// A new game on the same grid.
    pub fn restart(&mut self)
        requires
            old(self).cols >= 2,
        ensures
            final(self).cols == old(self).cols,
            final(self).rows == old(self).rows,
            final(self)@ == start_body(old(self).cols, old(self).rows),
            final(self).direction == Direction::Right,
            valid_food(final(self).cols, final(self).rows, final(self)@, final(self).food),
            final(self).score == 0,
    {
        let cols = self.cols;
        let rows = self.rows;
        *self = Self::new(cols, rows);
    }
}

/// Whether the body occupies cell `p`.
pub fn body_contains(body: &VecDeque<Position>, p: Position) -> (r: bool)
    ensures
        r == body@.contains(p),
{
    let mut i: usize = 0;
    while i < body.len()
        invariant
            i <= body@.len(),
            forall|j: int| 0 <= j < i ==> body@[j] != p,
        decreases body@.len() - i,
    {
        if body[i] == p {
            return true;
        }
        i = i + 1;
    }
    false
}

/// The free cells of the grid, column by column, each once.
pub fn free_cells(cols: u16, rows: u16, body: &VecDeque<Position>) -> (r: Vec<Position>)
    ensures
        forall|i: int| 0 <= i < r.len() ==> free_cell(cols, rows, body@, #[trigger] r@[i]),
        forall|q: Position| free_cell(cols, rows, body@, q) ==> r@.contains(q),
        no_repeats(r@),
{
    let mut r: Vec<Position> = Vec::new();
    let mut x: u16 = 0;
    while x < cols
        invariant
            x <= cols,
            forall|i: int| 0 <= i < r.len() ==> free_cell(cols, rows, body@, #[trigger] r@[i]),
            forall|i: int| 0 <= i < r.len() ==> (#[trigger] r@[i]).x < x,
            forall|q: Position| free_cell(cols, rows, body@, q) && q.x < x ==> r@.contains(q),
            no_repeats(r@),
        decreases cols - x,
    {
        let mut y: u16 = 0;
        while y < rows
            invariant
                x < cols,
                y <= rows,
                forall|i: int| 0 <= i < r.len() ==> free_cell(cols, rows, body@, #[trigger] r@[i]),
                forall|i: int| 0 <= i < r.len() ==> (#[trigger] r@[i]).x < x || (r@[i].x == x && r@[i].y < y),
                forall|q: Position| free_cell(cols, rows, body@, q) && (q.x < x || (q.x == x && q.y < y))
                    ==> r@.contains(q),
                no_repeats(r@),
            decreases rows - y,
        {
            let p = Position::new(x, y);
            if !body_contains(body, p) {
                let ghost before = r@;
                r.push(p);
                proof {
                    assert forall|q: Position| free_cell(cols, rows, body@, q) && (q.x < x || (q.x == x && q.y < y + 1))
                        implies r@.contains(q) by {
                        if q == p {
                            assert(r@[r@.len() - 1] == p);
                        } else {
                            assert(q.x < x || (q.x == x && q.y < y));
                            assert(before.contains(q));
                            let k = choose|k: int| 0 <= k < before.len() && before[k] == q;
                            assert(r@[k] == q);
                        }
                    }
                }
            } else {
                proof {
                    assert forall|q: Position| free_cell(cols, rows, body@, q) && (q.x < x || (q.x == x && q.y < y + 1))
                        implies r@.contains(q) by {
                        if q == p {
                            assert(!free_cell(cols, rows, body@, q));
                        }
                    }
                }
            }
            y = y + 1;
        }
        x = x + 1;
    }
    r
}

/// A snake that lies on the grid without overlapping itself still does so after a tick
/// that does not collide, whether it grows or not.
pub proof fn lemma_tick_keeps_snake_sound(g: SnakeGame, p: Position)
    requires
        g@.len() > 0,
        no_repeats(g@),
        all_in_grid(g@, g.cols, g.rows),
        g.next_head() == Some(p),
        !g@.contains(p),
    ensures
        no_repeats(seq![p] + g@),
        all_in_grid(seq![p] + g@, g.cols, g.rows),
        no_repeats(seq![p] + g@.drop_last()),
        all_in_grid(seq![p] + g@.drop_last(), g.cols, g.rows),
{
    let grown = seq![p] + g@;
    assert forall|i: int, j: int| 0 <= i < j < grown.len() implies grown[i] != grown[j] by {
        if i == 0 {
            assert(grown[j] == g@[j - 1]);
        } else {
            assert(grown[i] == g@[i - 1] && grown[j] == g@[j - 1]);
        }
    }
    assert forall|i: int| 0 <= i < grown.len() implies in_grid(#[trigger] grown[i], g.cols, g.rows) by {
        if i > 0 {
            assert(grown[i] == g@[i - 1]);
        }
    }
    let moved = seq![p] + g@.drop_last();
    assert(moved =~= grown.drop_last());
}

/// A request to turn is obeyed unless it would lead straight back: from any cell away
/// from the grid's edges, the new direction is the requested one exactly when a step in
/// the current direction followed by a step in the requested one does not return to that
/// cell; otherwise the snake keeps its direction.
pub proof fn lemma_turn_obeys_unless_going_back(current: Direction, requested: Direction, p: Position)
    requires
        0 < p.x < u16::MAX,
        0 < p.y < u16::MAX,
    ensures
        (p.step(current) matches Some(q) && q.step(requested) == Some(p)) ==> turned(current, requested) == current,
        !(p.step(current) matches Some(q) && q.step(requested) == Some(p)) ==> turned(current, requested) == requested,
{
}

/// A turn never reverses the snake.
pub proof fn lemma_turn_never_reverses(current: Direction, requested: Direction)
    ensures
        turned(current, requested) != opposite(current),
{
}

/// The tick gets shorter by 10 ms per point down to 100 ms, and never longer as the score
/// rises.
pub proof fn lemma_snake_speeds_up(a: u32, b: u32)
    requires
        a <= b,
    ensures
        snake_tick_ms(b) <= snake_tick_ms(a),
        snake_tick_ms(a) >= 100,
{
}

} // verus!
