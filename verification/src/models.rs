use vstd::prelude::*;

verus! {

/// One of the four grid directions.
#[derive(Clone, Copy, PartialEq, Eq, Debug, Structural)]
pub enum Direction {
    Up,
    Down,
    Left,
    Right,
}

/// A cell of the grid: `x` is the column, `y` the row, `(0, 0)` the top left corner.
#[derive(Clone, Copy, PartialEq, Eq, Debug, Hash, Structural)]
pub struct Position {
    pub x: u16,
    pub y: u16,
}

/// Whether `p` lies inside a grid of `cols` columns and `rows` rows.
pub open spec fn in_grid(p: Position, cols: u16, rows: u16) -> bool {
    p.x < cols && p.y < rows
}

/// No cell occurs twice.
pub open spec fn no_repeats(s: Seq<Position>) -> bool {
    forall|i: int, j: int| 0 <= i < j < s.len() ==> s[i] != s[j]
}

/// The direction that undoes `d`.
pub open spec fn opposite(d: Direction) -> Direction {
    match d {
        Direction::Up => Direction::Down,
        Direction::Down => Direction::Up,
        Direction::Left => Direction::Right,
        Direction::Right => Direction::Left,
    }
}

/// Absolute difference of two integers.
pub open spec fn abs_diff(a: int, b: int) -> nat {
    if a >= b { (a - b) as nat } else { (b - a) as nat }
}

impl Position {
    /// Stepping from `self` towards `d` stays representable: only a step down from the
    /// last representable row or right from the last representable column does not.
    pub open spec fn can_step(self, d: Direction) -> bool {
        match d {
            Direction::Down => self.y < u16::MAX,
            Direction::Right => self.x < u16::MAX,
            _ => true,
        }
    }

    /// The cell one step from `self` towards `d`; none above row 0 or left of column 0.
    pub open spec fn step(self, d: Direction) -> Option<Position> {
        match d {
            Direction::Up => if self.y == 0 {
                None
            } else {
                Some(Position { x: self.x, y: (self.y - 1) as u16 })
            },
            Direction::Down => Some(Position { x: self.x, y: (self.y + 1) as u16 }),
            Direction::Left => if self.x == 0 {
                None
            } else {
                Some(Position { x: (self.x - 1) as u16, y: self.y })
            },
            Direction::Right => Some(Position { x: (self.x + 1) as u16, y: self.y }),
        }
    }

    /// Manhattan distance between two cells.
    pub open spec fn distance(self, other: Position) -> nat {
        abs_diff(self.x as int, other.x as int) + abs_diff(self.y as int, other.y as int)
    }

    /// The direction of a single step from `self` to `other`, if they are adjacent.
    pub open spec fn direction_towards(self, other: Position) -> Option<Direction> {
        let dx = other.x - self.x;
        let dy = other.y - self.y;
        if dx == 0 && dy == -1 {
            Some(Direction::Up)
        } else if dx == 0 && dy == 1 {
            Some(Direction::Down)
        } else if dx == -1 && dy == 0 {
            Some(Direction::Left)
        } else if dx == 1 && dy == 0 {
            Some(Direction::Right)
        } else {
            None
        }
    }

    pub fn new(x: u16, y: u16) -> (p: Self)
        ensures
            p.x == x,
            p.y == y,
    {
        Self { x, y }
    }

    /// The neighbouring cell in direction `direction`, or `None` when it would lie
    /// above the first row or left of the first column.
    pub fn neighbor(self, direction: Direction) -> (r: Option<Self>)
        requires
            self.can_step(direction),
        ensures
            r == self.step(direction),
    {
        match direction {
            Direction::Up => if self.y == 0 {
                None
            } else {
                Some(Self::new(self.x, self.y - 1))
            },
            Direction::Down => Some(Self::new(self.x, self.y + 1)),
            Direction::Left => if self.x == 0 {
                None
            } else {
                Some(Self::new(self.x - 1, self.y))
            },
            Direction::Right => Some(Self::new(self.x + 1, self.y)),
        }
    }

    pub fn manhattan_distance(self, other: Self) -> (d: u32)
        ensures
            d == self.distance(other),
    {
        let dx: u32 = if self.x >= other.x {
            (self.x - other.x) as u32
        } else {
            (other.x - self.x) as u32
        };
        let dy: u32 = if self.y >= other.y {
            (self.y - other.y) as u32
        } else {
            (other.y - self.y) as u32
        };
        dx + dy
    }

    /// The direction of the single step that leads from `self` to `other`, or `None`
    /// when the two cells are not orthogonally adjacent.
    pub fn direction_to(self, other: Self) -> (r: Option<Direction>)
        ensures
            r == self.direction_towards(other),
    {
        let dx: i32 = other.x as i32 - self.x as i32;
        let dy: i32 = other.y as i32 - self.y as i32;
        if dx == 0 && dy == -1 {
            Some(Direction::Up)
        } else if dx == 0 && dy == 1 {
            Some(Direction::Down)
        } else if dx == -1 && dy == 0 {
            Some(Direction::Left)
        } else if dx == 1 && dy == 0 {
            Some(Direction::Right)
        } else {
            None
        }
    }
}

/// Stepping and pointing agree: `q` is the neighbour of `p` towards `d` exactly when
/// `d` is the direction from `p` to `q`.
pub proof fn lemma_step_direction_agree(p: Position, q: Position, d: Direction)
    requires
        p.can_step(d),
    ensures
        p.step(d) == Some(q) <==> p.direction_towards(q) == Some(d),
{
}

/// A neighbour is at distance one, and every cell is at distance zero from itself only.
pub proof fn lemma_step_distance(p: Position, q: Position, d: Direction)
    requires
        p.can_step(d),
        p.step(d) == Some(q),
    ensures
        p.distance(q) == 1,
        q.distance(p) == 1,
        p.distance(p) == 0,
{
}

/// The distance is symmetric and vanishes exactly on equal cells.
pub proof fn lemma_distance_metric(p: Position, q: Position)
    ensures
        p.distance(q) == q.distance(p),
        p.distance(q) == 0 <==> p == q,
{
}

/// A step and a step back lead to the cell one started from.
pub proof fn lemma_step_back(p: Position, q: Position, d: Direction)
    requires
        p.can_step(d),
        p.step(d) == Some(q),
    ensures
        q.can_step(opposite(d)),
        q.step(opposite(d)) == Some(p),
{
}

} // verus!
