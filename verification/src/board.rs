//! Quoridor board data structures and logic

use vstd::prelude::*;
use vstd::string::*;
use crate::constants::N;
use crate::errors::{QuoridorError, QuoridorResult};

verus! {

/// The way a wall runs: along a row or along a column.
#[derive(Clone, Copy, PartialEq, Eq, PartialOrd, Ord, Structural, Debug, Hash)]
pub enum Orientation {
    Horizontal,
    Vertical,
}

/// The eight directions of a move on the board, and what stands for a text
/// that names none of them.
#[derive(Clone, Copy, PartialEq, Eq, PartialOrd, Ord, Structural, Debug, Hash)]
pub enum Direction {
    North,
    East,
    South,
    West,
    NorthEast,
    SouthEast,
    SouthWest,
    NorthWest,
    Invalid,
}

/// A cell of the grid. `y` grows towards the south.
#[derive(Clone, Copy, PartialEq, Eq, PartialOrd, Ord, Structural, Debug, Hash)]
pub struct Point {
    pub x: i32,
    pub y: i32,
}

/// A wall two cells long, centred on the lattice point `(x, y)`: the corner
/// shared by the cells `(x - 1, y - 1)`, `(x, y - 1)`, `(x - 1, y)` and
/// `(x, y)`.
#[derive(Clone, Copy, PartialEq, Eq, PartialOrd, Ord, Structural, Debug, Hash)]
pub struct Wall {
    pub x: i32,
    pub y: i32,
    pub orientation: Orientation,
}

/// What `str::to_uppercase` returns for the text `s`.
pub uninterp spec fn uppercase_of(s: Seq<char>) -> Seq<char>;

/// Calls `str::to_uppercase`, which maps every character of `s` to its
/// Unicode upper case form; the result depends on `s` alone.
#[verifier::external_body]
fn to_uppercase(s: &str) -> (upper: String)
    ensures
        upper@ == uppercase_of(s@),
{
    s.to_uppercase()
}

impl Direction {
    /// The direction that the upper case text `name` spells.
    pub open spec fn named(name: Seq<char>) -> Direction {
        if name == "NORTH"@ {
            Direction::North
        } else if name == "EAST"@ {
            Direction::East
        } else if name == "SOUTH"@ {
            Direction::South
        } else if name == "WEST"@ {
            Direction::West
        } else if name == "NORTHEAST"@ {
            Direction::NorthEast
        } else if name == "SOUTHEAST"@ {
            Direction::SouthEast
        } else if name == "SOUTHWEST"@ {
            Direction::SouthWest
        } else if name == "NORTHWEST"@ {
            Direction::NorthWest
        } else {
            Direction::Invalid
        }
    }

    /// Reads a direction from its upper case name; any other text is
    /// `Invalid`.
    pub fn from_upper(name: &str) -> (d: Direction)
        ensures
            d == Direction::named(name@),
    {
        let name = String::from_str(name);
        if name == String::from_str("NORTH") {
            Direction::North
        } else if name == String::from_str("EAST") {
            Direction::East
        } else if name == String::from_str("SOUTH") {
            Direction::South
        } else if name == String::from_str("WEST") {
            Direction::West
        } else if name == String::from_str("NORTHEAST") {
            Direction::NorthEast
        } else if name == String::from_str("SOUTHEAST") {
            Direction::SouthEast
        } else if name == String::from_str("SOUTHWEST") {
            Direction::SouthWest
        } else if name == String::from_str("NORTHWEST") {
            Direction::NorthWest
        } else {
            Direction::Invalid
        }
    }

    /// The opposite direction.
    pub open spec fn spec_reversed(&self) -> Direction {
        match self {
            Direction::North => Direction::South,
            Direction::East => Direction::West,
            Direction::South => Direction::North,
            Direction::West => Direction::East,
            Direction::NorthEast => Direction::SouthWest,
            Direction::SouthEast => Direction::NorthWest,
            Direction::SouthWest => Direction::NorthEast,
            Direction::NorthWest => Direction::SouthEast,
            Direction::Invalid => Direction::Invalid,
        }
    }

    /// Change along the x axis of one step in this direction.
    pub open spec fn dx(self) -> int {
        match self {
            Direction::East | Direction::NorthEast | Direction::SouthEast => 1,
            Direction::West | Direction::NorthWest | Direction::SouthWest => -1,
            _ => 0,
        }
    }

    /// Change along the y axis of one step in this direction.
    pub open spec fn dy(self) -> int {
        match self {
            Direction::South | Direction::SouthEast | Direction::SouthWest => 1,
            Direction::North | Direction::NorthEast | Direction::NorthWest => -1,
            _ => 0,
        }
    }

    /// The opposite direction.
    #[verifier::when_used_as_spec(spec_reversed)]
    pub fn reversed(&self) -> (r: Direction)
        ensures
            r == self.spec_reversed(),
            r.dx() == -self.dx(),
            r.dy() == -self.dy(),
    {
        match *self {
            Direction::North => Direction::South,
            Direction::East => Direction::West,
            Direction::South => Direction::North,
            Direction::West => Direction::East,
            Direction::NorthEast => Direction::SouthWest,
            Direction::SouthEast => Direction::NorthWest,
            Direction::SouthWest => Direction::NorthEast,
            Direction::NorthWest => Direction::SouthEast,
            Direction::Invalid => Direction::Invalid,
        }
    }
}

impl From<&str> for Direction {
    /// Reads a direction from its name, in any mix of upper and lower case.
    fn from(s: &str) -> (d: Direction) {
        let upper = to_uppercase(s);
        Direction::from_upper(upper.as_str())
    }
}

impl vstd::std_specs::convert::FromSpecImpl<&str> for Direction {
    open spec fn obeys_from_spec() -> bool {
        true
    }

    open spec fn from_spec(s: &str) -> Direction {
        Direction::named(uppercase_of(s@))
    }
}

impl Point {
    /// The cell at `(x, y)`, whatever the two integers are.
    pub open spec fn at(x: int, y: int) -> Point {
        Point { x: x as i32, y: y as i32 }
    }

    /// The cell one step from here in direction `d`.
    pub open spec fn moved(self, d: Direction) -> Point {
        Point::at(self.x + d.dx(), self.y + d.dy())
    }

    /// Whether the step in direction `d` stays within machine integers.
    pub open spec fn can_shift(self, d: Direction) -> bool {
        &&& i32::MIN <= self.x + d.dx() <= i32::MAX
        &&& i32::MIN <= self.y + d.dy() <= i32::MAX
    }

    /// Whether the cell lies on the board.
    pub open spec fn spec_inbounds(&self) -> bool {
        0 <= self.x < N && 0 <= self.y < N
    }

    /// Exactly one step apart along one axis.
    pub open spec fn spec_neighbors(&self, other: Point) -> bool {
        ||| (self.x == other.x && (self.y - other.y == 1 || other.y - self.y == 1))
        ||| (self.y == other.y && (self.x - other.x == 1 || other.x - self.x == 1))
    }

    /// Returns a shifted copy of the point
    pub fn shift(&self, direction: Direction) -> (p: Point)
        requires
            self.can_shift(direction),
        ensures
            p == self.moved(direction),
            p.x == self.x + direction.dx(),
            p.y == self.y + direction.dy(),
    {
        match direction {
            Direction::North => self.north(),
            Direction::East => self.east(),
            Direction::South => self.south(),
            Direction::West => self.west(),
            Direction::NorthEast => self.north().east(),
            Direction::SouthEast => self.south().east(),
            Direction::SouthWest => self.south().west(),
            Direction::NorthWest => self.north().west(),
            Direction::Invalid => *self,
        }
    }

    /// Returns new point one space to the right
    pub fn east(&self) -> (p: Point)
        requires
            self.x < i32::MAX,
        ensures
            p.x == self.x + 1,
            p.y == self.y,
    {
        Point { x: self.x + 1, y: self.y }
    }

    /// Returns new point one space to the left
    pub fn west(&self) -> (p: Point)
        requires
            self.x > i32::MIN,
        ensures
            p.x == self.x - 1,
            p.y == self.y,
    {
        Point { x: self.x - 1, y: self.y }
    }

    /// Returns new point one space up
    pub fn north(&self) -> (p: Point)
        requires
            self.y > i32::MIN,
        ensures
            p.x == self.x,
            p.y == self.y - 1,
    {
        Point { x: self.x, y: self.y - 1 }
    }

    /// Returns new point one space down
    pub fn south(&self) -> (p: Point)
        requires
            self.y < i32::MAX,
        ensures
            p.x == self.x,
            p.y == self.y + 1,
    {
        Point { x: self.x, y: self.y + 1 }
    }

    /// Is the point on the board
    #[verifier::when_used_as_spec(spec_inbounds)]
    pub fn inbounds(&self) -> (r: bool)
        ensures
            r == self.spec_inbounds(),
    {
        self.x >= 0 && self.x < N && self.y >= 0 && self.y < N
    }

    /// Is this point neighbors with the other
    #[verifier::when_used_as_spec(spec_neighbors)]
    pub fn neighbors(&self, other: Point) -> (r: bool)
        ensures
            r == self.spec_neighbors(other),
    {
        let dx: i64 = self.x as i64 - other.x as i64;
        let dy: i64 = self.y as i64 - other.y as i64;
        (dx == 0 && (dy == 1 || dy == -1)) || (dy == 0 && (dx == 1 || dx == -1))
    }
}

impl Wall {
    /// The wall along row `y` that is centred on the lattice point `(x, y)`.
    pub open spec fn spec_horizontal(x: i32, y: i32) -> Wall {
        Wall { orientation: Orientation::Horizontal, x: x, y: y }
    }

    /// The wall along column `x` that is centred on the lattice point
    /// `(x, y)`.
    pub open spec fn spec_vertical(x: i32, y: i32) -> Wall {
        Wall { orientation: Orientation::Vertical, x: x, y: y }
    }

    /// A wall may only be centred on a lattice point strictly inside the
    /// board.
    pub open spec fn spec_inbounds(&self) -> bool {
        0 < self.x < N && 0 < self.y < N
    }

    /// This wall moved by `(dx, dy)`.
    pub open spec fn spec_shifted(self, dx: int, dy: int) -> Wall {
        Wall { x: (self.x + dx) as i32, y: (self.y + dy) as i32, orientation: self.orientation }
    }

    /// The wall through the same lattice point, the other way round.
    pub open spec fn spec_rotated(&self) -> Wall {
        Wall {
            x: self.x,
            y: self.y,
            orientation: match self.orientation {
                Orientation::Vertical => Orientation::Horizontal,
                Orientation::Horizontal => Orientation::Vertical,
            },
        }
    }

    /// The two lattice points at which this wall ends.
    pub open spec fn ends(self) -> ((int, int), (int, int)) {
        match self.orientation {
            Orientation::Vertical => ((self.x as int, self.y - 1), (self.x as int, self.y + 1)),
            Orientation::Horizontal => ((self.x - 1, self.y as int), (self.x + 1, self.y as int)),
        }
    }

    /// The wall that runs from lattice point `a` to lattice point `b`, if the
    /// two are exactly two apart along one axis.
    pub open spec fn between(a: (int, int), b: (int, int)) -> Option<Wall> {
        if a.1 == b.1 && (a.0 - b.0 == 2 || b.0 - a.0 == 2) {
            Some(Wall { orientation: Orientation::Horizontal, x: ((a.0 + b.0) / 2) as i32, y: a.1 as i32 })
        } else if a.0 == b.0 && (a.1 - b.1 == 2 || b.1 - a.1 == 2) {
            Some(Wall { orientation: Orientation::Vertical, x: a.0 as i32, y: ((a.1 + b.1) / 2) as i32 })
        } else {
            None
        }
    }

    /// Creates new horizontal wall
    #[verifier::when_used_as_spec(spec_horizontal)]
    pub fn horizontal(x: i32, y: i32) -> (w: Wall)
        ensures
            w == Wall::spec_horizontal(x, y),
    {
        Wall { orientation: Orientation::Horizontal, x: x, y: y }
    }

    /// Creates new vertical wall
    #[verifier::when_used_as_spec(spec_vertical)]
    pub fn vertical(x: i32, y: i32) -> (w: Wall)
        ensures
            w == Wall::spec_vertical(x, y),
    {
        Wall { orientation: Orientation::Vertical, x: x, y: y }
    }

    /// Is wall on the board
    #[verifier::when_used_as_spec(spec_inbounds)]
    pub fn inbounds(&self) -> (r: bool)
        ensures
            r == self.spec_inbounds(),
    {
        self.x > 0 && self.x < N && self.y > 0 && self.y < N
    }

    /// Returns a new wall shifted +x, +y
    pub fn shifted(&self, x: i32, y: i32) -> (w: Wall)
        requires
            i32::MIN <= self.x + x <= i32::MAX,
            i32::MIN <= self.y + y <= i32::MAX,
        ensures
            w == self.spec_shifted(x as int, y as int),
    {
        Wall { x: self.x + x, y: self.y + y, orientation: self.orientation }
    }

    /// Rotates wall around center point
    #[verifier::when_used_as_spec(spec_rotated)]
    pub fn rotated(&self) -> (w: Wall)
        ensures
            w == self.spec_rotated(),
    {
        Wall {
            x: self.x,
            y: self.y,
            orientation: match self.orientation {
                Orientation::Vertical => Orientation::Horizontal,
                Orientation::Horizontal => Orientation::Vertical,
            },
        }
    }

    /// The two lattice points at which the wall ends: the northern or
    /// western one first.
    pub fn to_tuples(&self) -> (t: ((i32, i32), (i32, i32)))
        requires
            i32::MIN < self.x < i32::MAX,
            i32::MIN < self.y < i32::MAX,
        ensures
            ((t.0.0 as int, t.0.1 as int), (t.1.0 as int, t.1.1 as int)) == self.ends(),
            Wall::between(self.ends().0, self.ends().1) == Some(*self),
    {
        match self.orientation {
            Orientation::Vertical => ((self.x, self.y - 1), (self.x, self.y + 1)),
            Orientation::Horizontal => ((self.x - 1, self.y), (self.x + 1, self.y)),
        }
    }

    /// The wall that runs from the lattice point `a` to the lattice point
    /// `b`. The two have to be exactly two apart along one axis, in either
    /// order.
    pub fn from_tuples(a: (i32, i32), b: (i32, i32)) -> (r: QuoridorResult<Wall>)
        ensures
            match Wall::between((a.0 as int, a.1 as int), (b.0 as int, b.1 as int)) {
                Some(w) => r == Ok::<Wall, QuoridorError>(w),
                None => r == Err::<Wall, QuoridorError>(QuoridorError::InvalidWallGeometry),
            },
    {
        let dx: i64 = a.0 as i64 - b.0 as i64;
        let dy: i64 = a.1 as i64 - b.1 as i64;
        if a.1 == b.1 && (dx == 2 || dx == -2) {
            let mid: i64 = (a.0 as i64 + b.0 as i64) / 2;
            Ok(Wall::horizontal(mid as i32, a.1))
        } else if a.0 == b.0 && (dy == 2 || dy == -2) {
            let mid: i64 = (a.1 as i64 + b.1 as i64) / 2;
            Ok(Wall::vertical(a.0, mid as i32))
        } else {
            Err(QuoridorError::InvalidWallGeometry)
        }
    }

    /// The wall that runs from the lattice point `a` to the lattice point
    /// `b`.
    pub fn from_points(a: Point, b: Point) -> (r: QuoridorResult<Wall>)
        ensures
            match Wall::between((a.x as int, a.y as int), (b.x as int, b.y as int)) {
                Some(w) => r == Ok::<Wall, QuoridorError>(w),
                None => r == Err::<Wall, QuoridorError>(QuoridorError::InvalidWallGeometry),
            },
    {
        Wall::from_tuples((a.x, a.y), (b.x, b.y))
    }
}

} // verus!
