//! Defines a player in a game of Quoridor

use vstd::prelude::*;
use vstd::string::*;
use crate::board::Point;
use crate::constants::N;

verus! {

/// Largest number of players in a game.
pub const MAX_PLAYERS: usize = 4;

/// A player and its pawn.
#[derive(Debug)]
pub struct Player {
    /// Where the pawn stands.
    pub p: Point,
    /// The secret that the player registered with.
    pub key: String,
    /// Seat number, `0..4`. It fixes the edge on which the pawn starts and
    /// the opposite edge, which it has to reach.
    pub id: u8,
    /// Walls left to place.
    pub walls: u8,
    pub name: String,
    /// Where the pawn stood before its last move, if it has moved.
    pub last_position: Option<Point>,
}

/// A player as a plain value.
pub struct PlayerView {
    pub p: Point,
    pub key: Seq<char>,
    pub id: u8,
    pub walls: u8,
    pub name: Seq<char>,
    pub last_position: Option<Point>,
}

impl View for Player {
    type V = PlayerView;

    open spec fn view(&self) -> PlayerView {
        PlayerView {
            p: self.p,
            key: self.key@,
            id: self.id,
            walls: self.walls,
            name: self.name@,
            last_position: self.last_position,
        }
    }
}

/// Whether the cell `p` lies on the edge that the player in seat `id` has to
/// reach: the edge opposite the one it starts on.
pub open spec fn on_goal_edge(id: int, p: Point) -> bool {
    ||| id == 0 && p.y == N - 1
    ||| id == 1 && p.y == 0
    ||| id == 2 && p.x == N - 1
    ||| id == 3 && p.x == 0
}

/// The cell on which the player in seat `id` starts: the middle of the
/// north, south, west and east edge, in this order.
pub open spec fn start_cell(id: int) -> Point {
    if id == 0 {
        Point { x: (N / 2) as i32, y: 0 }
    } else if id == 1 {
        Point { x: (N / 2) as i32, y: (N - 1) as i32 }
    } else if id == 2 {
        Point { x: 0, y: (N / 2) as i32 }
    } else {
        Point { x: (N - 1) as i32, y: (N / 2) as i32 }
    }
}

/// The `i`-th cell of the edge that the player in seat `id` has to reach.
pub open spec fn goal_cell(id: int, i: int) -> Point {
    if id == 0 {
        Point { x: i as i32, y: (N - 1) as i32 }
    } else if id == 1 {
        Point { x: i as i32, y: 0 }
    } else if id == 2 {
        Point { x: (N - 1) as i32, y: i as i32 }
    } else {
        Point { x: 0, y: i as i32 }
    }
}

impl Player {
    /// Whether the pawn stands on the edge it has to reach.
    pub fn has_won(&self) -> (r: bool)
        ensures
            r == on_goal_edge(self.id as int, self.p),
    {
        (self.id == 0 && self.p.y == N - 1) || (self.id == 1 && self.p.y == 0) || (self.id == 2
            && self.p.x == N - 1) || (self.id == 3 && self.p.x == 0)
    }

    /// Whether `key` is the secret that the player registered with.
    pub fn key_matches(&self, key: &str) -> (r: bool)
        ensures
            r == (self.key@ == key@),
    {
        self.key == String::from_str(key)
    }
}

} // verus!
