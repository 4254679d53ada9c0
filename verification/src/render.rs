//! The board as text.

use vstd::prelude::*;
use vstd::string::*;
use crate::board::{Point, Wall};
use crate::constants::N;
use crate::player::PlayerView;
use crate::quoridor::Game;
use crate::rules::GameView;
use crate::text::{decimal, decimal_of, padded, padded_of};
use crate::walls::blocked;

verus! {

/// The seat of the first player, from seat `from` on, whose pawn stands on
/// the cell `p`.
pub open spec fn first_at(players: Seq<PlayerView>, p: Point, from: int) -> Option<u8>
    decreases players.len() - from,
{
    if from < 0 || from >= players.len() {
        None
    } else if players[from].p == p {
        Some(players[from].id)
    } else {
        first_at(players, p, from + 1)
    }
}

/// What stands for the cell `p`: the seat of the pawn on it, or a blank.
pub open spec fn mark(players: Seq<PlayerView>, p: Point) -> Seq<char> {
    match first_at(players, p, 0) {
        Some(id) => decimal(id as int),
        None => " "@,
    }
}

/// The numbers of the first `upto` columns, each four characters wide.
pub open spec fn column_numbers(upto: int) -> Seq<char>
    decreases upto,
{
    if upto <= 0 {
        Seq::empty()
    } else {
        column_numbers(upto - 1) + padded(upto - 1, 4)
    }
}

/// The line above the first `upto` cells of row `j`: under each corner
/// comes a dash where a wall lies between the cell and the one north of it.
pub open spec fn lintel(walls: Set<Wall>, j: int, upto: int) -> Seq<char>
    decreases upto,
{
    if upto <= 0 {
        Seq::empty()
    } else {
        lintel(walls, j, upto - 1) + (if blocked(
            walls,
            Point::at(upto - 1, j),
            Point::at(upto - 1, j - 1),
        ) {
            "+ - "@
        } else {
            "+   "@
        })
    }
}

/// The first `upto` cells of row `j`: before each cell comes a bar where a
/// wall lies between it and the one west of it.
pub open spec fn cells(g: GameView, j: int, upto: int) -> Seq<char>
    decreases upto,
{
    if upto <= 0 {
        Seq::empty()
    } else {
        cells(g, j, upto - 1) + (if blocked(g.walls, Point::at(upto - 1, j), Point::at(upto - 2, j)) {
            "| "@
        } else {
            "  "@
        }) + mark(g.players, Point::at(upto - 1, j)) + " "@
    }
}

/// The two lines of row `j`.
pub open spec fn row(g: GameView, j: int) -> Seq<char> {
    "   "@ + lintel(g.walls, j, N as int) + "+\n"@ + padded(j, 2) + " "@ + cells(g, j, N as int) + "\n"@
}

/// The first `upto` rows.
pub open spec fn rows(g: GameView, upto: int) -> Seq<char>
    decreases upto,
{
    if upto <= 0 {
        Seq::empty()
    } else {
        rows(g, upto - 1) + row(g, upto - 1)
    }
}

/// The line under the first `upto` cells of the last row.
pub open spec fn sill(upto: int) -> Seq<char>
    decreases upto,
{
    if upto <= 0 {
        Seq::empty()
    } else {
        sill(upto - 1) + "+   "@
    }
}

/// The board as text: a line of column numbers, two lines for each row, and
/// a last line that closes the board.
pub open spec fn board_text(g: GameView) -> Seq<char> {
    "  "@ + column_numbers(N as int) + "\n"@ + rows(g, N as int) + "   "@ + sill(N as int) + "+\n"@
}

impl Game {
    /// What stands for the cell `p`.
    fn mark_at(&self, p: Point) -> (text: String)
        ensures
            text@ == mark(self@.players, p),
    {
        let mut i: usize = 0;
        while i < self.players.len()
            invariant
                i <= self.players@.len(),
                first_at(self@.players, p, 0) == first_at(self@.players, p, i as int),
            decreases self.players@.len() - i,
        {
            if self.players[i].p == p {
                assert(self@.players[i as int].p == p);
                return decimal_of(self.players[i].id as i32);
            }
            assert(self@.players[i as int].p != p);
            i = i + 1;
        }
        String::from_str(" ")
    }

    /// The two lines of row `j`.
    fn row_text(&self, j: i32) -> (text: String)
        requires
            0 <= j < N,
        ensures
            text@ == row(self@, j as int),
    {
        let mut above = String::new();
        let mut inside = String::new();
        let mut i: i32 = 0;
        while i < N
            invariant
                0 <= i <= N,
                0 <= j < N,
                above@ == lintel(self@.walls, j as int, i as int),
                inside@ == cells(self@, j as int, i as int),
            decreases N - i,
        {
            let here = Point { x: i, y: j };
            if !self.has_wall_between(here, Point { x: i, y: j - 1 }) {
                above.append("+   ");
            } else {
                above.append("+ - ");
            }
            if !self.has_wall_between(here, Point { x: i - 1, y: j }) {
                inside.append("  ");
            } else {
                inside.append("| ");
            }
            inside.append(self.mark_at(here).as_str());
            inside.append(" ");
            i = i + 1;
        }
        let mut text = String::from_str("   ");
        text.append(above.as_str());
        text.append("+\n");
        text.append(padded_of(j, 2).as_str());
        text.append(" ");
        text.append(inside.as_str());
        text.append("\n");
        text
    }

    /// Construct ASCII representation
    pub fn render(&self) -> (text: String)
        ensures
            text@ == board_text(self@),
    {
        let mut numbers = String::new();
        let mut below = String::new();
        let mut i: i32 = 0;
        while i < N
            invariant
                0 <= i <= N,
                numbers@ == column_numbers(i as int),
                below@ == sill(i as int),
            decreases N - i,
        {
            numbers.append(padded_of(i, 4).as_str());
            below.append("+   ");
            i = i + 1;
        }
        let mut body = String::new();
        // Vertical iteration
        let mut j: i32 = 0;
        while j < N
            invariant
                0 <= j <= N,
                body@ == rows(self@, j as int),
            decreases N - j,
        {
            body.append(self.row_text(j).as_str());
            j = j + 1;
        }
        let mut text = String::from_str("  ");
        text.append(numbers.as_str());
        text.append("\n");
        text.append(body.as_str());
        text.append("   ");
        text.append(below.as_str());
        text.append("+\n");
        text
    }
}

} // verus!
