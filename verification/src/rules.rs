//! The rules of the game, as functions on plain values: what a game is,
//! which steps, jumps and walls its rules allow, and what each request of a
//! player leads to.

use vstd::prelude::*;
use crate::board::{Direction, Point, Wall};
use crate::constants::N;
use crate::errors::QuoridorError;
use crate::paths::reaches;
use crate::player::{goal_cell, on_goal_edge, start_cell, PlayerView};
use crate::quoridor::GameState;
use crate::walls::{blocked, collides, passages};

verus! {

/// A game as a plain value.
pub struct GameView {
    pub walls: Set<Wall>,
    pub players: Seq<PlayerView>,
    pub state: GameState,
    pub quota: nat,
}

/// Whether a pawn stands on the cell `p`.
pub open spec fn occupied(players: Seq<PlayerView>, p: Point) -> bool {
    exists|i: int| 0 <= i < players.len() && (#[trigger] players[i]).p == p
}

/// Whether a player is registered under `name`.
pub open spec fn registered(players: Seq<PlayerView>, name: Seq<char>) -> bool {
    exists|i: int| 0 <= i < players.len() && (#[trigger] players[i]).name == name
}

/// The seat of the player registered under `name`.
pub open spec fn seat_of(players: Seq<PlayerView>, name: Seq<char>) -> int {
    choose|i: int| 0 <= i < players.len() && (#[trigger] players[i]).name == name
}

/// Whether a pawn may take the single step from `a` to `b`.
pub open spec fn step_allowed(g: GameView, a: Point, b: Point) -> bool {
    &&& a.spec_neighbors(b)
    &&& a.spec_inbounds()
    &&& b.spec_inbounds()
    &&& !occupied(g.players, b)
    &&& !blocked(g.walls, a, b)
}

/// The ruling on a single step of a pawn from `a` to `b`: both cells are on
/// the board, they are neighbours, no pawn stands on `b`, and no wall lies
/// between them.
pub open spec fn step_verdict(g: GameView, a: Point, b: Point) -> Result<(), QuoridorError> {
    if !a.spec_inbounds() || !b.spec_inbounds() {
        Err(QuoridorError::OutOfBounds)
    } else if !a.spec_neighbors(b) {
        Err(QuoridorError::InvalidJump)
    } else if occupied(g.players, b) {
        Err(QuoridorError::OccupiedCell)
    } else if blocked(g.walls, a, b) {
        Err(QuoridorError::WallBlocksPath)
    } else {
        Ok(())
    }
}

/// Whether some sequence of steps, past the walls and through any pawn,
/// leads from the cell `p` to the edge that the player in seat `id` has to
/// reach.
pub open spec fn can_reach_goal(walls: Set<Wall>, id: int, p: Point) -> bool {
    &&& 0 <= id < 4
    &&& exists|i: int| 0 <= i < N && reaches(passages(walls), p, #[trigger] goal_cell(id, i))
}

/// Whether every player can still reach the edge it has to reach.
pub open spec fn all_can_reach_goal(walls: Set<Wall>, players: Seq<PlayerView>) -> bool {
    forall|i: int|
        0 <= i < players.len() ==> can_reach_goal(walls, (#[trigger] players[i]).id as int, players[i].p)
}

/// Whether the move from `a` to `b` is a jump in a straight line: two cells
/// along one axis, over a pawn on the cell in between, with no wall before
/// or behind that pawn.
pub open spec fn linear_jump_allowed(g: GameView, a: Point, b: Point) -> bool {
    let dx = b.x - a.x;
    let dy = b.y - a.y;
    let mid = Point::at(a.x + dx / 2, a.y + dy / 2);
    &&& (dx == 0 && (dy == 2 || dy == -2)) || (dy == 0 && (dx == 2 || dx == -2))
    &&& occupied(g.players, mid)
    &&& !blocked(g.walls, a, mid)
    &&& !blocked(g.walls, mid, b)
}

/// Whether the pawn on the cell `over`, next to `a`, lets a pawn go round it
/// from `a` to `b`: the cell behind it, `(behind_x, behind_y)`, is off the
/// board or walled off, and no wall lies between `a` and `over` or between
/// `over` and `b`.
pub open spec fn corner_via(g: GameView, a: Point, b: Point, over: Point, behind_x: int, behind_y: int) -> bool {
    &&& occupied(g.players, over)
    &&& (!(0 <= behind_x < N && 0 <= behind_y < N) || blocked(g.walls, over, Point::at(behind_x, behind_y)))
    &&& !blocked(g.walls, a, over)
    &&& !blocked(g.walls, over, b)
}

/// Whether the move from `a` to `b` is a jump round a corner: one cell
/// diagonally, round a pawn that stands next to `a` in one of the two
/// directions of the diagonal and cannot be jumped in a straight line.
pub open spec fn corner_jump_allowed(g: GameView, a: Point, b: Point) -> bool {
    let dx = b.x - a.x;
    let dy = b.y - a.y;
    &&& (dx == 1 || dx == -1) && (dy == 1 || dy == -1)
    &&& corner_via(g, a, b, Point { x: b.x, y: a.y }, b.x + dx, a.y as int) || corner_via(
        g,
        a,
        b,
        Point { x: a.x, y: b.y },
        a.x as int,
        b.y + dy,
    )
}

/// Whether the move from `a` to `b` is a legal jump.
pub open spec fn jump_allowed(g: GameView, a: Point, b: Point) -> bool {
    linear_jump_allowed(g, a, b) || corner_jump_allowed(g, a, b)
}

/// The ruling on a move of a pawn from `a` to `b`: both cells are on the
/// board and differ, `b` is free, and the move is a step that no wall blocks
/// or a legal jump.
pub open spec fn move_verdict(g: GameView, a: Point, b: Point) -> Result<(), QuoridorError> {
    if !a.spec_inbounds() || !b.spec_inbounds() {
        Err(QuoridorError::OutOfBounds)
    } else if a == b {
        Err(QuoridorError::InvalidJump)
    } else if occupied(g.players, b) {
        Err(QuoridorError::OccupiedCell)
    } else if a.spec_neighbors(b) {
        if blocked(g.walls, a, b) {
            Err(QuoridorError::WallBlocksPath)
        } else {
            Ok(())
        }
    } else if jump_allowed(g, a, b) {
        Ok(())
    } else {
        Err(QuoridorError::InvalidJump)
    }
}

/// The ruling on a wall that a player wants to place: it is centred inside
/// the board, it does not collide with a wall already placed, and with it
/// every player can still reach its goal edge.
pub open spec fn wall_verdict(g: GameView, w: Wall) -> Result<(), QuoridorError> {
    if !w.spec_inbounds() {
        Err(QuoridorError::OutOfBounds)
    } else if collides(g.walls, w) {
        Err(QuoridorError::WallCollision)
    } else if !all_can_reach_goal(g.walls.insert(w), g.players) {
        Err(QuoridorError::WallWouldStrandPlayer)
    } else {
        Ok(())
    }
}

/// Number of walls that each player gets when a game of `count` players
/// starts.
pub open spec fn allowance(count: int) -> u8 {
    if count == 4 {
        5
    } else {
        10
    }
}

/// The players, each with the walls it gets at the start of the game.
pub open spec fn with_allowances(players: Seq<PlayerView>) -> Seq<PlayerView> {
    Seq::new(
        players.len(),
        |i: int| PlayerView { walls: allowance(players.len() as int), ..players[i] },
    )
}

/// The seat of the first player, from seat `from` on, whose pawn stands on
/// its goal edge.
pub open spec fn first_winner(players: Seq<PlayerView>, from: int) -> Option<u8>
    decreases players.len() - from,
{
    if from < 0 || from >= players.len() {
        None
    } else if on_goal_edge(players[from].id as int, players[from].p) {
        Some(players[from].id)
    } else {
        first_winner(players, from + 1)
    }
}

impl GameView {
    /// What holds of every game: the seats are numbered in order, no name is
    /// taken twice, every pawn stands on the board, and the state names a
    /// seat that is taken.
    pub open spec fn wf(self) -> bool {
        &&& self.quota == 2 || self.quota == 4
        &&& forall|w: Wall| self.walls.contains(w) ==> w.spec_inbounds()
        &&& self.players.len() <= self.quota
        &&& forall|i: int| 0 <= i < self.players.len() ==> (#[trigger] self.players[i]).id == i
        &&& forall|i: int| 0 <= i < self.players.len() ==> (#[trigger] self.players[i]).p.spec_inbounds()
        &&& forall|i: int|
            0 <= i < self.players.len() ==> ((#[trigger] self.players[i]).last_position matches Some(q)
                ==> q.spec_inbounds())
        &&& forall|i: int, j: int|
            0 <= i < self.players.len() && 0 <= j < self.players.len() && i != j ==> (
            #[trigger] self.players[i]).name != (#[trigger] self.players[j]).name
        &&& match self.state {
            GameState::Setup => true,
            GameState::Started(turn) => turn < self.players.len(),
            GameState::GameOver(winner) => winner < self.players.len(),
        }
    }

    /// This game once it has started: every player has its walls, and the
    /// first seat is to move. Only a game that is being set up and in which
    /// every seat is taken starts.
    pub open spec fn started(self) -> GameView {
        if self.state == GameState::Setup && self.players.len() == self.quota {
            GameView { players: with_allowances(self.players), state: GameState::Started(0), ..self }
        } else {
            self
        }
    }

    /// What the registration of a player leads to. The player takes the next
    /// seat, and the game starts when the last seat is taken. A name that is
    /// taken is refused first; then a registration for which no seat is
    /// left; then one for a game that is no longer being set up.
    pub open spec fn after_registration(self, name: Seq<char>, key: Seq<char>) -> Result<
        GameView,
        QuoridorError,
    > {
        if registered(self.players, name) {
            Err(QuoridorError::DuplicateRegistration)
        } else if self.players.len() >= self.quota {
            Err(QuoridorError::RegistrationFull)
        } else if self.state != GameState::Setup {
            Err(QuoridorError::RegistrationClosed)
        } else {
            let seat = self.players.len() as int;
            let joined = GameView {
                players: self.players.push(
                    PlayerView {
                        p: start_cell(seat),
                        key: key,
                        id: seat as u8,
                        walls: 10,
                        name: name,
                        last_position: None,
                    },
                ),
                ..self
            };
            if joined.players.len() == self.quota {
                Ok(joined.started())
            } else {
                Ok(joined)
            }
        }
    }

    /// The state after a turn: the game is over if a pawn stands on its goal
    /// edge, else the next seat is to move.
    pub open spec fn next_state(self) -> GameState {
        match self.state {
            GameState::Started(turn) => match first_winner(self.players, 0) {
                Some(winner) => GameState::GameOver(winner),
                None => GameState::Started(((turn + 1) % (self.players.len() as int)) as u8),
            },
            _ => self.state,
        }
    }

    /// What the end of a turn leads to.
    pub open spec fn after_turn(self) -> Result<GameView, QuoridorError> {
        match self.state {
            GameState::Started(_) => Ok(GameView { state: self.next_state(), ..self }),
            GameState::Setup => Err(QuoridorError::NotPlayersTurn),
            GameState::GameOver(_) => Err(QuoridorError::GameAlreadyOver),
        }
    }

    /// Who may act: the seat of the player `name` if the game is under way
    /// and it is that player's turn, else the reason why the player may not
    /// act.
    pub open spec fn turn_guard(self, name: Seq<char>) -> Result<int, QuoridorError> {
        match self.state {
            GameState::GameOver(_) => Err(QuoridorError::GameAlreadyOver),
            GameState::Setup => if registered(self.players, name) {
                Err(QuoridorError::NotPlayersTurn)
            } else {
                Err(QuoridorError::PlayerNotFound)
            },
            GameState::Started(turn) => if !registered(self.players, name) {
                Err(QuoridorError::PlayerNotFound)
            } else if seat_of(self.players, name) != turn {
                Err(QuoridorError::NotPlayersTurn)
            } else {
                Ok(turn as int)
            },
        }
    }

    /// This game after the player in seat `seat` has taken its turn: the
    /// player has won if its pawn stands on its goal edge, else the next
    /// seat is to move.
    pub open spec fn turn_taken(self, seat: int) -> GameView {
        GameView {
            state: if on_goal_edge(seat, self.players[seat].p) {
                GameState::GameOver(seat as u8)
            } else {
                GameState::Started(((seat + 1) % (self.players.len() as int)) as u8)
            },
            ..self
        }
    }

    /// What the turn in which the player `name` moves its pawn to `pos`
    /// leads to.
    pub open spec fn after_move_turn(self, name: Seq<char>, pos: Point) -> Result<GameView, QuoridorError> {
        match self.turn_guard(name) {
            Err(e) => Err(e),
            Ok(seat) => match self.after_move(name, pos) {
                Err(e) => Err(e),
                Ok(g) => Ok(g.turn_taken(seat)),
            },
        }
    }

    /// What the turn in which the player `name` moves its pawn one step in
    /// direction `d` leads to.
    pub open spec fn after_step_turn(self, name: Seq<char>, d: Direction) -> Result<GameView, QuoridorError> {
        match self.turn_guard(name) {
            Err(e) => Err(e),
            Ok(seat) => self.after_move_turn(name, self.players[seat].p.moved(d)),
        }
    }

    /// What the turn in which the player `name` places the wall `w` leads
    /// to: the wall stands, the player has one wall less, and the next seat
    /// is to move.
    pub open spec fn after_wall_turn(self, name: Seq<char>, w: Wall) -> Result<GameView, QuoridorError> {
        match self.turn_guard(name) {
            Err(e) => Err(e),
            Ok(seat) => if self.players[seat].walls == 0 {
                Err(QuoridorError::NoWallsRemaining)
            } else {
                match wall_verdict(self, w) {
                    Err(e) => Err(e),
                    Ok(_) => Ok(
                        GameView {
                            walls: self.walls.insert(w),
                            players: self.players.update(
                                seat,
                                PlayerView {
                                    walls: (self.players[seat].walls - 1) as u8,
                                    ..self.players[seat]
                                },
                            ),
                            state: GameState::Started(((seat + 1) % (self.players.len() as int)) as u8),
                            quota: self.quota,
                        },
                    ),
                }
            },
        }
    }

    /// What the turn in which the player `name` places the wall that runs
    /// from the lattice point `a` to the lattice point `b` leads to.
    pub open spec fn after_wall_between_turn(self, name: Seq<char>, a: Point, b: Point) -> Result<
        GameView,
        QuoridorError,
    > {
        match self.turn_guard(name) {
            Err(e) => Err(e),
            Ok(_) => match Wall::between((a.x as int, a.y as int), (b.x as int, b.y as int)) {
                None => Err(QuoridorError::InvalidWallGeometry),
                Some(w) => self.after_wall_turn(name, w),
            },
        }
    }

    /// This game with the last move of the pawn in seat `seat` taken back.
    pub open spec fn with_move_undone(self, seat: int) -> GameView {
        match self.players[seat].last_position {
            Some(q) => GameView {
                players: self.players.update(
                    seat,
                    PlayerView { p: q, last_position: None, ..self.players[seat] },
                ),
                ..self
            },
            None => self,
        }
    }

    /// This game with the turn handed back to the seat before.
    pub open spec fn turn_reverted(self) -> GameView {
        match self.state {
            GameState::Started(turn) => GameView {
                state: GameState::Started(
                    ((turn + self.players.len() - 1) % (self.players.len() as int)) as u8,
                ),
                ..self
            },
            _ => self,
        }
    }

    /// This game with the pawn of seat `seat` moved to `pos`.
    pub open spec fn with_pawn_at(self, seat: int, pos: Point) -> GameView {
        GameView {
            players: self.players.update(
                seat,
                PlayerView { p: pos, last_position: Some(self.players[seat].p), ..self.players[seat] },
            ),
            ..self
        }
    }

    /// What the move itself of the pawn of the player `name` to `pos` leads
    /// to, before the turn passes: the pawn stands on `pos` and the cell it
    /// left is kept; or the reason why the move is no legal one.
    pub open spec fn after_move(self, name: Seq<char>, pos: Point) -> Result<GameView, QuoridorError> {
        if !registered(self.players, name) {
            Err(QuoridorError::PlayerNotFound)
        } else {
            let seat = seat_of(self.players, name);
            match move_verdict(self, self.players[seat].p, pos) {
                Ok(_) => Ok(self.with_pawn_at(seat, pos)),
                Err(e) => Err(e),
            }
        }
    }
}

/// A winner is one of the players.
pub proof fn lemma_first_winner_is_seated(players: Seq<PlayerView>, from: int)
    requires
        0 <= from,
        forall|i: int| 0 <= i < players.len() ==> (#[trigger] players[i]).id == i,
    ensures
        first_winner(players, from) matches Some(w) ==> from <= w < players.len() && on_goal_edge(
            w as int,
            players[w as int].p,
        ),
        first_winner(players, from).is_none() ==> forall|i: int|
            from <= i < players.len() ==> !on_goal_edge(i, (#[trigger] players[i]).p),
    decreases players.len() - from,
{
    if from < players.len() {
        if !on_goal_edge(players[from].id as int, players[from].p) {
            lemma_first_winner_is_seated(players, from + 1);
        }
    }
}

} // verus!
