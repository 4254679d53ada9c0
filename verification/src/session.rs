//! One game shared by many clients: what each request does to it, and the
//! count of turns by which a client that waits learns of a change.

use vstd::prelude::*;
use vstd::string::*;
use crate::board::{Direction, Point};
use crate::errors::{QuoridorError, QuoridorResult};
use crate::quoridor::Game;
use crate::rules::GameView;
use crate::snapshot::Snapshot;

verus! {

/// A request that changes the game.
#[derive(Debug)]
pub enum Operation {
    Register { name: String, key: String },
    MoveTo { name: String, position: Point },
    Move { name: String, direction: Direction },
    PlaceWall { name: String, p1: Point, p2: Point },
}

/// A request as a plain value.
pub enum OperationView {
    Register { name: Seq<char>, key: Seq<char> },
    MoveTo { name: Seq<char>, position: Point },
    Move { name: Seq<char>, direction: Direction },
    PlaceWall { name: Seq<char>, p1: Point, p2: Point },
}

impl View for Operation {
    type V = OperationView;

    open spec fn view(&self) -> OperationView {
        match self {
            Operation::Register { name, key } => OperationView::Register { name: name@, key: key@ },
            Operation::MoveTo { name, position } => OperationView::MoveTo { name: name@, position: *position },
            Operation::Move { name, direction } => OperationView::Move { name: name@, direction: *direction },
            Operation::PlaceWall { name, p1, p2 } => OperationView::PlaceWall { name: name@, p1: *p1, p2: *p2 },
        }
    }
}

impl GameView {
    /// What a request leads to: the game after it, or the reason why it is
    /// refused.
    pub open spec fn after(self, op: OperationView) -> Result<GameView, QuoridorError> {
        match op {
            OperationView::Register { name, key } => self.after_registration(name, key),
            OperationView::MoveTo { name, position } => self.after_move_turn(name, position),
            OperationView::Move { name, direction } => self.after_step_turn(name, direction),
            OperationView::PlaceWall { name, p1, p2 } => self.after_wall_between_turn(name, p1, p2),
        }
    }
}

/// A game and the number of requests that have changed it.
#[derive(Debug)]
pub struct Session {
    pub game: Game,
    pub turns: u64,
}

impl Session {
    /// What the functions of a session ask of it and keep.
    pub open spec fn wf(&self) -> bool {
        self.game.wf()
    }

    /// A session on `game`, in which no turn has been counted.
    pub fn new(game: Game) -> (s: Session)
        requires
            game.wf(),
        ensures
            s.wf(),
            s.game == game,
            s.turns == 0,
    {
        Session { game: game, turns: 0 }
    }

    /// Carries out one request. A request that is accepted changes the game
    /// and adds one to the count of turns; one that is refused changes
    /// nothing. The answer to an accepted request is the game after it.
    pub fn mutate(&mut self, op: &Operation) -> (r: QuoridorResult<Snapshot>)
        requires
            old(self).wf(),
            old(self).turns < u64::MAX,
        ensures
            final(self).wf(),
            match old(self).game@.after(op@) {
                Ok(g) => final(self).game@ == g && final(self).turns == old(self).turns + 1 && r.is_ok()
                    && r.unwrap()@.depicts(g),
                Err(e) => final(self).game@ == old(self).game@ && final(self).turns == old(self).turns
                    && r.is_err() && r.unwrap_err() == e,
            },
    {
        let done: QuoridorResult<()> = match op {
            Operation::Register { name, key } => {
                match self.game.add_player(name.as_str(), key.as_str()) {
                    Ok(_) => Ok(()),
                    Err(e) => Err(e),
                }
            },
            Operation::MoveTo { name, position } => {
                match self.game.move_player_to(name.as_str(), *position) {
                    Ok(_) => Ok(()),
                    Err(e) => Err(e),
                }
            },
            Operation::Move { name, direction } => {
                match self.game.move_player(name.as_str(), *direction) {
                    Ok(_) => Ok(()),
                    Err(e) => Err(e),
                }
            },
            Operation::PlaceWall { name, p1, p2 } => {
                match self.game.add_wall_tuples(name.as_str(), (p1.x, p1.y), (p2.x, p2.y)) {
                    Ok(_) => Ok(()),
                    Err(e) => Err(e),
                }
            },
        };
        match done {
            Ok(_) => {
                self.turns = self.turns + 1;
                Ok(self.game.snapshot())
            },
            Err(e) => Err(e),
        }
    }

    /// The game as it stands.
    pub fn state(&self) -> (doc: Snapshot)
        requires
            self.wf(),
        ensures
            doc@.depicts(self.game@),
    {
        self.game.snapshot()
    }

    /// The board as text.
    pub fn render(&self) -> (text: String)
        ensures
            text@ == crate::render::board_text(self.game@),
    {
        self.game.render()
    }

    /// Whether `key` is the secret that the player `name` registered with.
    pub fn authorized(&self, name: &str, key: &str) -> (r: bool)
        requires
            self.wf(),
        ensures
            r == self.game.spec_credential_matches(name@, key@),
    {
        self.game.credential_matches(name, key)
    }

    /// The number of requests that have changed the game.
    pub fn turn_counter(&self) -> (n: u64)
        ensures
            n == self.turns,
    {
        self.turns
    }

    /// Whether a client that saw the count of turns at `seen` has to go on
    /// waiting: no request has changed the game since.
    pub fn unchanged_since(&self, seen: u64) -> (r: bool)
        ensures
            r == (self.turns == seen),
    {
        self.turns == seen
    }
}

} // verus!
