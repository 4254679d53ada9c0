//! Turns that can be taken and taken back

use vstd::prelude::*;
use vstd::string::*;
use crate::board::{Direction, Wall};
use crate::errors::{QuoridorError, QuoridorResult};
use crate::player::Player;
use crate::quoridor::Game;
use crate::rules::{registered, seat_of, GameView};

verus! {

/// A turn as a value, to try out and to take back: a step, a wall, or a
/// jump, which is asked for like a step.
#[derive(Clone, Copy, PartialEq, Eq, Structural, Debug)]
pub enum Turn {
    Move(Direction),
    PlaceWall(Wall),
    Jump(Direction),
}

impl Turn {
    /// What taking this turn for the player `name` leads to: what the turn
    /// leads to in the game, where the player has to be the one to move.
    pub open spec fn outcome(self, g: GameView, name: Seq<char>) -> Result<GameView, QuoridorError> {
        match self {
            Turn::PlaceWall(wall) => g.after_wall_turn(name, wall),
            Turn::Move(direction) => g.after_step_turn(name, direction),
            Turn::Jump(direction) => g.after_step_turn(name, direction),
        }
    }

    /// What taking this turn back for the player `name` leads to.
    pub open spec fn undone(self, g: GameView, name: Seq<char>) -> Result<GameView, QuoridorError> {
        match self {
            Turn::PlaceWall(wall) => Ok(GameView { walls: g.walls.remove(wall), ..g }),
            _ => if registered(g.players, name) {
                Ok(g.with_move_undone(seat_of(g.players, name)))
            } else {
                Err(QuoridorError::PlayerNotFound)
            },
        }
    }

    /// Take a turn
    pub fn take(&self, game: &mut Game, player: &Player) -> (r: QuoridorResult<()>)
        requires
            old(game).wf(),
        ensures
            final(game).wf(),
            match self.outcome(old(game)@, player.name@) {
                Ok(g) => final(game)@ == g && r.is_ok(),
                Err(e) => final(game)@ == old(game)@ && r == Err::<(), QuoridorError>(e),
            },
    {
        let done = match *self {
            Turn::PlaceWall(wall) => game.add_wall(player.name.as_str(), &wall),
            Turn::Move(direction) => game.move_player(player.name.as_str(), direction),
            Turn::Jump(direction) => game.move_player(player.name.as_str(), direction),
        };
        match done {
            Ok(_) => Ok(()),
            Err(e) => Err(e),
        }
    }

    /// Undo a turn
    pub fn undo(&self, game: &mut Game, player: &Player) -> (r: QuoridorResult<()>)
        requires
            old(game).wf(),
        ensures
            final(game).wf(),
            match self.undone(old(game)@, player.name@) {
                Ok(g) => final(game)@ == g && r.is_ok(),
                Err(e) => final(game)@ == old(game)@ && r == Err::<(), QuoridorError>(e),
            },
    {
        match *self {
            Turn::PlaceWall(wall) => {
                game.remove_wall(&wall);
                Ok(())
            },
            Turn::Move(_) => game.undo_move(player.name.as_str()),
            Turn::Jump(_) => game.undo_move(player.name.as_str()),
        }
    }
}

} // verus!
