//! What holds of every game, whatever the players do.

use vstd::prelude::*;
use crate::board::{Direction, Point, Wall};
use crate::constants::N;
use crate::errors::QuoridorError;
use crate::paths::{lemma_reaches_transitive, lemma_step_reaches, reaches, walk_between};
use crate::player::{goal_cell, on_goal_edge, start_cell, PlayerView};
use crate::quoridor::GameState;
use crate::rules::{
    all_can_reach_goal, can_reach_goal, corner_via, first_winner, jump_allowed,
    lemma_first_winner_is_seated, linear_jump_allowed, move_verdict, occupied, registered, seat_of,
    step_allowed, GameView,
};
use crate::snapshot::SnapshotView;
use crate::session::OperationView;
use crate::walls::{blocked, lemma_blocked_symmetric, passages};

verus! {

/// Two cells of which both or neither hold a pawn: a pawn may step from the
/// one to the other exactly if it may step back.
pub proof fn lemma_adj_symmetric(g: GameView, a: Point, b: Point)
    requires
        occupied(g.players, a) == occupied(g.players, b),
    ensures
        step_allowed(g, a, b) == step_allowed(g, b, a),
{
    lemma_blocked_symmetric(g.walls, a, b);
}

/// A wall that was not on the board, placed and taken away again, leaves
/// the ruling on every step and on every move as it was.
pub proof fn lemma_wall_round_trip(g: GameView, w: Wall, a: Point, b: Point)
    requires
        !g.walls.contains(w),
    ensures
        (GameView { walls: g.walls.insert(w).remove(w), ..g }) == g,
        step_allowed(GameView { walls: g.walls.insert(w).remove(w), ..g }, a, b) == step_allowed(g, a, b),
        move_verdict(GameView { walls: g.walls.insert(w).remove(w), ..g }, a, b) == move_verdict(g, a, b),
{
    assert(g.walls.insert(w).remove(w) =~= g.walls);
}

/// How far a game has come: it is being set up, it is under way, or it is
/// over.
pub open spec fn stage(state: GameState) -> int {
    match state {
        GameState::Setup => 0,
        GameState::Started(_) => 1,
        GameState::GameOver(_) => 2,
    }
}

impl GameView {
    /// Whether the state says of the pawns what is so: the game is over
    /// exactly if a pawn stands on its goal edge, and then that pawn's
    /// player has won.
    pub open spec fn decided(self) -> bool {
        match self.state {
            GameState::GameOver(winner) => first_winner(self.players, 0) == Some(winner),
            _ => first_winner(self.players, 0).is_none(),
        }
    }

    /// A game as the requests of its players make it: every player can
    /// reach its goal edge, no wall stands before the game has started, the
    /// game has started only when every seat was taken, and it is over
    /// exactly if a pawn stands on its goal edge.
    pub open spec fn fair(self) -> bool {
        &&& self.wf()
        &&& all_can_reach_goal(self.walls, self.players)
        &&& self.state == GameState::Setup ==> self.walls == Set::<Wall>::empty()
        &&& self.state != GameState::Setup ==> self.players.len() == self.quota
        &&& self.decided()
    }

    /// Whether `later` has the players of this game, each in its seat under
    /// its name and with its secret, and none of them with more walls than
    /// it has here.
    pub open spec fn same_players_in(self, later: GameView) -> bool {
        &&& later.players.len() == self.players.len()
        &&& forall|i: int|
            0 <= i < self.players.len() ==> {
                &&& (#[trigger] later.players[i]).id == self.players[i].id
                &&& later.players[i].name == self.players[i].name
                &&& later.players[i].key == self.players[i].key
                &&& later.players[i].walls <= self.players[i].walls
            }
    }
}

/// From where a pawn lands after a legal move, it can walk back to where it
/// came from.
pub proof fn lemma_move_can_be_walked_back(g: GameView, a: Point, b: Point)
    requires
        move_verdict(g, a, b).is_ok(),
    ensures
        reaches(passages(g.walls), b, a),
{
    let steps = passages(g.walls);
    if a.spec_neighbors(b) {
        lemma_blocked_symmetric(g.walls, a, b);
        assert(steps(b, a));
        lemma_step_reaches(steps, b, a);
    } else {
        let dx = b.x - a.x;
        let dy = b.y - a.y;
        let over = if linear_jump_allowed(g, a, b) {
            Point::at(a.x + dx / 2, a.y + dy / 2)
        } else if corner_via(g, a, b, Point { x: b.x, y: a.y }, b.x + dx, a.y as int) {
            Point { x: b.x, y: a.y }
        } else {
            Point { x: a.x, y: b.y }
        };
        assert(jump_allowed(g, a, b));
        assert(over.spec_inbounds());
        lemma_blocked_symmetric(g.walls, a, over);
        lemma_blocked_symmetric(g.walls, over, b);
        assert(steps(b, over));
        assert(steps(over, a));
        lemma_step_reaches(steps, b, over);
        lemma_step_reaches(steps, over, a);
        lemma_reaches_transitive(steps, b, over, a);
    }
}

/// A legal move leaves every player a way to its goal edge.
pub proof fn lemma_move_keeps_ways(g: GameView, name: Seq<char>, pos: Point)
    requires
        g.wf(),
        all_can_reach_goal(g.walls, g.players),
        g.after_move(name, pos).is_ok(),
    ensures
        all_can_reach_goal(g.after_move(name, pos).unwrap().walls, g.after_move(name, pos).unwrap().players),
{
    let seat = seat_of(g.players, name);
    let after = g.after_move(name, pos).unwrap();
    let from = g.players[seat].p;
    let steps = passages(g.walls);
    lemma_move_can_be_walked_back(g, from, pos);
    assert forall|i: int| 0 <= i < after.players.len() implies can_reach_goal(
        after.walls,
        (#[trigger] after.players[i]).id as int,
        after.players[i].p,
    ) by {
        assert(can_reach_goal(g.walls, g.players[i].id as int, g.players[i].p));
        if i == seat {
            let k = choose|k: int|
                0 <= k < N && reaches(steps, from, #[trigger] goal_cell(g.players[i].id as int, k));
            lemma_reaches_transitive(steps, pos, from, goal_cell(g.players[i].id as int, k));
        }
    }
}

/// On a board without walls the pawn of every seat can reach its goal edge
/// from the cell on which it starts.
pub proof fn lemma_start_reaches_goal(id: int)
    requires
        0 <= id < 4,
    ensures
        can_reach_goal(Set::<Wall>::empty(), id, start_cell(id)),
{
    let steps = passages(Set::<Wall>::empty());
    let s = Seq::new(
        9,
        |k: int|
            if id == 0 {
                Point { x: 4, y: k as i32 }
            } else if id == 1 {
                Point { x: 4, y: (8 - k) as i32 }
            } else if id == 2 {
                Point { x: k as i32, y: 4 }
            } else {
                Point { x: (8 - k) as i32, y: 4 }
            },
    );
    assert forall|i: int| 0 <= i < s.len() - 1 implies steps(#[trigger] s[i], s[i + 1]) by {
        assert(!blocked(Set::<Wall>::empty(), s[i], s[i + 1]));
    }
    assert(walk_between(steps, s, start_cell(id), goal_cell(id, 4)));
}

/// Where no pawn from seat `from` on stands on its goal edge, nobody has
/// won.
pub proof fn lemma_no_winner(players: Seq<PlayerView>, from: int)
    requires
        0 <= from,
        forall|i: int|
            from <= i < players.len() ==> !on_goal_edge((#[trigger] players[i]).id as int, players[i].p),
    ensures
        first_winner(players, from).is_none(),
    decreases players.len() - from,
{
    if from < players.len() {
        assert(!on_goal_edge(players[from].id as int, players[from].p));
        lemma_no_winner(players, from + 1);
    }
}

/// Where the pawn of seat `seat` is the first from seat `from` on that
/// stands on its goal edge, the player in that seat has won.
pub proof fn lemma_first_on_goal_wins(players: Seq<PlayerView>, from: int, seat: int)
    requires
        0 <= from <= seat < players.len(),
        players[seat].id == seat,
        on_goal_edge(seat, players[seat].p),
        forall|i: int| from <= i < seat ==> !on_goal_edge((#[trigger] players[i]).id as int, players[i].p),
    ensures
        first_winner(players, from) == Some(seat as u8),
    decreases seat - from,
{
    if from < seat {
        assert(!on_goal_edge(players[from].id as int, players[from].p));
        lemma_first_on_goal_wins(players, from + 1, seat);
    }
}

/// A new game is fair.
pub proof fn lemma_new_game_is_fair(quota: nat)
    requires
        quota == 2 || quota == 4,
    ensures
        (GameView {
            walls: Set::<Wall>::empty(),
            players: Seq::<PlayerView>::empty(),
            state: GameState::Setup,
            quota: quota,
        }).fair(),
{
}

/// A registration that is accepted leaves the game well formed. The game
/// starts in the same step, with the first seat to move, if the player took
/// the last seat, and is still being set up if it did not.
pub proof fn lemma_registration_starts_full_game(g: GameView, name: Seq<char>, key: Seq<char>)
    requires
        g.wf(),
        g.after_registration(name, key).is_ok(),
    ensures
        g.after_registration(name, key).unwrap().wf(),
        g.after_registration(name, key).unwrap().players.len() == g.players.len() + 1,
        g.players.len() + 1 == g.quota ==> g.after_registration(name, key).unwrap().state
            == GameState::Started(0),
        g.players.len() + 1 < g.quota ==> g.after_registration(name, key).unwrap().state == GameState::Setup,
{
    let after = g.after_registration(name, key).unwrap();
    let seat = g.players.len() as int;
    assert forall|i: int, j: int|
        0 <= i < after.players.len() && 0 <= j < after.players.len() && i != j implies (
        #[trigger] after.players[i]).name != (#[trigger] after.players[j]).name by {
        if i < seat && j < seat {
            assert(g.players[i].name != g.players[j].name);
        } else if i < seat {
            assert(g.players[i].name != name);
        } else {
            assert(g.players[j].name != name);
        }
    }
}

/// A registration leaves a fair game fair.
pub proof fn lemma_registration_keeps_fair(g: GameView, name: Seq<char>, key: Seq<char>)
    requires
        g.fair(),
        g.after_registration(name, key).is_ok(),
    ensures
        g.after_registration(name, key).unwrap().fair(),
{
    let after = g.after_registration(name, key).unwrap();
    let seat = g.players.len() as int;
    lemma_registration_starts_full_game(g, name, key);
    lemma_start_reaches_goal(seat);
    assert forall|i: int| 0 <= i < after.players.len() implies can_reach_goal(
        after.walls,
        (#[trigger] after.players[i]).id as int,
        after.players[i].p,
    ) by {
        if i < seat {
            assert(can_reach_goal(g.walls, g.players[i].id as int, g.players[i].p));
        }
    }
    lemma_first_winner_is_seated(g.players, 0);
    assert forall|i: int| 0 <= i < after.players.len() implies !on_goal_edge(
        (#[trigger] after.players[i]).id as int,
        after.players[i].p,
    ) by {
        if i < seat {
            assert(!on_goal_edge(i, g.players[i].p));
            assert(after.players[i].p == g.players[i].p);
        }
    }
    lemma_no_winner(after.players, 0);
}

/// Once every seat is taken, a further registration is refused: the game is
/// full.
pub proof fn lemma_full_game_refuses(g: GameView, name: Seq<char>, key: Seq<char>)
    requires
        g.wf(),
        g.players.len() == g.quota,
        !registered(g.players, name),
    ensures
        g.after_registration(name, key) == Err::<GameView, QuoridorError>(QuoridorError::RegistrationFull),
{
}

/// A fair game that has started is full: it refuses a registration because
/// the name is taken or because no seat is left, never because it has
/// started.
pub proof fn lemma_fair_game_closes_when_full(g: GameView, name: Seq<char>, key: Seq<char>)
    requires
        g.fair(),
    ensures
        g.after_registration(name, key) != Err::<GameView, QuoridorError>(QuoridorError::RegistrationClosed),
        g.state != GameState::Setup ==> g.after_registration(name, key).is_err(),
{
}

/// A turn in which a pawn moves leaves the game well formed and the
/// players what they were.
pub proof fn lemma_move_turn_keeps_wf(g: GameView, name: Seq<char>, pos: Point)
    requires
        g.wf(),
        g.after_move_turn(name, pos).is_ok(),
    ensures
        g.after_move_turn(name, pos).unwrap().wf(),
        g.same_players_in(g.after_move_turn(name, pos).unwrap()),
        g.after_move_turn(name, pos).unwrap().walls == g.walls,
{
    let seat = seat_of(g.players, name);
    let moved = g.after_move(name, pos).unwrap();
    assert(moved.players[seat].p == pos);
    assert forall|i: int, j: int|
        0 <= i < moved.players.len() && 0 <= j < moved.players.len() && i != j implies (
        #[trigger] moved.players[i]).name != (#[trigger] moved.players[j]).name by {
        assert(g.players[i].name != g.players[j].name);
    }
    assert forall|i: int| 0 <= i < moved.players.len() implies (
    (#[trigger] moved.players[i]).last_position matches Some(q) ==> q.spec_inbounds()) by {
        if i == seat {
            assert(g.players[seat].p.spec_inbounds());
        } else {
            assert(moved.players[i] == g.players[i]);
        }
    }
}

/// A turn in which a pawn moves leaves a fair game fair.
pub proof fn lemma_move_turn_keeps_fair(g: GameView, name: Seq<char>, pos: Point)
    requires
        g.fair(),
        g.after_move_turn(name, pos).is_ok(),
    ensures
        g.after_move_turn(name, pos).unwrap().fair(),
{
    lemma_move_turn_keeps_wf(g, name, pos);
    lemma_move_keeps_ways(g, name, pos);
    let seat = seat_of(g.players, name);
    let after = g.after_move_turn(name, pos).unwrap();
    lemma_first_winner_is_seated(g.players, 0);
    assert forall|i: int| 0 <= i < after.players.len() && i != seat implies !on_goal_edge(
        (#[trigger] after.players[i]).id as int,
        after.players[i].p,
    ) by {
        assert(!on_goal_edge(i, g.players[i].p));
        assert(after.players[i] == g.players[i]);
    }
    assert(after.players[seat].p == pos);
    if on_goal_edge(seat, pos) {
        lemma_first_on_goal_wins(after.players, 0, seat);
    } else {
        lemma_no_winner(after.players, 0);
    }
}

/// A turn in which a wall is placed leaves the game well formed and the
/// players what they were, but for the wall that the player has spent.
pub proof fn lemma_wall_turn_keeps_wf(g: GameView, name: Seq<char>, w: Wall)
    requires
        g.wf(),
        g.after_wall_turn(name, w).is_ok(),
    ensures
        g.after_wall_turn(name, w).unwrap().wf(),
        g.same_players_in(g.after_wall_turn(name, w).unwrap()),
        g.after_wall_turn(name, w).unwrap().walls == g.walls.insert(w),
        all_can_reach_goal(g.after_wall_turn(name, w).unwrap().walls, g.after_wall_turn(name, w).unwrap().players),
{
    let after = g.after_wall_turn(name, w).unwrap();
    assert forall|i: int| 0 <= i < after.players.len() implies can_reach_goal(
        after.walls,
        (#[trigger] after.players[i]).id as int,
        after.players[i].p,
    ) by {
        assert(can_reach_goal(after.walls, g.players[i].id as int, g.players[i].p));
    }
    assert forall|i: int, j: int|
        0 <= i < after.players.len() && 0 <= j < after.players.len() && i != j implies (
        #[trigger] after.players[i]).name != (#[trigger] after.players[j]).name by {
        assert(g.players[i].name != g.players[j].name);
    }
    assert forall|i: int| 0 <= i < after.players.len() implies (
    (#[trigger] after.players[i]).last_position matches Some(q) ==> q.spec_inbounds()) by {
        assert(after.players[i].last_position == g.players[i].last_position);
    }
}

/// A turn in which a wall is placed leaves a fair game fair: no wall that
/// is accepted cuts a player off from its goal edge.
pub proof fn lemma_wall_turn_keeps_fair(g: GameView, name: Seq<char>, w: Wall)
    requires
        g.fair(),
        g.after_wall_turn(name, w).is_ok(),
    ensures
        g.after_wall_turn(name, w).unwrap().fair(),
{
    lemma_wall_turn_keeps_wf(g, name, w);
    let after = g.after_wall_turn(name, w).unwrap();
    lemma_first_winner_is_seated(g.players, 0);
    assert forall|i: int| 0 <= i < after.players.len() implies !on_goal_edge(
        (#[trigger] after.players[i]).id as int,
        after.players[i].p,
    ) by {
        assert(!on_goal_edge(i, g.players[i].p));
        assert(after.players[i].p == g.players[i].p);
    }
    lemma_no_winner(after.players, 0);
}

/// A fair game, written to a document and set up again from it, is the game
/// that it was, but for what the document does not show: the players'
/// secrets and the cells of the pawns before their last moves.
pub proof fn lemma_fair_game_comes_back(g: GameView, doc: SnapshotView)
    requires
        g.fair(),
        doc.depicts(g),
    ensures
        g.state_shows(),
        doc.restorable(g.quota as int),
        doc.restored(g.quota as int) == g.public(),
{
    crate::snapshot::lemma_round_trip(g, doc);
}

/// While a game is under way, a player who is not to move is refused
/// whatever it tries, and so is everybody before the game has started.
pub proof fn lemma_out_of_turn_is_refused(g: GameView, name: Seq<char>, pos: Point, d: Direction, w: Wall)
    requires
        registered(g.players, name),
        g.state matches GameState::Started(turn) ==> seat_of(g.players, name) != turn,
        !(g.state is GameOver),
    ensures
        g.after_move_turn(name, pos) == Err::<GameView, QuoridorError>(QuoridorError::NotPlayersTurn),
        g.after_step_turn(name, d) == Err::<GameView, QuoridorError>(QuoridorError::NotPlayersTurn),
        g.after_wall_turn(name, w) == Err::<GameView, QuoridorError>(QuoridorError::NotPlayersTurn),
        g.after_wall_between_turn(name, pos, pos) == Err::<GameView, QuoridorError>(
            QuoridorError::NotPlayersTurn,
        ),
{
}

/// Once a player has won, every turn and every registration is refused: the
/// game is over.
pub proof fn lemma_game_over_is_final(g: GameView, op: OperationView, name: Seq<char>, w: Wall)
    requires
        g.state is GameOver,
    ensures
        g.after(op).is_err(),
        !(op is Register) ==> g.after(op) == Err::<GameView, QuoridorError>(QuoridorError::GameAlreadyOver),
        g.after_wall_turn(name, w) == Err::<GameView, QuoridorError>(QuoridorError::GameAlreadyOver),
        g.after_turn() == Err::<GameView, QuoridorError>(QuoridorError::GameAlreadyOver),
{
}

/// Whatever request is accepted: the game stays well formed, it goes
/// forward and never back, a fair game stays fair, so that its state can
/// still be read off its pawns, and once the game is under way the players
/// stay what they are and gain no wall.
pub proof fn lemma_request_keeps_order(g: GameView, op: OperationView)
    requires
        g.wf(),
        g.after(op).is_ok(),
    ensures
        g.after(op).unwrap().wf(),
        g.after(op).unwrap().quota == g.quota,
        stage(g.after(op).unwrap().state) >= stage(g.state),
        g.fair() ==> g.after(op).unwrap().fair(),
        g.fair() ==> g.after(op).unwrap().state_shows(),
        g.state is Started ==> g.same_players_in(g.after(op).unwrap()),
{
    match op {
        OperationView::Register { name, key } => {
            lemma_registration_starts_full_game(g, name, key);
            if g.fair() {
                lemma_registration_keeps_fair(g, name, key);
            }
        },
        OperationView::MoveTo { name, position } => {
            lemma_move_turn_keeps_wf(g, name, position);
            if g.fair() {
                lemma_move_turn_keeps_fair(g, name, position);
            }
        },
        OperationView::Move { name, direction } => {
            let seat = g.turn_guard(name).unwrap();
            let pos = g.players[seat].p.moved(direction);
            lemma_move_turn_keeps_wf(g, name, pos);
            if g.fair() {
                lemma_move_turn_keeps_fair(g, name, pos);
            }
        },
        OperationView::PlaceWall { name, p1, p2 } => {
            let w = Wall::between((p1.x as int, p1.y as int), (p2.x as int, p2.y as int)).unwrap();
            lemma_wall_turn_keeps_wf(g, name, w);
            if g.fair() {
                lemma_wall_turn_keeps_fair(g, name, w);
            }
        },
    }
}

} // verus!
