//! Quoridor game logic

use vstd::prelude::*;
use vstd::string::*;
use crate::adjacency_matrix::{index_of, AdjacencyMatrix};
use crate::board::{Direction, Point, Wall};
use crate::constants::{MAX_DIST, N};
use crate::errors::{QuoridorError, QuoridorResult};
use crate::paths::{cell_at, reaches, shortest_paths, walk_between};
use crate::player::{goal_cell, start_cell, Player, PlayerView};
use crate::rules::{
    all_can_reach_goal, allowance, can_reach_goal, corner_via, first_winner, jump_allowed,
    lemma_first_winner_is_seated, move_verdict, occupied, registered, seat_of, step_allowed, step_verdict,
    wall_verdict, with_allowances, GameView,
};
use crate::text::{point_text, point_to_string};
use crate::walls::{blocked, passages, WallSet};

verus! {

/// Where a game stands: players are still joining; it is the turn of the
/// player in the seat named; or the player in the seat named has won.
#[derive(Clone, Copy, PartialEq, Eq, Structural, Debug)]
pub enum GameState {
    Setup,
    GameOver(u8),
    Started(u8),
}

/// A game: the walls on the board, the players with their pawns, and whose
/// turn it is.
#[derive(Debug)]
pub struct Game {
    pub walls: WallSet,
    /// The players in the order in which they joined: a player's place in
    /// this list is its seat.
    pub players: Vec<Player>,
    pub state: GameState,
    /// Number of seats: 2 or 4.
    pub quota: usize,
}

impl View for Game {
    type V = GameView;

    open spec fn view(&self) -> GameView {
        GameView {
            walls: self.walls@,
            players: Seq::new(self.players@.len(), |i: int| self.players@[i]@),
            state: self.state,
            quota: self.quota as nat,
        }
    }
}

/// An owned copy of a text.
pub fn s(string: &str) -> (owned: String)
    ensures
        owned@ == string@,
{
    string.to_owned()
}

/// The `i`-th cell of the edge that the player in seat `id` has to reach.
fn goal_cell_of(id: u8, i: i32) -> (p: Point)
    requires
        id < 4,
        0 <= i < N,
    ensures
        p == goal_cell(id as int, i as int),
        p.spec_inbounds(),
{
    if id == 0 {
        Point { x: i, y: N - 1 }
    } else if id == 1 {
        Point { x: i, y: 0 }
    } else if id == 2 {
        Point { x: N - 1, y: i }
    } else {
        Point { x: 0, y: i }
    }
}

/// The cell on which the player in seat `id` starts.
fn start_cell_of(id: usize) -> (p: Point)
    ensures
        p == start_cell(id as int),
        p.spec_inbounds(),
{
    if id == 0 {
        Point { x: N / 2, y: 0 }
    } else if id == 1 {
        Point { x: N / 2, y: N - 1 }
    } else if id == 2 {
        Point { x: 0, y: N / 2 }
    } else {
        Point { x: N - 1, y: N / 2 }
    }
}

/// The graph of the steps that a pawn may take as the game stands, with the
/// other pawns in its way. The ways across the board are those that the
/// walls leave open: pawns move on, and so a way leads through them.
impl AdjacencyMatrix for Game {
    open spec fn links(&self) -> spec_fn(Point, Point) -> bool {
        |a: Point, b: Point| step_allowed(self@, a, b)
    }

    open spec fn ways(&self) -> spec_fn(Point, Point) -> bool {
        passages(self@.walls)
    }

    /// Whether a pawn may take the single step from `a` to `b`: the two are
    /// neighbouring cells of the board, no pawn stands on `b` and no wall
    /// lies between them.
    fn adj(&self, a: Point, b: Point) -> (r: bool) {
        let r = a.neighbors(b) && a.inbounds() && b.inbounds() && !self.pawn_at(b)
            && !self.has_wall_between(a, b);
        assert(r == (self.links())(a, b));
        r
    }

    /// Whether the walls leave the single step from `a` to `b` open,
    /// whatever pawn stands on `b`.
    fn passable(&self, a: Point, b: Point) -> (r: bool) {
        let r = self.walls.adj(a, b);
        assert(r == (self.ways())(a, b));
        r
    }
}

impl Game {
    /// What the functions of a game ask of it and keep.
    pub open spec fn wf(&self) -> bool {
        self.walls.wf() && self@.wf()
    }

    /// Create a default game: for two players, with no wall placed.
    pub fn new() -> (g: Game)
        ensures
            g.wf(),
            g@ == (GameView {
                walls: Set::<Wall>::empty(),
                players: Seq::<PlayerView>::empty(),
                state: GameState::Setup,
                quota: 2,
            }),
    {
        let g = Game { players: Vec::new(), walls: WallSet::new(), state: GameState::Setup, quota: 2 };
        assert(g@.players =~= Seq::<PlayerView>::empty());
        g
    }

    /// Create a game for `quota` players, which is 2 or 4.
    pub fn with_players(quota: usize) -> (r: Option<Game>)
        ensures
            r.is_some() <==> (quota == 2 || quota == 4),
            r matches Some(g) ==> g.wf() && g@ == (GameView {
                walls: Set::<Wall>::empty(),
                players: Seq::<PlayerView>::empty(),
                state: GameState::Setup,
                quota: quota as nat,
            }),
    {
        if quota == 2 || quota == 4 {
            let g = Game { players: Vec::new(), walls: WallSet::new(), state: GameState::Setup, quota: quota };
            assert(g@.players =~= Seq::<PlayerView>::empty());
            Some(g)
        } else {
            None
        }
    }

    /// The seat of the player registered under `name`, if there is one: the
    /// first such seat, which in a well formed game is the only one.
    pub fn find_player(&self, name: &str) -> (r: Option<usize>)
        ensures
            r.is_some() == registered(self@.players, name@),
            r matches Some(i) ==> i < self@.players.len() && self@.players[i as int].name == name@
                && forall|j: int| 0 <= j < i ==> (#[trigger] self@.players[j]).name != name@,
            self.wf() && r.is_some() ==> r.unwrap() == seat_of(self@.players, name@),
    {
        let wanted = String::from_str(name);
        let mut i: usize = 0;
        while i < self.players.len()
            invariant
                i <= self.players@.len(),
                wanted@ == name@,
                forall|j: int| 0 <= j < i ==> self@.players[j].name != name@,
            decreases self.players@.len() - i,
        {
            if self.players[i].name == wanted {
                assert(self@.players[i as int].name == name@);
                return Some(i);
            }
            i = i + 1;
        }
        None
    }

    /// The player registered under `name`.
    pub fn get_player(&self, name: &str) -> (p: &Player)
        requires
            self.wf(),
            registered(self@.players, name@),
        ensures
            p@ == self@.players[seat_of(self@.players, name@)],
    {
        let i = self.find_player(name).unwrap();
        &self.players[i]
    }

    /// Check if there is a player at position (x, y)
    pub fn get_player_at_position(&self, p: Point) -> (r: QuoridorResult<String>)
        ensures
            r.is_ok() == occupied(self@.players, p),
            r matches Ok(name) ==> exists|i: int|
                0 <= i < self@.players.len() && (#[trigger] self@.players[i]).p == p && self@.players[i].name
                    == name@ && forall|j: int| 0 <= j < i ==> (#[trigger] self@.players[j]).p != p,
            r matches Err(e) ==> e == QuoridorError::PlayerNotFound,
    {
        let mut i: usize = 0;
        while i < self.players.len()
            invariant
                i <= self.players@.len(),
                forall|j: int| 0 <= j < i ==> (#[trigger] self@.players[j]).p != p,
            decreases self.players@.len() - i,
        {
            if self.players[i].p == p {
                assert(self@.players[i as int].p == p);
                return Ok(self.players[i].name.clone());
            }
            i = i + 1;
        }
        Err(QuoridorError::PlayerNotFound)
    }

    /// Whether a wall lies across the step between the neighbouring cells
    /// `a` and `b`.
    pub fn has_wall_between(&self, a: Point, b: Point) -> (r: bool)
        ensures
            r == blocked(self@.walls, a, b),
    {
        self.walls.blocks(a, b)
    }

    /// Whether a pawn may take the single step from `a` to `b`, or why it
    /// may not. A move that is no single step is refused as no legal jump:
    /// to rule on jumps is for `describe_adj`.
    pub fn check_step(&self, a: Point, b: Point) -> (r: QuoridorResult<()>)
        ensures
            r == step_verdict(self@, a, b),
            r.is_ok() == step_allowed(self@, a, b),
    {
        if !a.inbounds() || !b.inbounds() {
            return Err(QuoridorError::OutOfBounds);
        }
        if !a.neighbors(b) {
            return Err(QuoridorError::InvalidJump);
        }
        if self.pawn_at(b) {
            return Err(QuoridorError::OccupiedCell);
        }
        if self.has_wall_between(a, b) {
            return Err(QuoridorError::WallBlocksPath);
        }
        Ok(())
    }

    /// Whether a pawn stands on the cell `p`.
    pub fn pawn_at(&self, p: Point) -> (r: bool)
        ensures
            r == occupied(self@.players, p),
    {
        let mut i: usize = 0;
        while i < self.players.len()
            invariant
                i <= self.players@.len(),
                forall|j: int| 0 <= j < i ==> (#[trigger] self@.players[j]).p != p,
            decreases self.players@.len() - i,
        {
            if self.players[i].p == p {
                assert(self@.players[i as int].p == p);
                return true;
            }
            i = i + 1;
        }
        false
    }

    /// Whether the pawn on `over` lets a pawn go round it from `a` to `b`.
    fn corner_open(&self, a: Point, b: Point, over: Point, behind_x: i64, behind_y: i64) -> (r: bool)
        ensures
            r == corner_via(self@, a, b, over, behind_x as int, behind_y as int),
    {
        if !self.pawn_at(over) {
            return false;
        }
        let off_board = !(0 <= behind_x && behind_x < N as i64 && 0 <= behind_y && behind_y < N as i64);
        let closed_behind = off_board || self.has_wall_between(
            over,
            Point { x: behind_x as i32, y: behind_y as i32 },
        );
        closed_behind && !self.has_wall_between(a, over) && !self.has_wall_between(over, b)
    }

    /// Whether the move from `a` to `b` is a legal jump: in a straight line
    /// over a neighbouring pawn, or round the corner of one that cannot be
    /// jumped in a straight line.
    pub fn is_valid_jump(&self, a: Point, b: Point) -> (r: QuoridorResult<()>)
        ensures
            r == if jump_allowed(self@, a, b) {
                Ok::<(), QuoridorError>(())
            } else {
                Err::<(), QuoridorError>(QuoridorError::InvalidJump)
            },
    {
        let dx: i64 = b.x as i64 - a.x as i64;
        let dy: i64 = b.y as i64 - a.y as i64;
        let linear_jump = (dx == 0 && (dy == 2 || dy == -2)) || (dy == 0 && (dx == 2 || dx == -2));
        let corner_jump = (dx == 1 || dx == -1) && (dy == 1 || dy == -1);
        if linear_jump {
            let them_pos = Point { x: (a.x as i64 + dx / 2) as i32, y: (a.y as i64 + dy / 2) as i32 };
            assert(them_pos == Point::at(a.x + (b.x - a.x) / 2, a.y + (b.y - a.y) / 2));
            let occupied = self.pawn_at(them_pos);
            let step1 = !self.has_wall_between(a, them_pos);
            let step2 = !self.has_wall_between(them_pos, b);
            if step1 && occupied && step2 {
                Ok(())
            } else {
                Err(QuoridorError::InvalidJump)
            }
        } else if corner_jump {
            if self.corner_open(a, b, Point { x: b.x, y: a.y }, b.x as i64 + dx, a.y as i64) {
                return Ok(());
            }
            if self.corner_open(a, b, Point { x: a.x, y: b.y }, a.x as i64, b.y as i64 + dy) {
                Ok(())
            } else {
                Err(QuoridorError::InvalidJump)
            }
        } else {
            Err(QuoridorError::InvalidJump)
        }
    }

    /// Return a Result specifying whether a pawn may move from `a` to `b`,
    /// or why it may not
    pub fn describe_adj(&self, a: Point, b: Point) -> (r: QuoridorResult<()>)
        ensures
            r == move_verdict(self@, a, b),
    {
        if !a.inbounds() || !b.inbounds() {
            return Err(QuoridorError::OutOfBounds);
        }
        if a == b {
            return Err(QuoridorError::InvalidJump);
        }
        if self.pawn_at(b) {
            return Err(QuoridorError::OccupiedCell);
        }
        if a.neighbors(b) {
            if self.has_wall_between(a, b) {
                return Err(QuoridorError::WallBlocksPath);
            }
            return Ok(());
        }
        self.is_valid_jump(a, b)
    }

    /// The turn in which the player `name` moves its pawn to `pos`. The game
    /// has to be under way and the player to move, and the move has to be a
    /// step or a legal jump. The pawn moves, the cell it left is kept, and
    /// the turn passes to the next seat; if the pawn has reached its goal
    /// edge, the game is over instead. A move that is refused changes
    /// nothing.
    pub fn move_player_to(&mut self, name: &str, pos: Point) -> (r: QuoridorResult<String>)
        requires
            old(self).wf(),
        ensures
            final(self).wf(),
            match old(self)@.after_move_turn(name@, pos) {
                Ok(g) => final(self)@ == g && r.is_ok() && r.unwrap()@ == "Moved player to "@ + point_text(pos),
                Err(e) => *final(self) == *old(self) && r == Err::<String, QuoridorError>(e),
            },
    {
        let seat = match self.check_turn(name) {
            Ok(i) => i,
            Err(e) => {
                return Err(e);
            },
        };
        let start = self.players[seat].p;
        match self.describe_adj(start, pos) {
            Ok(_) => {},
            Err(e) => {
                return Err(e);
            },
        }
        self.players[seat].last_position = Some(start);
        self.players[seat].p = pos;
        proof {
            assert(self@.players =~= old(self)@.with_pawn_at(seat as int, pos).players);
        }
        self.finish_turn(seat);
        let mut text = String::from_str("Moved player to ");
        text.append(point_to_string(pos).as_str());
        Ok(text)
    }

    /// The ruling on the wall `wall`. To see whether every player could still
    /// reach its goal edge the wall is placed, the players' ways are searched,
    /// and the wall is taken away again.
    pub fn is_valid_wall(&mut self, wall: &Wall) -> (r: QuoridorResult<()>)
        requires
            old(self).wf(),
        ensures
            final(self).wf(),
            final(self)@ == old(self)@,
            r == wall_verdict(old(self)@, *wall),
    {
        if !wall.inbounds() {
            return Err(QuoridorError::OutOfBounds);
        }
        // Check collisions
        if self.walls.collides_with(wall) {
            return Err(QuoridorError::WallCollision);
        }
        // Check each player has a path
        self.walls.insert(*wall);
        let mut win_conditions = true;
        let mut i: usize = 0;
        while i < self.players.len()
            invariant
                i <= self.players@.len(),
                self.players == old(self).players,
                self.walls@ == old(self).walls@.insert(*wall),
                win_conditions == forall|j: int|
                    0 <= j < i ==> can_reach_goal(
                        self.walls@,
                        (#[trigger] self@.players[j]).id as int,
                        self@.players[j].p,
                    ),
            decreases self.players@.len() - i,
        {
            let reachable = self.check_win_condition(&self.players[i]);
            assert(reachable == can_reach_goal(
                self.walls@,
                self@.players[i as int].id as int,
                self@.players[i as int].p,
            ));
            win_conditions = win_conditions && reachable;
            i = i + 1;
        }
        self.walls.remove(wall);
        proof {
            assert(self.walls@ =~= old(self).walls@);
            assert(self@.players =~= old(self)@.players);
        }
        if !win_conditions {
            return Err(QuoridorError::WallWouldStrandPlayer);
        }
        Ok(())
    }

    /// The turn in which the player `name` places the wall `wall`. The game
    /// has to be under way, the player to move and to have a wall left, and
    /// the wall to be admissible. The wall stands, the player has one wall
    /// less, and the turn passes to the next seat. A wall that is refused
    /// changes nothing.
    pub fn add_wall(&mut self, name: &str, wall: &Wall) -> (r: QuoridorResult<String>)
        requires
            old(self).wf(),
        ensures
            final(self).wf(),
            match old(self)@.after_wall_turn(name@, *wall) {
                Ok(g) => final(self)@ == g && r.is_ok() && r.unwrap()@ == "Added wall."@,
                Err(e) => final(self)@ == old(self)@ && r == Err::<String, QuoridorError>(e),
            },
            old(self)@.turn_guard(name@).is_err() ==> *final(self) == *old(self),
            r.is_ok() ==> all_can_reach_goal(final(self)@.walls, final(self)@.players),
    {
        let seat = match self.check_turn(name) {
            Ok(i) => i,
            Err(e) => {
                return Err(e);
            },
        };
        if self.players[seat].walls == 0 {
            return Err(QuoridorError::NoWallsRemaining);
        }
        match self.is_valid_wall(wall) {
            Ok(_) => {},
            Err(e) => {
                return Err(e);
            },
        }
        let ghost before = self@;
        self.walls.insert(*wall);
        self.players[seat].walls = self.players[seat].walls - 1;
        self.state = GameState::Started(((seat + 1) % self.players.len()) as u8);
        proof {
            let g = old(self)@.after_wall_turn(name@, *wall).unwrap();
            assert(self@.players =~= g.players);
            assert forall|i: int| 0 <= i < g.players.len() implies can_reach_goal(
                g.walls,
                (#[trigger] g.players[i]).id as int,
                g.players[i].p,
            ) by {
                assert(can_reach_goal(g.walls, before.players[i].id as int, before.players[i].p));
            }
        }
        Ok(String::from_str("Added wall."))
    }

    /// The turn in which the player `name` places the wall that runs from
    /// the lattice point `a` to the lattice point `b`
    pub fn add_wall_tuples(&mut self, name: &str, a: (i32, i32), b: (i32, i32)) -> (r: QuoridorResult<String>)
        requires
            old(self).wf(),
        ensures
            final(self).wf(),
            match old(self)@.after_wall_between_turn(
                name@,
                Point { x: a.0, y: a.1 },
                Point { x: b.0, y: b.1 },
            ) {
                Ok(g) => final(self)@ == g && r.is_ok() && r.unwrap()@ == "Added wall."@,
                Err(e) => final(self)@ == old(self)@ && r == Err::<String, QuoridorError>(e),
            },
            old(self)@.turn_guard(name@).is_err() ==> *final(self) == *old(self),
            r.is_ok() ==> all_can_reach_goal(final(self)@.walls, final(self)@.players),
    {
        match self.check_turn(name) {
            Ok(_) => {},
            Err(e) => {
                return Err(e);
            },
        }
        let wall = match Wall::from_tuples(a, b) {
            Ok(w) => w,
            Err(e) => {
                return Err(e);
            },
        };
        self.add_wall(name, &wall)
    }

    /// Starts the game, assigns wall chips, sets the turn. Only a game that
    /// is being set up and in which every seat is taken starts; any other
    /// stays as it is.
    pub fn start_game(&mut self)
        requires
            old(self).wf(),
        ensures
            final(self).wf(),
            final(self)@ == old(self)@.started(),
    {
        if self.state != GameState::Setup || self.players.len() != self.quota {
            return ;
        }
        let count = self.players.len();
        let chips: u8 = if count == 4 { 5 } else { 10 };
        let mut i: usize = 0;
        while i < count
            invariant
                i <= count,
                count == old(self).players@.len(),
                self.players@.len() == count,
                chips == allowance(count as int),
                self.walls == old(self).walls,
                self.state == old(self).state,
                self.quota == old(self).quota,
                forall|j: int|
                    0 <= j < count ==> (#[trigger] self.players@[j])@ == (if j < i {
                        PlayerView { walls: chips, ..old(self).players@[j]@ }
                    } else {
                        old(self).players@[j]@
                    }),
            decreases count - i,
        {
            self.players[i].walls = chips;
            i = i + 1;
        }
        self.state = GameState::Started(0);
        proof {
            assert(self@.players =~= with_allowances(old(self)@.players));
        }
    }

    /// The player, lowest seat first, whose pawn stands on its goal edge.
    pub fn winner(&self) -> (r: Option<u8>)
        ensures
            r == first_winner(self@.players, 0),
    {
        let mut i: usize = 0;
        while i < self.players.len()
            invariant
                i <= self.players@.len(),
                first_winner(self@.players, 0) == first_winner(self@.players, i as int),
            decreases self.players@.len() - i,
        {
            if self.players[i].has_won() {
                return Some(self.players[i].id);
            }
            i = i + 1;
        }
        None
    }

    /// Hands the turn to the next seat, whether or not a pawn has reached
    /// its goal edge. A game that is not under way stays as it is.
    pub fn inc_turn(&mut self)
        requires
            old(self).wf(),
        ensures
            final(self).wf(),
            final(self)@ == (GameView {
                state: match old(self).state {
                    GameState::Started(turn) => GameState::Started(
                        ((turn + 1) % (old(self)@.players.len() as int)) as u8,
                    ),
                    _ => old(self).state,
                },
                ..old(self)@
            }),
    {
        if let GameState::Started(turn) = self.state {
            let next = (turn as usize + 1) % self.players.len();
            self.state = GameState::Started(next as u8);
        }
    }

    /// Increment the turn counter
    pub fn increment_turn(&mut self) -> (r: QuoridorResult<()>)
        requires
            old(self).wf(),
        ensures
            final(self).wf(),
            match old(self)@.after_turn() {
                Ok(g) => final(self)@ == g && r.is_ok(),
                Err(e) => final(self)@ == old(self)@ && r == Err::<(), QuoridorError>(e),
            },
    {
        match self.state {
            GameState::Started(turn) => {
                match self.winner() {
                    Some(winner) => {
                        proof {
                            lemma_first_winner_is_seated(self@.players, 0);
                        }
                        self.state = GameState::GameOver(winner);
                    },
                    None => {
                        let next = (turn as usize + 1) % self.players.len();
                        self.state = GameState::Started(next as u8);
                    },
                }
                Ok(())
            },
            GameState::Setup => Err(QuoridorError::NotPlayersTurn),
            GameState::GameOver(_) => Err(QuoridorError::GameAlreadyOver),
        }
    }

    /// Adds a player given a name, and a password `key`
    ///
    /// # Arguments
    ///
    /// * `name` - The name of the player.  Use this later when moving
    ///            the player
    /// * `key` - The password for the player.  Use this later when moving
    ///           the player.   It is used to prevent unauthorized moves.
    pub fn add_player(&mut self, name: &str, key: &str) -> (r: QuoridorResult<String>)
        requires
            old(self).wf(),
        ensures
            final(self).wf(),
            match old(self)@.after_registration(name@, key@) {
                Ok(g) => final(self)@ == g && r.is_ok() && r.unwrap()@ == "Added player "@ + name@,
                Err(e) => final(self)@ == old(self)@ && r == Err::<String, QuoridorError>(e),
            },
    {
        if self.find_player(name).is_some() {
            return Err(QuoridorError::DuplicateRegistration);
        }
        if self.players.len() >= self.quota {
            return Err(QuoridorError::RegistrationFull);
        }
        if self.state != GameState::Setup {
            return Err(QuoridorError::RegistrationClosed);
        }
        // Create and add the player
        let i = self.players.len();
        let player = Player {
            p: start_cell_of(i),
            key: String::from_str(key),
            id: i as u8,
            walls: 10,
            name: String::from_str(name),
            last_position: None,
        };
        self.players.push(player);
        proof {
            let joined = GameView {
                players: old(self)@.players.push(
                    PlayerView {
                        p: start_cell(i as int),
                        key: key@,
                        id: i as u8,
                        walls: 10,
                        name: name@,
                        last_position: None,
                    },
                ),
                ..old(self)@
            };
            assert(self@.players =~= joined.players);
            assert(self@ == joined);
        }
        // If we have enough players, start the game
        if self.players.len() == self.quota {
            self.start_game()
        }
        let mut text = String::from_str("Added player ");
        text.append(name);
        Ok(text)
    }

    /// The turn in which the player `name` moves its pawn one step in the
    /// direction `direction`
    ///
    /// # Arguments
    ///
    /// * `name` - The name of the player.
    /// * `direction`  - The direction in which to move
    pub fn move_player(&mut self, name: &str, direction: Direction) -> (r: QuoridorResult<String>)
        requires
            old(self).wf(),
        ensures
            final(self).wf(),
            match old(self)@.after_step_turn(name@, direction) {
                Ok(g) => final(self)@ == g && r.is_ok() && r.unwrap()@ == "Moved player to "@ + point_text(
                    old(self)@.players[seat_of(old(self)@.players, name@)].p.moved(direction),
                ),
                Err(e) => *final(self) == *old(self) && r == Err::<String, QuoridorError>(e),
            },
    {
        let seat = match self.check_turn(name) {
            Ok(i) => i,
            Err(e) => {
                return Err(e);
            },
        };
        let pos = self.players[seat].p;
        assert(self@.players[seat as int].p.spec_inbounds());
        self.move_player_to(name, pos.shift(direction))
    }

    /// Whether `key` is the secret that the player `name` registered with.
    pub open spec fn spec_credential_matches(&self, name: Seq<char>, key: Seq<char>) -> bool {
        registered(self@.players, name) && self@.players[seat_of(self@.players, name)].key == key
    }

    /// Whether `key` is the secret that the player `name` registered with.
    pub fn credential_matches(&self, name: &str, key: &str) -> (r: bool)
        requires
            self.wf(),
        ensures
            r == self.spec_credential_matches(name@, key@),
    {
        match self.find_player(name) {
            Some(i) => self.players[i].key_matches(key),
            None => false,
        }
    }

    /// Whether the player `name` may take a turn now: gives its seat, or the
    /// reason why it may not.
    pub fn check_turn(&self, name: &str) -> (r: QuoridorResult<usize>)
        requires
            self.wf(),
        ensures
            match self@.turn_guard(name@) {
                Ok(seat) => r == Ok::<usize, QuoridorError>(seat as usize),
                Err(e) => r == Err::<usize, QuoridorError>(e),
            },
    {
        if let GameState::GameOver(_) = self.state {
            return Err(QuoridorError::GameAlreadyOver);
        }
        let seat = match self.find_player(name) {
            Some(i) => i,
            None => {
                return Err(QuoridorError::PlayerNotFound);
            },
        };
        match self.state {
            GameState::Started(turn) => {
                if seat == turn as usize {
                    Ok(seat)
                } else {
                    Err(QuoridorError::NotPlayersTurn)
                }
            },
            _ => Err(QuoridorError::NotPlayersTurn),
        }
    }

    /// Ends the turn of the player in seat `seat`.
    fn finish_turn(&mut self, seat: usize)
        requires
            old(self).wf(),
            seat < old(self)@.players.len(),
        ensures
            final(self).wf(),
            final(self)@ == old(self)@.turn_taken(seat as int),
    {
        if self.players[seat].has_won() {
            self.state = GameState::GameOver(seat as u8);
        } else {
            self.state = GameState::Started(((seat + 1) % self.players.len()) as u8);
        }
    }

    /// Takes back the last move of the player `name`: its pawn goes back to
    /// where it stood before. The turn stays with whoever has it.
    pub fn undo_move(&mut self, name: &str) -> (r: QuoridorResult<()>)
        requires
            old(self).wf(),
        ensures
            final(self).wf(),
            if registered(old(self)@.players, name@) {
                r.is_ok() && final(self)@ == old(self)@.with_move_undone(seat_of(old(self)@.players, name@))
            } else {
                r == Err::<(), QuoridorError>(QuoridorError::PlayerNotFound) && final(self)@ == old(self)@
            },
    {
        let seat = match self.find_player(name) {
            Some(i) => i,
            None => {
                return Err(QuoridorError::PlayerNotFound);
            },
        };
        match self.players[seat].last_position {
            Some(q) => {
                assert(self@.players[seat as int].last_position == Some(q));
                self.players[seat].p = q;
                self.players[seat].last_position = None;
                proof {
                    assert(self@.players =~= old(self)@.with_move_undone(seat as int).players);
                }
            },
            None => {
                assert(self@.players[seat as int].last_position.is_none());
            },
        }
        Ok(())
    }

    /// Takes the wall `wall` off the board; tells whether it stood there.
    pub fn remove_wall(&mut self, wall: &Wall) -> (found: bool)
        requires
            old(self).wf(),
        ensures
            final(self).wf(),
            final(self)@ == (GameView { walls: old(self)@.walls.remove(*wall), ..old(self)@ }),
            found == old(self)@.walls.contains(*wall),
    {
        let found = self.walls.remove(wall);
        proof {
            assert(self@.players =~= old(self)@.players);
        }
        found
    }

    /// Hands the turn back to the seat before.
    pub fn revert_turn(&mut self)
        requires
            old(self).wf(),
        ensures
            final(self).wf(),
            final(self)@ == old(self)@.turn_reverted(),
    {
        if let GameState::Started(turn) = self.state {
            let count = self.players.len();
            self.state = GameState::Started(((turn as usize + count - 1) % count) as u8);
        }
    }

    /// Check to see if a player has at least 1 possible path to
    /// their endzone
    pub fn check_win_condition(&self, player: &Player) -> (r: bool)
        ensures
            r == can_reach_goal(self@.walls, player.id as int, player.p),
    {
        if player.id >= 4 || !player.p.inbounds() {
            proof {
                if can_reach_goal(self@.walls, player.id as int, player.p) {
                    let steps = passages(self@.walls);
                    let i = choose|i: int|
                        0 <= i < N && reaches(steps, player.p, #[trigger] goal_cell(player.id as int, i));
                    let s = choose|s: Seq<Point>|
                        #[trigger] walk_between(
                            passages(self@.walls),
                            s,
                            player.p,
                            goal_cell(player.id as int, i),
                        );
                    assert(s[0].spec_inbounds());
                }
            }
            return false;
        }
        let (d, prev) = self.dijkstra(player.p);
        let mut i: i32 = 0;
        while i < N
            invariant
                0 <= i <= N,
                player.id < 4,
                shortest_paths(passages(self@.walls), player.p, d@, prev@),
                forall|j: int|
                    0 <= j < i ==> !reaches(passages(self@.walls), player.p, #[trigger] goal_cell(player.id as int, j)),
            decreases N - i,
        {
            let c = goal_cell_of(player.id, i);
            let k = index_of(c);
            if d[k] < MAX_DIST {
                assert(reaches(passages(self@.walls), player.p, cell_at(k as int)));
                return true;
            }
            assert(!reaches(passages(self@.walls), player.p, cell_at(k as int)));
            i = i + 1;
        }
        false
    }
}

} // verus!
