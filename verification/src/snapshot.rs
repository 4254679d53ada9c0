//! The document that describes a game to the outside.

use vstd::prelude::*;
use vstd::string::*;
use crate::board::{Point, Wall};
use crate::constants::N;
use crate::player::{Player, PlayerView};
use crate::quoridor::{Game, GameState};
use crate::rules::{first_winner, GameView};
use crate::walls::WallSet;

verus! {

/// A player as the document shows it.
#[derive(Debug)]
pub struct PlayerSnapshot {
    pub name: String,
    pub id: u8,
    /// Walls left to place.
    pub walls: u8,
    pub position: (i32, i32),
}

/// The document: whose turn it is, if the game is under way; the side length
/// of the board; each wall by the two lattice points at which it ends; and
/// the players by seat.
#[derive(Debug)]
pub struct Snapshot {
    pub turn: Option<u8>,
    pub size: i32,
    pub walls: Vec<((i32, i32), (i32, i32))>,
    pub players: Vec<PlayerSnapshot>,
}

/// What the document shows of a player, as a plain value.
pub struct PlayerSnapshotView {
    pub name: Seq<char>,
    pub id: u8,
    pub walls: u8,
    pub position: (i32, i32),
}

/// The document as a plain value.
pub struct SnapshotView {
    pub turn: Option<u8>,
    pub size: i32,
    pub walls: Seq<((i32, i32), (i32, i32))>,
    pub players: Seq<PlayerSnapshotView>,
}

impl View for PlayerSnapshot {
    type V = PlayerSnapshotView;

    open spec fn view(&self) -> PlayerSnapshotView {
        PlayerSnapshotView { name: self.name@, id: self.id, walls: self.walls, position: self.position }
    }
}

impl View for Snapshot {
    type V = SnapshotView;

    open spec fn view(&self) -> SnapshotView {
        SnapshotView {
            turn: self.turn,
            size: self.size,
            walls: self.walls@,
            players: Seq::new(self.players@.len(), |i: int| self.players@[i]@),
        }
    }
}

/// The wall that a pair of lattice points stands for.
pub open spec fn wall_of(t: ((i32, i32), (i32, i32))) -> Option<Wall> {
    Wall::between((t.0.0 as int, t.0.1 as int), (t.1.0 as int, t.1.1 as int))
}

/// The walls that a list of pairs of lattice points stands for.
pub open spec fn listed_walls(list: Seq<((i32, i32), (i32, i32))>) -> Set<Wall> {
    Set::new(|w: Wall| exists|i: int| 0 <= i < list.len() && wall_of(#[trigger] list[i]) == Some(w))
}

/// A player as the document shows it.
pub open spec fn shown(p: PlayerView) -> PlayerSnapshotView {
    PlayerSnapshotView { name: p.name, id: p.id, walls: p.walls, position: (p.p.x, p.p.y) }
}

/// The player that the document shows: what it does not show, the secret
/// and the cell of the pawn before its last move, is left empty.
pub open spec fn hidden(p: PlayerSnapshotView) -> PlayerView {
    PlayerView {
        p: Point { x: p.position.0, y: p.position.1 },
        key: Seq::<char>::empty(),
        id: p.id,
        walls: p.walls,
        name: p.name,
        last_position: None,
    }
}

impl SnapshotView {
    /// Whether this document describes the game `g`: the walls may be listed
    /// in any order, each once.
    pub open spec fn depicts(self, g: GameView) -> bool {
        &&& self.turn == match g.state {
            GameState::Started(turn) => Some(turn),
            _ => None::<u8>,
        }
        &&& self.size == N
        &&& self.players == Seq::new(g.players.len(), |i: int| shown(g.players[i]))
        &&& forall|i: int| 0 <= i < self.walls.len() ==> wall_of(#[trigger] self.walls[i]).is_some()
        &&& forall|i: int, j: int|
            0 <= i < j < self.walls.len() ==> wall_of(#[trigger] self.walls[i]) != wall_of(
                #[trigger] self.walls[j],
            )
        &&& listed_walls(self.walls) == g.walls
    }

    /// Whether a game for `quota` players can be set up from this document.
    pub open spec fn restorable(self, quota: int) -> bool {
        &&& quota == 2 || quota == 4
        &&& self.size == N
        &&& self.players.len() <= quota
        &&& forall|i: int|
            0 <= i < self.walls.len() ==> (wall_of(#[trigger] self.walls[i]) matches Some(w)
                && w.spec_inbounds())
        &&& forall|i: int, j: int|
            0 <= i < j < self.walls.len() ==> wall_of(#[trigger] self.walls[i]) != wall_of(
                #[trigger] self.walls[j],
            )
        &&& forall|i: int| 0 <= i < self.players.len() ==> (#[trigger] self.players[i]).id == i
        &&& forall|i: int|
            0 <= i < self.players.len() ==> hidden(#[trigger] self.players[i]).p.spec_inbounds()
        &&& forall|i: int, j: int|
            0 <= i < j < self.players.len() ==> (#[trigger] self.players[i]).name != (
            #[trigger] self.players[j]).name
        &&& self.turn matches Some(turn) ==> turn < self.players.len()
    }

    /// The game for `quota` players that this document describes. A document
    /// that names no turn describes a game that is over if a pawn stands on
    /// its goal edge, and a game that has yet to start if none does.
    pub open spec fn restored(self, quota: int) -> GameView {
        let players = Seq::new(self.players.len(), |i: int| hidden(self.players[i]));
        GameView {
            walls: listed_walls(self.walls),
            players: players,
            state: match self.turn {
                Some(turn) => GameState::Started(turn),
                None => match first_winner(players, 0) {
                    Some(winner) => GameState::GameOver(winner),
                    None => GameState::Setup,
                },
            },
            quota: quota as nat,
        }
    }
}

impl GameView {
    /// What of this game the document shows: all but the players' secrets
    /// and the cells of the pawns before their last moves.
    pub open spec fn public(self) -> GameView {
        GameView {
            players: Seq::new(
                self.players.len(),
                |i: int| PlayerView { key: Seq::<char>::empty(), last_position: None, ..self.players[i] },
            ),
            ..self
        }
    }

    /// Whether the state of this game can be read off the pawns: it is over
    /// exactly if a pawn stands on its goal edge, and then that pawn's
    /// player has won.
    pub open spec fn state_shows(self) -> bool {
        match self.state {
            GameState::Started(_) => true,
            GameState::Setup => first_winner(self.players, 0).is_none(),
            GameState::GameOver(winner) => first_winner(self.players, 0) == Some(winner),
        }
    }
}

/// A game, written to a document and set up again from it, is the game that
/// it was, but for what the document does not show.
pub proof fn lemma_round_trip(g: GameView, doc: SnapshotView)
    requires
        g.wf(),
        g.state_shows(),
        doc.depicts(g),
    ensures
        doc.restorable(g.quota as int),
        doc.restored(g.quota as int) == g.public(),
        g.public() == g ==> doc.restored(g.quota as int) == g,
{
    let players = Seq::new(doc.players.len(), |i: int| hidden(doc.players[i]));
    assert(players =~= g.public().players);
    assert forall|i: int| 0 <= i < doc.walls.len() implies (wall_of(#[trigger] doc.walls[i]) matches Some(w)
        && w.spec_inbounds()) by {
        let w = wall_of(doc.walls[i]).unwrap();
        assert(listed_walls(doc.walls).contains(w));
    }
    assert forall|i: int| 0 <= i < doc.players.len() implies hidden(
        #[trigger] doc.players[i],
    ).p.spec_inbounds() by {
        assert(g.players[i].p.spec_inbounds());
    }
    assert forall|i: int, j: int| 0 <= i < j < doc.players.len() implies (#[trigger] doc.players[i]).name
        != (#[trigger] doc.players[j]).name by {
        assert(g.players[i].name != g.players[j].name);
    }
    assert forall|i: int| 0 <= i < doc.players.len() implies (#[trigger] doc.players[i]).id == i by {
        assert(g.players[i].id == i);
    }
    lemma_first_winner_public(g.players, g.public().players, 0);
}

/// Who has won can be read off the seats and the pawns alone.
proof fn lemma_first_winner_public(a: Seq<PlayerView>, b: Seq<PlayerView>, from: int)
    requires
        a.len() == b.len(),
        forall|i: int| 0 <= i < a.len() ==> (#[trigger] a[i]).id == b[i].id && a[i].p == b[i].p,
    ensures
        first_winner(a, from) == first_winner(b, from),
    decreases a.len() - from,
{
    if 0 <= from < a.len() {
        assert(a[from].id == b[from].id);
        lemma_first_winner_public(a, b, from + 1);
    }
}

impl Game {
    /// Describes the game in a document.
    pub fn snapshot(&self) -> (doc: Snapshot)
        requires
            self.wf(),
        ensures
            doc@.depicts(self@),
    {
        let mut walls: Vec<((i32, i32), (i32, i32))> = Vec::new();
        let mut i: usize = 0;
        while i < self.walls.items.len()
            invariant
                i <= self.walls.items@.len(),
                walls@.len() == i,
                self.wf(),
                forall|j: int| 0 <= j < i ==> wall_of(#[trigger] walls@[j]) == Some(self.walls.items@[j]),
            decreases self.walls.items@.len() - i,
        {
            let wall = self.walls.items[i];
            assert(self.walls@.contains(wall)) by {
                assert(self.walls.items@.contains(self.walls.items@[i as int]));
            }
            assert(self@.walls.contains(wall));
            assert(wall.spec_inbounds());
            walls.push(wall.to_tuples());
            i = i + 1;
        }
        let mut players: Vec<PlayerSnapshot> = Vec::new();
        let mut k: usize = 0;
        while k < self.players.len()
            invariant
                k <= self.players@.len(),
                players@.len() == k,
                forall|j: int| 0 <= j < k ==> (#[trigger] players@[j])@ == shown(self@.players[j]),
            decreases self.players@.len() - k,
        {
            let p = &self.players[k];
            players.push(
                PlayerSnapshot { name: p.name.clone(), id: p.id, walls: p.walls, position: (p.p.x, p.p.y) },
            );
            k = k + 1;
        }
        let turn = match self.state {
            GameState::Started(turn) => Some(turn),
            _ => None,
        };
        let doc = Snapshot { turn: turn, size: N, walls: walls, players: players };
        proof {
            assert(doc@.players =~= Seq::new(self@.players.len(), |i: int| shown(self@.players[i])));
            assert forall|a: int, b: int| 0 <= a < b < doc@.walls.len() implies wall_of(
                #[trigger] doc@.walls[a],
            ) != wall_of(#[trigger] doc@.walls[b]) by {
                assert(self.walls.items@[a] != self.walls.items@[b]);
            }
            assert forall|w: Wall| listed_walls(doc@.walls).contains(w) <==> self@.walls.contains(w) by {
                if self@.walls.contains(w) {
                    let j = choose|j: int| 0 <= j < self.walls.items@.len() && self.walls.items@[j] == w;
                    assert(wall_of(doc@.walls[j]) == Some(w));
                }
                if listed_walls(doc@.walls).contains(w) {
                    let j = choose|j: int| 0 <= j < doc@.walls.len() && wall_of(#[trigger] doc@.walls[j]) == Some(w);
                    assert(self.walls.items@[j] == w);
                    assert(self.walls.items@.contains(w));
                }
            }
            assert(listed_walls(doc@.walls) =~= self@.walls);
        }
        doc
    }

    /// Sets up the game for `quota` players that a document describes, if it
    /// describes one.
    pub fn restore(doc: &Snapshot, quota: usize) -> (r: Option<Game>)
        ensures
            r.is_some() == doc@.restorable(quota as int),
            r matches Some(g) ==> g.wf() && g@ == doc@.restored(quota as int),
    {
        if !(quota == 2 || quota == 4) || doc.size != N || doc.players.len() > quota {
            return None;
        }
        let mut walls = WallSet::new();
        let mut i: usize = 0;
        while i < doc.walls.len()
            invariant
                i <= doc.walls@.len(),
                walls.wf(),
                walls@ == listed_walls(doc.walls@.take(i as int)),
                forall|j: int|
                    0 <= j < i ==> (wall_of(#[trigger] doc.walls@[j]) matches Some(w) && w.spec_inbounds()),
                forall|a: int, b: int|
                    0 <= a < b < i ==> wall_of(#[trigger] doc.walls@[a]) != wall_of(#[trigger] doc.walls@[b]),
            decreases doc.walls@.len() - i,
        {
            let t = doc.walls[i];
            let wall = match Wall::from_tuples(t.0, t.1) {
                Ok(w) => w,
                Err(_) => {
                    assert(wall_of(doc@.walls[i as int]).is_none());
                    return None;
                },
            };
            if !wall.inbounds() {
                assert(wall_of(doc@.walls[i as int]) == Some(wall));
                return None;
            }
            if walls.contains(&wall) {
                proof {
                    let j = choose|j: int|
                        0 <= j < doc.walls@.take(i as int).len() && wall_of(
                            #[trigger] doc.walls@.take(i as int)[j],
                        ) == Some(wall);
                    assert(doc.walls@.take(i as int)[j] == doc@.walls[j]);
                    assert(wall_of(doc@.walls[j]) == wall_of(doc@.walls[i as int]));
                }
                return None;
            }
            walls.insert(wall);
            proof {
                let before = doc.walls@.take(i as int);
                let after = doc.walls@.take(i + 1);
                assert forall|w: Wall| listed_walls(after).contains(w) <==> listed_walls(before).insert(
                    wall,
                ).contains(w) by {
                    if listed_walls(after).contains(w) {
                        let j = choose|j: int| 0 <= j < after.len() && wall_of(#[trigger] after[j]) == Some(w);
                        if j < i {
                            assert(before[j] == after[j]);
                        }
                    }
                    if listed_walls(before).contains(w) {
                        let j = choose|j: int| 0 <= j < before.len() && wall_of(#[trigger] before[j]) == Some(w);
                        assert(after[j] == before[j]);
                    }
                    if w == wall {
                        assert(wall_of(after[i as int]) == Some(w));
                    }
                }
                assert(listed_walls(after) =~= listed_walls(before).insert(wall));
                assert forall|a: int, b: int| 0 <= a < b < i + 1 implies wall_of(#[trigger] doc.walls@[a])
                    != wall_of(#[trigger] doc.walls@[b]) by {
                    if b == i {
                        if wall_of(doc.walls@[a]) == Some(wall) {
                            assert(before[a] == doc.walls@[a]);
                            assert(listed_walls(before).contains(wall));
                        }
                    }
                }
            }
            i = i + 1;
        }
        assert(doc.walls@.take(i as int) =~= doc.walls@);
        let mut players: Vec<Player> = Vec::new();
        let mut k: usize = 0;
        while k < doc.players.len()
            invariant
                k <= doc.players@.len(),
                players@.len() == k,
                doc.players@.len() <= 4,
                forall|j: int| 0 <= j < k ==> (#[trigger] players@[j])@ == hidden(doc@.players[j]),
                forall|j: int| 0 <= j < k ==> (#[trigger] doc@.players[j]).id == j,
                forall|j: int| 0 <= j < k ==> hidden(#[trigger] doc@.players[j]).p.spec_inbounds(),
                forall|a: int, b: int|
                    0 <= a < b < k ==> (#[trigger] doc@.players[a]).name != (#[trigger] doc@.players[b]).name,
            decreases doc.players@.len() - k,
        {
            let shown = &doc.players[k];
            assert(shown@ == doc@.players[k as int]);
            let cell = Point { x: shown.position.0, y: shown.position.1 };
            if shown.id as usize != k || !cell.inbounds() {
                return None;
            }
            let mut a: usize = 0;
            while a < k
                invariant
                    a <= k,
                    k < doc.players@.len(),
                    shown@ == doc@.players[k as int],
                    forall|j: int| 0 <= j < a ==> (#[trigger] doc@.players[j]).name != shown@.name,
                decreases k - a,
            {
                if doc.players[a].name == shown.name {
                    assert(doc@.players[a as int].name == doc@.players[k as int].name);
                    return None;
                }
                a = a + 1;
            }
            players.push(
                Player {
                    p: cell,
                    key: String::new(),
                    id: shown.id,
                    walls: shown.walls,
                    name: shown.name.clone(),
                    last_position: None,
                },
            );
            k = k + 1;
        }
        let mut game = Game { walls: walls, players: players, state: GameState::Setup, quota: quota };
        proof {
            assert(game@.players =~= doc@.restored(quota as int).players);
        }
        match doc.turn {
            Some(turn) => {
                if turn as usize >= game.players.len() {
                    return None;
                }
                game.state = GameState::Started(turn);
            },
            None => {
                match game.winner() {
                    Some(winner) => {
                        proof {
                            crate::rules::lemma_first_winner_is_seated(game@.players, 0);
                        }
                        game.state = GameState::GameOver(winner);
                    },
                    None => {},
                }
            },
        }
        proof {
            assert(game@.players =~= doc@.restored(quota as int).players);
            assert forall|w: Wall| game@.walls.contains(w) implies w.spec_inbounds() by {
                let j = choose|j: int| 0 <= j < doc@.walls.len() && wall_of(#[trigger] doc@.walls[j]) == Some(w);
            }
            assert forall|a: int, b: int|
                0 <= a < game@.players.len() && 0 <= b < game@.players.len() && a != b implies (
                #[trigger] game@.players[a]).name != (#[trigger] game@.players[b]).name by {
                if a < b {
                    assert(doc@.players[a].name != doc@.players[b].name);
                } else {
                    assert(doc@.players[b].name != doc@.players[a].name);
                }
            }
        }
        Some(game)
    }
}

} // verus!
