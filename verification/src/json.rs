//! The document of a game as JSON.

use vstd::prelude::*;
use vstd::string::*;
use rustc_serialize::json::{Json, ToJson};
use crate::player::Player;
use crate::quoridor::Game;
use crate::snapshot::{shown, PlayerSnapshot, PlayerSnapshotView, Snapshot, SnapshotView};

verus! {

/// A JSON value of `rustc_serialize`.
#[verifier::external_type_specification]
#[verifier::external_body]
pub struct ExJson(Json);

/// What `ToJson::to_json` returns for the `i32` of value `n`.
pub uninterp spec fn signed_json(n: int) -> Json;

/// What `ToJson::to_json` returns for the `u8` of value `n`.
pub uninterp spec fn unsigned_json(n: int) -> Json;

/// What `ToJson::to_json` returns for an optional `u8`.
pub uninterp spec fn optional_json(n: Option<u8>) -> Json;

/// What `ToJson::to_json` returns for the text `s`.
pub uninterp spec fn string_json(s: Seq<char>) -> Json;

/// What `ToJson::to_json` returns for the list `items` of JSON values.
pub uninterp spec fn array_json(items: Seq<Json>) -> Json;

/// The value `Json::Object` of the map that the pairs `fields` of key and
/// value make.
pub uninterp spec fn object_json(fields: Seq<(Seq<char>, Json)>) -> Json;

/// Calls `ToJson::to_json` on an `i32`: a JSON number of the same value,
/// which depends on `n` alone.
#[verifier::external_body]
fn json_of_signed(n: i32) -> (j: Json)
    ensures
        j == signed_json(n as int),
{
    n.to_json()
}

/// Calls `ToJson::to_json` on a `u8`: a JSON number of the same value, which
/// depends on `n` alone.
#[verifier::external_body]
fn json_of_unsigned(n: u8) -> (j: Json)
    ensures
        j == unsigned_json(n as int),
{
    n.to_json()
}

/// Calls `ToJson::to_json` on an optional `u8`: JSON null for none, else the
/// JSON number; it depends on `n` alone.
#[verifier::external_body]
fn json_of_optional(n: Option<u8>) -> (j: Json)
    ensures
        j == optional_json(n),
{
    n.to_json()
}

/// Calls `ToJson::to_json` on a `String`: the JSON string of the same
/// text, which depends on `s` alone.
#[verifier::external_body]
fn json_of_string(s: &String) -> (j: Json)
    ensures
        j == string_json(s@),
{
    s.to_json()
}

/// Calls `ToJson::to_json` on a list of JSON values: the JSON array of the
/// same values in the same order, which depends on `items` alone.
#[verifier::external_body]
fn json_of_list(items: &Vec<Json>) -> (j: Json)
    ensures
        j == array_json(items@),
{
    items.to_json()
}

/// The keys of `fields` as plain values.
pub open spec fn keyed(fields: Seq<(String, Json)>) -> Seq<(Seq<char>, Json)> {
    Seq::new(fields.len(), |i: int| (fields[i].0@, fields[i].1))
}

/// Makes `Json::Object` of a map with the keys and values of `fields`; it
/// depends on `fields` alone.
#[verifier::external_body]
fn json_of_fields(fields: Vec<(String, Json)>) -> (j: Json)
    ensures
        j == object_json(keyed(fields@)),
{
    Json::Object(fields.into_iter().collect())
}

/// The array of the two coordinates of a point.
pub open spec fn pair_json(p: (i32, i32)) -> Json {
    array_json(seq![signed_json(p.0 as int), signed_json(p.1 as int)])
}

/// The array of the two end points of a wall.
pub open spec fn wall_json(ends: ((i32, i32), (i32, i32))) -> Json {
    array_json(seq![pair_json(ends.0), pair_json(ends.1)])
}

/// The object that describes a player: its seat, its name, the cell of its
/// pawn and the number of walls it has left.
pub open spec fn player_json(p: PlayerSnapshotView) -> Json {
    object_json(
        seq![
            ("position"@, pair_json(p.position)),
            ("id"@, unsigned_json(p.id as int)),
            ("walls"@, unsigned_json(p.walls as int)),
            ("name"@, string_json(p.name)),
        ],
    )
}

/// The object that describes a game: whose turn it is, or null; the side
/// length of the board; the walls; and the players.
pub open spec fn document_json(doc: SnapshotView) -> Json {
    object_json(
        seq![
            ("turn"@, optional_json(doc.turn)),
            ("size"@, signed_json(doc.size as int)),
            ("walls"@, array_json(Seq::new(doc.walls.len(), |i: int| wall_json(doc.walls[i])))),
            ("players"@, array_json(Seq::new(doc.players.len(), |i: int| player_json(doc.players[i])))),
        ],
    )
}

/// The two coordinates of a point as a JSON array.
fn pair_to_json(p: (i32, i32)) -> (j: Json)
    ensures
        j == pair_json(p),
{
    let mut items: Vec<Json> = Vec::new();
    items.push(json_of_signed(p.0));
    items.push(json_of_signed(p.1));
    assert(items@ =~= seq![signed_json(p.0 as int), signed_json(p.1 as int)]);
    json_of_list(&items)
}

impl PlayerSnapshot {
    /// The player as JSON
    pub fn to_json(&self) -> (j: Json)
        ensures
            j == player_json(self@),
    {
        let mut d: Vec<(String, Json)> = Vec::new();
        d.push((String::from_str("position"), pair_to_json(self.position)));
        d.push((String::from_str("id"), json_of_unsigned(self.id)));
        d.push((String::from_str("walls"), json_of_unsigned(self.walls)));
        d.push((String::from_str("name"), json_of_string(&self.name)));
        assert(keyed(d@) =~= seq![
            ("position"@, pair_json(self.position)),
            ("id"@, unsigned_json(self.id as int)),
            ("walls"@, unsigned_json(self.walls as int)),
            ("name"@, string_json(self.name@)),
        ]);
        json_of_fields(d)
    }
}

impl Player {
    /// The player as JSON
    pub fn to_json(&self) -> (j: Json)
        ensures
            j == player_json(shown(self@)),
    {
        let doc = PlayerSnapshot {
            name: self.name.clone(),
            id: self.id,
            walls: self.walls,
            position: (self.p.x, self.p.y),
        };
        doc.to_json()
    }
}

impl Snapshot {
    /// The document as JSON
    pub fn to_json(&self) -> (j: Json)
        ensures
            j == document_json(self@),
    {
        let mut walls: Vec<Json> = Vec::new();
        let mut i: usize = 0;
        while i < self.walls.len()
            invariant
                i <= self.walls@.len(),
                walls@ == Seq::new(i as nat, |k: int| wall_json(self.walls@[k])),
            decreases self.walls@.len() - i,
        {
            let w = self.walls[i];
            let mut ends: Vec<Json> = Vec::new();
            ends.push(pair_to_json(w.0));
            ends.push(pair_to_json(w.1));
            assert(ends@ =~= seq![pair_json(w.0), pair_json(w.1)]);
            walls.push(json_of_list(&ends));
            i = i + 1;
            assert(walls@ =~= Seq::new(i as nat, |k: int| wall_json(self.walls@[k])));
        }
        let mut players: Vec<Json> = Vec::new();
        let mut k: usize = 0;
        while k < self.players.len()
            invariant
                k <= self.players@.len(),
                players@ == Seq::new(k as nat, |n: int| player_json(self@.players[n])),
            decreases self.players@.len() - k,
        {
            players.push(self.players[k].to_json());
            k = k + 1;
            assert(players@ =~= Seq::new(k as nat, |n: int| player_json(self@.players[n])));
        }
        let mut d: Vec<(String, Json)> = Vec::new();
        d.push((String::from_str("turn"), json_of_optional(self.turn)));
        d.push((String::from_str("size"), json_of_signed(self.size)));
        d.push((String::from_str("walls"), json_of_list(&walls)));
        d.push((String::from_str("players"), json_of_list(&players)));
        proof {
            assert(walls@ =~= Seq::new(self@.walls.len(), |i: int| wall_json(self@.walls[i])));
            assert(players@ =~= Seq::new(self@.players.len(), |i: int| player_json(self@.players[i])));
            assert(keyed(d@) =~= seq![
                ("turn"@, optional_json(self@.turn)),
                ("size"@, signed_json(self@.size as int)),
                ("walls"@, array_json(Seq::new(self@.walls.len(), |i: int| wall_json(self@.walls[i])))),
                (
                    "players"@,
                    array_json(Seq::new(self@.players.len(), |i: int| player_json(self@.players[i]))),
                ),
            ]);
        }
        json_of_fields(d)
    }
}

impl Game {
    /// Return the game state as JSON
    pub fn to_json(&self) -> (j: Json)
        requires
            self.wf(),
        ensures
            exists|doc: SnapshotView| #[trigger] doc.depicts(self@) && j == document_json(doc),
    {
        let doc = self.snapshot();
        assert(doc@.depicts(self@));
        doc.to_json()
    }
}

} // verus!
