//! Rules engine for Quoridor: board geometry, move legality, wall
//! admissibility and the turn state machine.
//!
//! `board` holds the cells and walls, `walls` the set of walls on a board
//! and the steps they leave open, `adjacency_matrix` the searches on the
//! graph of those steps. `rules` states the rules of the game on plain
//! values, `quoridor` is the game that follows them, and `invariants` what
//! holds of every game. `snapshot` and `json` describe a game to the
//! outside, `render` draws it, and `session` is the game as many clients
//! share it.

pub mod constants;
pub mod errors;
pub mod board;
pub mod paths;
pub mod connectivity;
pub mod adjacency_matrix;
pub mod walls;
pub mod text;
pub mod player;
pub mod rules;
pub mod quoridor;
pub mod turn;
pub mod invariants;
pub mod snapshot;
pub mod json;
pub mod session;
pub mod render;
