use quoridor::adjacency_matrix::AdjacencyMatrix;
use quoridor::board::Point;
use quoridor::quoridor::Game;

fn point(x: i32, y: i32) -> Point {
    Point { x, y }
}

#[test]
fn quorridor_test_invalid_wall_1() {
    assert!(!Game::new().add_wall_tuples("Player 1", (1, 1), (2, 2)).is_ok())
}

#[test]
fn quorridor_test_invalid_wall_2() {
    assert!(!Game::new().add_wall_tuples("Player 1", (1, 1), (1, 4)).is_ok())
}

#[test]
fn quorridor_test_invalid_wall_3() {
    assert!(!Game::new().add_wall_tuples("Player 1", (-1, 0), (1, 0)).is_ok())
}

#[test]
fn quorridor_test_invalid_wall_4() {
    assert!(!Game::new().add_wall_tuples("Player 1", (4, 0), (6, 0)).is_ok())
}

// No wall is placed before the game is under way: in a game without players
// every wall is refused.

#[test]
fn quorridor_test_wall_vertical_collisions() {
    let mut g = Game::new();
    assert!(!g.add_wall_tuples("Player 1", (1, 1), (1, 3)).is_ok());
    assert!(!g.add_wall_tuples("Player 1", (1, 2), (1, 4)).is_ok());
    assert!(!g.add_wall_tuples("Player 1", (1, 0), (1, 2)).is_ok());
    assert!(!g.add_wall_tuples("Player 1", (0, 2), (2, 2)).is_ok());
}

#[test]
fn quorridor_test_wall_horizontal_collisions() {
    let mut g = Game::new();
    assert!(!g.add_wall_tuples("Player 1", (1, 1), (3, 1)).is_ok());
    assert!(!g.add_wall_tuples("Player 1", (2, 1), (4, 1)).is_ok());
    assert!(!g.add_wall_tuples("Player 1", (0, 1), (2, 1)).is_ok());
    assert!(!g.add_wall_tuples("Player 1", (2, 0), (2, 2)).is_ok());
}

#[test]
fn quorridor_test_valid_wall_1() {
    assert!(!Game::new().add_wall_tuples("Player 1", (1, 1), (1, 3)).is_ok())
}

#[test]
fn quorridor_test_valid_wall_2() {
    assert!(!Game::new().add_wall_tuples("Player 1", (1, 3), (1, 1)).is_ok())
}

#[test]
fn quorridor_test_valid_wall_3() {
    assert!(!Game::new().add_wall_tuples("Player 1", (1, 3), (3, 3)).is_ok())
}

#[test]
fn quorridor_test_valid_wall_4() {
    assert!(!Game::new().add_wall_tuples("Player 1", (3, 3), (1, 3)).is_ok())
}

#[test]
fn quorridor_test_adj_vertical_1() {
    let mut g = Game::new();
    assert!(g.adj(point(1, 1), point(2, 1)));
    assert!(!g.add_wall_tuples("Player 1", (2, 1), (2, 3)).is_ok());
    assert!(g.adj(point(1, 1), point(2, 1)));
    assert!(g.adj(point(1, 2), point(2, 2)));
}

#[test]
fn quorridor_test_adj_horizontal_1() {
    let mut g = Game::new();
    assert!(g.adj(point(1, 1), point(1, 2)));
    assert!(!g.add_wall_tuples("Player 1", (1, 2), (3, 2)).is_ok());
    assert!(g.adj(point(1, 1), point(1, 2)));
    assert!(g.adj(point(2, 1), point(2, 2)));
}

#[test]
fn quorridor_test_add_players() {
    let mut g = Game::with_players(4).unwrap();
    assert!(g.add_player("Player 1", "").is_ok());
    assert!(g.add_player("Player 2", "").is_ok());
    assert!(g.add_player("Player 3", "").is_ok());
    assert!(g.add_player("Player 4", "").is_ok());
    assert!(!g.add_player("Player 5", "").is_ok());
}
