use quoridor::adjacency_matrix::{cell_of, index_of, index_of_node, node_of, AdjacencyMatrix, Path};
use quoridor::paths::CELLS;
use quoridor::board::{Direction, Orientation, Point, Wall};
use quoridor::constants::{MAX_DIST, N};
use quoridor::errors::QuoridorError;
use quoridor::quoridor::{Game, GameState};
use quoridor::snapshot::{PlayerSnapshot, Snapshot};
use quoridor::walls::WallSet;

fn point(x: i32, y: i32) -> Point {
    Point { x, y }
}

fn two_player_game() -> Game {
    let mut g = Game::new();
    assert_eq!(g.add_player("A", "a"), Ok("Added player A".to_string()));
    assert_eq!(g.add_player("B", "b"), Ok("Added player B".to_string()));
    g
}

/// The name of the player who is to move.
fn to_move(g: &Game) -> String {
    match g.state {
        GameState::Started(turn) => g.players[turn as usize].name.clone(),
        _ => panic!("the game is not under way"),
    }
}

#[test]
fn wall_from_its_end_points() {
    assert_eq!(Wall::from_tuples((1, 1), (1, 3)), Ok(Wall::vertical(1, 2)));
    assert_eq!(Wall::from_tuples((1, 3), (1, 1)), Ok(Wall::vertical(1, 2)));
    assert_eq!(Wall::from_tuples((1, 3), (3, 3)), Ok(Wall::horizontal(2, 3)));
    assert_eq!(Wall::from_tuples((-3, -5), (-1, -5)), Ok(Wall::horizontal(-2, -5)));
    assert_eq!(Wall::from_points(point(3, 3), point(1, 3)), Ok(Wall::horizontal(2, 3)));
    assert_eq!(Wall::from_tuples((1, 1), (2, 2)), Err(QuoridorError::InvalidWallGeometry));
    assert_eq!(Wall::from_tuples((1, 1), (1, 4)), Err(QuoridorError::InvalidWallGeometry));
    assert_eq!(Wall::from_tuples((1, 1), (1, 1)), Err(QuoridorError::InvalidWallGeometry));
    assert_eq!(
        Wall::from_tuples((i32::MAX, 0), (i32::MIN, 0)),
        Err(QuoridorError::InvalidWallGeometry)
    );
    assert_eq!(Wall::from_tuples((i32::MAX, 0), (i32::MAX - 2, 0)), Ok(Wall::horizontal(i32::MAX - 1, 0)));
}

#[test]
fn wall_to_its_end_points_and_back() {
    for wall in [Wall::vertical(1, 2), Wall::horizontal(7, 3), Wall::horizontal(-4, 0)] {
        let (a, b) = wall.to_tuples();
        assert_eq!(Wall::from_tuples(a, b), Ok(wall));
        assert_eq!(Wall::from_tuples(b, a), Ok(wall));
    }
    assert_eq!(Wall::vertical(1, 2).to_tuples(), ((1, 1), (1, 3)));
    assert_eq!(Wall::horizontal(2, 3).to_tuples(), ((1, 3), (3, 3)));
}

#[test]
fn wall_geometry() {
    let w = Wall::vertical(3, 4);
    assert_eq!(w.orientation, Orientation::Vertical);
    assert_eq!(w.rotated(), Wall::horizontal(3, 4));
    assert_eq!(w.rotated().rotated(), w);
    assert_eq!(w.shifted(2, -1), Wall::vertical(5, 3));
    assert!(w.inbounds());
    assert!(Wall::vertical(1, 1).inbounds());
    assert!(Wall::vertical(8, 8).inbounds());
    assert!(!Wall::vertical(0, 4).inbounds());
    assert!(!Wall::vertical(4, 0).inbounds());
    assert!(!Wall::horizontal(9, 4).inbounds());
    assert!(!Wall::horizontal(4, 9).inbounds());
}

#[test]
fn point_geometry() {
    let p = point(4, 4);
    assert_eq!(p.north(), point(4, 3));
    assert_eq!(p.south(), point(4, 5));
    assert_eq!(p.east(), point(5, 4));
    assert_eq!(p.west(), point(3, 4));
    assert_eq!(p.shift(Direction::NorthEast), point(5, 3));
    assert_eq!(p.shift(Direction::SouthEast), point(5, 5));
    assert_eq!(p.shift(Direction::SouthWest), point(3, 5));
    assert_eq!(p.shift(Direction::NorthWest), point(3, 3));
    assert_eq!(p.shift(Direction::Invalid), p);
    assert!(p.neighbors(point(4, 5)));
    assert!(p.neighbors(point(3, 4)));
    assert!(!p.neighbors(p));
    assert!(!p.neighbors(point(5, 5)));
    assert!(!p.neighbors(point(4, 6)));
    assert!(!point(i32::MIN, 0).neighbors(point(i32::MAX, 0)));
    assert!(point(0, 0).inbounds());
    assert!(point(8, 8).inbounds());
    assert!(!point(9, 0).inbounds());
    assert!(!point(0, -1).inbounds());
    assert_eq!(N, 9);
}

#[test]
fn directions_by_name() {
    assert_eq!(Direction::from("NORTH"), Direction::North);
    assert_eq!(Direction::from("east"), Direction::East);
    assert_eq!(Direction::from("South"), Direction::South);
    assert_eq!(Direction::from("wEsT"), Direction::West);
    assert_eq!(Direction::from("northeast"), Direction::NorthEast);
    assert_eq!(Direction::from("SOUTHEAST"), Direction::SouthEast);
    assert_eq!(Direction::from("southwest"), Direction::SouthWest);
    assert_eq!(Direction::from("NorthWest"), Direction::NorthWest);
    assert_eq!(Direction::from("\u{17f}outh"), Direction::South);
    assert_eq!(Direction::from("up"), Direction::Invalid);
    assert_eq!(Direction::from(""), Direction::Invalid);
    assert_eq!(Direction::from_upper("NORTH"), Direction::North);
    assert_eq!(Direction::from_upper("north"), Direction::Invalid);
    for d in [
        Direction::North,
        Direction::East,
        Direction::South,
        Direction::West,
        Direction::NorthEast,
        Direction::SouthEast,
        Direction::SouthWest,
        Direction::NorthWest,
        Direction::Invalid,
    ] {
        assert_eq!(d.reversed().reversed(), d);
        assert_eq!(point(4, 4).shift(d).shift(d.reversed()), point(4, 4));
    }
    assert_eq!(Direction::North.reversed(), Direction::South);
    assert_eq!(Direction::NorthEast.reversed(), Direction::SouthWest);
}

#[test]
fn a_set_of_walls() {
    let mut walls = WallSet::new();
    assert_eq!(walls.len(), 0);
    assert!(walls.insert(Wall::vertical(2, 2)));
    assert!(!walls.insert(Wall::vertical(2, 2)));
    assert!(walls.insert(Wall::horizontal(2, 5)));
    assert_eq!(walls.len(), 2);
    assert!(walls.contains(&Wall::vertical(2, 2)));
    assert!(!walls.contains(&Wall::horizontal(2, 2)));
    assert!(walls.collides_with(&Wall::vertical(2, 2)));
    assert!(walls.collides_with(&Wall::horizontal(2, 2)));
    assert!(walls.collides_with(&Wall::vertical(2, 1)));
    assert!(walls.collides_with(&Wall::vertical(2, 3)));
    assert!(!walls.collides_with(&Wall::vertical(2, 4)));
    assert!(!walls.collides_with(&Wall::vertical(1, 2)));
    assert!(walls.collides_with(&Wall::horizontal(1, 5)));
    assert!(walls.collides_with(&Wall::horizontal(3, 5)));
    assert!(!walls.collides_with(&Wall::horizontal(4, 5)));
    assert!(walls.blocks(point(1, 1), point(2, 1)));
    assert!(walls.blocks(point(2, 2), point(1, 2)));
    assert!(!walls.blocks(point(1, 3), point(2, 3)));
    assert!(!walls.blocks(point(1, 1), point(2, 2)));
    assert!(walls.blocks(point(1, 4), point(1, 5)));
    assert!(walls.blocks(point(2, 5), point(2, 4)));
    assert!(!walls.blocks(point(3, 4), point(3, 5)));
    assert!(walls.remove(&Wall::vertical(2, 2)));
    assert!(!walls.remove(&Wall::vertical(2, 2)));
    assert_eq!(walls.len(), 1);
    assert!(!walls.blocks(point(1, 1), point(2, 1)));
}

#[test]
fn wall_errors() {
    let mut g = two_player_game();
    assert_eq!(g.add_wall("A", &Wall::vertical(0, 3)), Err(QuoridorError::OutOfBounds));
    assert_eq!(g.add_wall("A", &Wall::horizontal(3, 9)), Err(QuoridorError::OutOfBounds));
    assert_eq!(g.add_wall_tuples("A", (1, 1), (4, 1)), Err(QuoridorError::InvalidWallGeometry));
    assert_eq!(g.state, GameState::Started(0));
    assert_eq!(g.add_wall("A", &Wall::vertical(3, 3)), Ok("Added wall.".to_string()));
    assert_eq!(g.state, GameState::Started(1));
    assert_eq!(g.add_wall("B", &Wall::vertical(3, 3)), Err(QuoridorError::WallCollision));
    assert_eq!(g.add_wall("B", &Wall::horizontal(3, 3)), Err(QuoridorError::WallCollision));
    assert_eq!(g.add_wall("B", &Wall::vertical(3, 4)), Err(QuoridorError::WallCollision));
    assert_eq!(g.add_wall("B", &Wall::vertical(3, 2)), Err(QuoridorError::WallCollision));
    assert_eq!(g.add_wall("C", &Wall::vertical(6, 6)), Err(QuoridorError::PlayerNotFound));
    assert_eq!(g.is_valid_wall(&Wall::vertical(3, 5)), Ok(()));
    assert_eq!(g.is_valid_wall(&Wall::vertical(3, 4)), Err(QuoridorError::WallCollision));
    assert_eq!(g.walls.len(), 1);
    assert_eq!(g.state, GameState::Started(1));
    assert_eq!(g.get_player("A").walls, 9);
    assert_eq!(g.get_player("B").walls, 10);
}

#[test]
fn walls_collide() {
    let mut g = two_player_game();
    assert!(g.add_wall_tuples("A", (1, 1), (1, 3)).is_ok());
    assert_eq!(g.add_wall_tuples("B", (1, 2), (1, 4)), Err(QuoridorError::WallCollision));
    assert_eq!(g.add_wall_tuples("B", (1, 0), (1, 2)), Err(QuoridorError::WallCollision));
    assert_eq!(g.add_wall_tuples("B", (0, 2), (2, 2)), Err(QuoridorError::WallCollision));
    assert!(g.add_wall_tuples("B", (3, 1), (1, 1)).is_ok());
    assert_eq!(g.add_wall_tuples("A", (2, 1), (4, 1)), Err(QuoridorError::WallCollision));
    assert_eq!(g.add_wall_tuples("A", (2, 0), (2, 2)), Err(QuoridorError::WallCollision));
    assert!(g.add_wall_tuples("A", (3, 1), (5, 1)).is_ok());
    assert!(g.walls.contains(&Wall::vertical(1, 2)));
    assert!(g.walls.contains(&Wall::horizontal(2, 1)));
    assert!(g.walls.contains(&Wall::horizontal(4, 1)));
    assert_eq!(g.walls.len(), 3);
    assert!(!g.adj(point(0, 1), point(1, 1)));
    assert!(!g.adj(point(1, 2), point(0, 2)));
    assert!(g.adj(point(0, 3), point(1, 3)));
    assert!(!g.adj(point(1, 0), point(1, 1)));
    assert!(!g.adj(point(4, 1), point(4, 0)));
    assert!(g.adj(point(5, 0), point(5, 1)));
}

#[test]
fn a_wall_blocks_a_pawn() {
    let mut g = two_player_game();
    assert!(g.move_player("A", Direction::South).is_ok());
    assert!(g.move_player("B", Direction::North).is_ok());
    assert!(g.move_player("A", Direction::West).is_ok());
    assert_eq!(g.get_player("A").p, point(3, 1));
    assert_eq!(g.add_wall_tuples("B", (2, 1), (4, 1)), Ok("Added wall.".to_string()));
    assert_eq!(g.move_player("A", Direction::North), Err(QuoridorError::WallBlocksPath));
    assert_eq!(g.get_player("A").p, point(3, 1));
    assert_eq!(g.state, GameState::Started(0));
}

#[test]
fn no_wall_may_cut_a_player_off() {
    let mut g = two_player_game();
    // a fence across the board under the first row, but for the last gap
    for x in [1, 3, 5, 7] {
        let name = to_move(&g);
        assert!(g.add_wall(&name, &Wall::horizontal(x, 1)).is_ok());
    }
    assert!(g.add_wall("A", &Wall::vertical(6, 5)).is_ok());
    let last = Wall::vertical(8, 1);
    assert_eq!(g.is_valid_wall(&last), Err(QuoridorError::WallWouldStrandPlayer));
    assert_eq!(g.add_wall("B", &last), Err(QuoridorError::WallWouldStrandPlayer));
    assert_eq!(g.walls.len(), 5);
    assert!(!g.walls.contains(&last));
    for p in g.players.iter() {
        assert!(g.check_win_condition(p));
    }
    assert_eq!(g.state, GameState::Started(1));
    assert_eq!(g.get_player("A").walls, 7);
    assert_eq!(g.get_player("B").walls, 8);
}

#[test]
fn a_wall_that_boxes_a_pawn_in_is_refused() {
    let mut g = two_player_game();
    assert!(g.add_wall_tuples("A", (4, 0), (4, 2)).is_ok());
    assert!(g.add_wall_tuples("B", (4, 2), (6, 2)).is_ok());
    assert_eq!(g.add_wall_tuples("A", (6, 0), (6, 2)), Err(QuoridorError::WallWouldStrandPlayer));
    assert_eq!(g.walls.len(), 2);
    assert_eq!(g.state, GameState::Started(0));
    assert_eq!(g.get_player("A").walls, 9);
    for p in g.players.iter() {
        assert!(g.check_win_condition(p));
    }
}

#[test]
fn accepted_walls_leave_every_player_a_way() {
    let mut g = two_player_game();
    let mut seed: u32 = 12345;
    let mut accepted = 0;
    for _ in 0..400 {
        seed = seed.wrapping_mul(1664525).wrapping_add(1013904223);
        let x = ((seed >> 8) % 10) as i32;
        let y = ((seed >> 16) % 10) as i32;
        let wall = if (seed >> 24) % 2 == 0 { Wall::vertical(x, y) } else { Wall::horizontal(x, y) };
        let name = to_move(&g);
        let left = g.get_player(&name).walls;
        match g.add_wall(&name, &wall) {
            Ok(_) => {
                accepted += 1;
                assert_eq!(g.get_player(&name).walls, left - 1);
                assert_ne!(to_move(&g), name);
            }
            Err(e) => {
                assert_eq!(g.get_player(&name).walls, left);
                assert_eq!(to_move(&g), name);
                assert_eq!(left == 0, e == QuoridorError::NoWallsRemaining);
            }
        }
        for p in g.players.iter() {
            assert!(g.check_win_condition(p));
            let (d, _) = g.dijkstra(p.p);
            let goal_row = if p.id == 0 { 8 } else { 0 };
            assert!((0..9).any(|i| d[index_of(point(i, goal_row))] < MAX_DIST));
        }
    }
    assert_eq!(accepted, 20);
    assert_eq!(g.walls.len(), 20);
    assert_eq!(g.get_player("A").walls, 0);
    assert_eq!(g.get_player("B").walls, 0);
}

#[test]
fn a_wall_in_turn() {
    let mut g = two_player_game();
    assert_eq!(g.add_wall("A", &Wall::vertical(3, 3)), Ok("Added wall.".to_string()));
    assert_eq!(g.get_player("A").walls, 9);
    assert_eq!(g.get_player("B").walls, 10);
    assert_eq!(g.state, GameState::Started(1));
    assert!(g.walls.contains(&Wall::vertical(3, 3)));
    assert_eq!(g.add_wall_tuples("B", (5, 5), (7, 5)), Ok("Added wall.".to_string()));
    assert!(g.walls.contains(&Wall::horizontal(6, 5)));
    assert_eq!(g.get_player("B").walls, 9);
    assert_eq!(g.state, GameState::Started(0));
    assert_eq!(g.add_wall_tuples("A", (5, 5), (6, 6)), Err(QuoridorError::InvalidWallGeometry));
    assert_eq!(g.add_wall("A", &Wall::vertical(3, 3)), Err(QuoridorError::WallCollision));
    assert_eq!(g.add_wall("A", &Wall::vertical(9, 3)), Err(QuoridorError::OutOfBounds));
    assert_eq!(g.state, GameState::Started(0));
    assert_eq!(g.get_player("A").walls, 9);
    assert_eq!(g.get_player("A").p, point(4, 0));
    assert_eq!(g.get_player("B").p, point(4, 8));
}

#[test]
fn a_player_without_walls_places_none() {
    let doc = Snapshot {
        turn: Some(1),
        size: 9,
        walls: vec![],
        players: vec![
            PlayerSnapshot { name: "A".to_string(), id: 0, walls: 3, position: (4, 0) },
            PlayerSnapshot { name: "B".to_string(), id: 1, walls: 0, position: (4, 8) },
        ],
    };
    let mut g = Game::restore(&doc, 2).unwrap();
    assert_eq!(g.add_wall("B", &Wall::vertical(3, 3)), Err(QuoridorError::NoWallsRemaining));
    assert_eq!(g.add_wall_tuples("B", (3, 2), (3, 4)), Err(QuoridorError::NoWallsRemaining));
    assert_eq!(g.walls.len(), 0);
    assert_eq!(g.state, GameState::Started(1));
}

#[test]
fn shortest_ways_on_an_open_board() {
    let walls = WallSet::new();
    let (dist, prev) = walls.dijkstra(point(0, 0));
    assert_eq!(dist.len(), CELLS);
    assert_eq!(prev.len(), CELLS);
    for x in 0..9 {
        for y in 0..9 {
            assert_eq!(dist[index_of(point(x, y))], x + y);
        }
    }
    assert_eq!(prev[index_of(point(0, 0))], None);
    assert_eq!(cell_of(index_of(point(3, 7))), point(3, 7));
    let path = walls.reconstruct_path(&prev, point(5, 3));
    assert_eq!(path.nodes.len(), 8);
    assert_eq!(path.nodes[7], point(5, 3));
    assert!(path.nodes[0].neighbors(point(0, 0)));
    for i in 0..7 {
        assert!(walls.adj(path.nodes[i], path.nodes[i + 1]));
    }
    assert_eq!(walls.reconstruct_path(&prev, point(0, 0)).nodes.len(), 0);
    assert_eq!(walls.reconstruct_path(&prev, point(9, 9)).nodes.len(), 0);
}

#[test]
fn shortest_ways_round_walls() {
    let mut walls = WallSet::new();
    // a fence under the first row that leaves the last column open
    for x in [1, 3, 5, 7] {
        assert!(walls.insert(Wall::horizontal(x, 1)));
    }
    let (dist, prev) = walls.dijkstra(point(0, 0));
    assert_eq!(dist[index_of(point(8, 0))], 8);
    assert_eq!(dist[index_of(point(8, 1))], 9);
    assert_eq!(dist[index_of(point(0, 1))], 17);
    assert_eq!(dist[index_of(point(0, 8))], 24);
    let path = walls.reconstruct_path(&prev, point(0, 1));
    assert_eq!(path.nodes.len(), 17);
    assert_eq!(path.nodes[7], point(8, 0));
    assert_eq!(path.nodes[8], point(8, 1));
    // close the gap: the rest of the board cannot be reached
    assert!(walls.insert(Wall::vertical(8, 1)));
    let (dist, prev) = walls.dijkstra(point(0, 0));
    assert_eq!(dist[index_of(point(7, 0))], 7);
    assert_eq!(dist[index_of(point(8, 0))], MAX_DIST);
    assert_eq!(dist[index_of(point(7, 1))], MAX_DIST);
    assert_eq!(dist[index_of(point(0, 8))], MAX_DIST);
    assert_eq!(prev[index_of(point(0, 8))], None);
    assert_eq!(walls.reconstruct_path(&prev, point(0, 8)).nodes.len(), 0);
}

#[test]
fn shortest_ways_from_off_the_board() {
    let (dist, prev) = WallSet::new().dijkstra(point(-1, 0));
    assert!(dist.iter().all(|d| *d == MAX_DIST));
    assert!(prev.iter().all(|p| p.is_none()));
}

#[test]
fn ways_lead_through_pawns() {
    let g = two_player_game();
    // a pawn stands on (4, 8): no pawn may step onto it, but the way to the
    // cell behind it leads through it
    assert!(!g.adj(point(3, 8), point(4, 8)));
    assert!(g.passable(point(3, 8), point(4, 8)));
    let (dist, prev) = g.dijkstra(point(3, 8));
    assert_eq!(dist[index_of(point(5, 8))], 2);
    assert_eq!(dist[index_of(point(4, 8))], 1);
    assert_eq!(prev[index_of(point(5, 8))], Some(point(4, 8)));
    let (open, _) = g.walls.dijkstra(point(3, 8));
    assert_eq!(dist, open);
    // the same walls with the pawns elsewhere give the same table
    let mut other = two_player_game();
    assert!(other.move_player("A", Direction::South).is_ok());
    assert!(other.move_player("B", Direction::West).is_ok());
    assert_eq!(other.dijkstra(point(3, 8)).0, dist);
    let path = g.reconstruct_path(&prev, point(5, 8));
    assert_eq!(path.nodes, vec![point(4, 8), point(5, 8)]);
}

#[test]
fn walls_limit_the_ways_of_a_game() {
    let mut g = two_player_game();
    for x in [1, 3, 5, 7] {
        let name = to_move(&g);
        assert!(g.add_wall(&name, &Wall::horizontal(x, 1)).is_ok());
    }
    let (dist, _) = g.dijkstra(point(0, 0));
    assert_eq!(dist[index_of(point(8, 0))], 8);
    assert_eq!(dist[index_of(point(4, 0))], 4);
    assert_eq!(dist[index_of(point(0, 1))], 17);
    assert_eq!(dist, g.walls.dijkstra(point(0, 0)).0);
    assert!(!g.passable(point(0, 0), point(0, 1)));
    assert!(g.passable(point(8, 0), point(8, 1)));
    assert!(!g.passable(point(8, 0), point(9, 0)));
}

#[test]
fn nodes_and_cells() {
    assert_eq!(index_of(point(0, 0)), 0);
    assert_eq!(index_of(point(8, 0)), 8);
    assert_eq!(index_of(point(0, 1)), 9);
    assert_eq!(index_of(point(8, 8)), 80);
    assert_eq!(cell_of(80), point(8, 8));
    assert_eq!(cell_of(9), point(0, 1));
    assert_eq!(index_of_node(point(-1, -1)), 0);
    assert_eq!(index_of_node(point(0, 0)), 12);
    assert_eq!(index_of_node(point(9, 9)), 120);
    assert_eq!(node_of(0), point(-1, -1));
    assert_eq!(node_of(12), point(0, 0));
    assert_eq!(node_of(120), point(9, 9));
    for i in 0..121 {
        assert_eq!(index_of_node(node_of(i)), i);
    }
    assert!(Path::new().nodes.is_empty());
}

#[test]
fn connected_cells() {
    let mut walls = WallSet::new();
    for x in [1, 3, 5, 7] {
        assert!(walls.insert(Wall::horizontal(x, 1)));
    }
    assert!(walls.insert(Wall::vertical(8, 1)));
    let w = walls.warshall();
    assert_eq!(w.len(), 121);
    assert!(w.iter().all(|row| row.len() == 121));
    assert!(walls.connected(&w, point(0, 0), point(7, 0)));
    assert!(walls.connected(&w, point(7, 0), point(0, 0)));
    assert!(walls.connected(&w, point(0, 0), point(0, 0)));
    assert!(!walls.connected(&w, point(0, 0), point(8, 0)));
    assert!(!walls.connected(&w, point(0, 0), point(0, 1)));
    assert!(!walls.connected(&w, point(0, 0), point(7, 1)));
    assert!(walls.connected(&w, point(0, 1), point(8, 8)));
    assert!(walls.connected(&w, point(8, 0), point(0, 1)));
    assert!(!walls.connected(&w, point(-1, -1), point(0, 0)));
    assert!(!walls.connected(&w, point(-1, -1), point(-1, -1)));
    assert!(!walls.connected(&w, point(9, 9), point(8, 8)));
    let (dist, _) = walls.dijkstra(point(0, 0));
    for x in 0..9 {
        for y in 0..9 {
            let reached = dist[index_of(point(x, y))] < MAX_DIST;
            assert_eq!(reached, walls.connected(&w, point(0, 0), point(x, y)));
        }
    }
}
