use quoridor::board::{Direction, Point, Wall};
use quoridor::errors::QuoridorError;
use quoridor::player::Player;
use quoridor::quoridor::{s, Game, GameState};
use quoridor::session::{Operation, Session};
use quoridor::snapshot::{PlayerSnapshot, Snapshot};
use quoridor::text::{decimal_of, padded_of, point_to_string};
use quoridor::turn::Turn;

fn point(x: i32, y: i32) -> Point {
    Point { x, y }
}

fn register(name: &str, key: &str) -> Operation {
    Operation::Register { name: name.to_string(), key: key.to_string() }
}

#[test]
fn the_second_player_starts_a_game_for_two() {
    let mut g = Game::new();
    assert_eq!(g.quota, 2);
    assert_eq!(g.state, GameState::Setup);
    assert_eq!(g.add_player("A", "a"), Ok("Added player A".to_string()));
    assert_eq!(g.state, GameState::Setup);
    assert_eq!(g.add_player("B", "b"), Ok("Added player B".to_string()));
    assert_eq!(g.state, GameState::Started(0));
    assert_eq!(g.add_player("C", "c"), Err(QuoridorError::RegistrationFull));
    assert_eq!(g.state, GameState::Started(0));
    assert_eq!(g.players.len(), 2);
    assert_eq!(g.get_player("A").walls, 10);
    assert_eq!(g.get_player("B").walls, 10);
    assert_eq!(g.get_player("A").id, 0);
    assert_eq!(g.get_player("B").id, 1);
    assert_eq!(g.get_player("B").p, point(4, 8));
    assert_eq!(g.get_player("B").last_position, None);
}

#[test]
fn the_fourth_player_starts_a_game_for_four() {
    let mut g = Game::with_players(4).unwrap();
    for name in ["A", "B", "C"] {
        assert!(g.add_player(name, "").is_ok());
        assert_eq!(g.state, GameState::Setup);
    }
    assert_eq!(g.get_player("A").walls, 10);
    assert!(g.add_player("D", "").is_ok());
    assert_eq!(g.state, GameState::Started(0));
    for p in g.players.iter() {
        assert_eq!(p.walls, 5);
    }
    assert_eq!(g.add_player("E", ""), Err(QuoridorError::RegistrationFull));
}

#[test]
fn games_are_for_two_or_four() {
    assert!(Game::with_players(2).is_some());
    assert!(Game::with_players(4).is_some());
    for quota in [0, 1, 3, 5, 8] {
        assert!(Game::with_players(quota).is_none());
    }
}

#[test]
fn registration_errors() {
    let mut g = Game::with_players(4).unwrap();
    assert!(g.add_player("A", "a").is_ok());
    assert_eq!(g.add_player("A", "other"), Err(QuoridorError::DuplicateRegistration));
    assert_eq!(g.players.len(), 1);
    // a game that has started with a seat still free takes no player
    let doc = document(Some(0), 9, vec![], vec![("A", 0, (4, 0))]);
    let mut g = Game::restore(&doc, 2).unwrap();
    assert_eq!(g.state, GameState::Started(0));
    assert_eq!(g.add_player("B", "b"), Err(QuoridorError::RegistrationClosed));
    assert_eq!(g.add_player("A", "a"), Err(QuoridorError::DuplicateRegistration));
    assert_eq!(g.players.len(), 1);
}

#[test]
fn only_a_full_game_starts() {
    let mut g = Game::with_players(4).unwrap();
    for name in ["A", "B", "C"] {
        assert!(g.add_player(name, "").is_ok());
        g.start_game();
        assert_eq!(g.state, GameState::Setup);
    }
    // every seat taken, and the game still being set up
    let doc = document(None, 9, vec![], vec![("A", 0, (4, 0)), ("B", 1, (4, 7))]);
    let mut g = Game::restore(&doc, 2).unwrap();
    assert_eq!(g.state, GameState::Setup);
    g.players[0].walls = 3;
    g.start_game();
    assert_eq!(g.state, GameState::Started(0));
    assert_eq!(g.get_player("A").walls, 10);
    assert_eq!(g.get_player("B").walls, 10);
    // a game that has started does not start again
    assert_eq!(g.increment_turn(), Ok(()));
    assert_eq!(g.state, GameState::Started(1));
    g.start_game();
    assert_eq!(g.state, GameState::Started(1));
}

#[test]
fn an_empty_game_does_not_start() {
    let mut g = Game::new();
    g.start_game();
    assert_eq!(g.state, GameState::Setup);
    g.inc_turn();
    g.revert_turn();
    assert_eq!(g.state, GameState::Setup);
    assert_eq!(g.winner(), None);
}

#[test]
fn credentials() {
    let mut g = Game::new();
    assert!(g.add_player("A", "secret").is_ok());
    assert!(g.credential_matches("A", "secret"));
    assert!(!g.credential_matches("A", "Secret"));
    assert!(!g.credential_matches("A", ""));
    assert!(!g.credential_matches("B", "secret"));
    assert!(g.get_player("A").key_matches("secret"));
    assert!(!g.get_player("A").key_matches("secre"));
    assert_eq!(g.find_player("A"), Some(0));
    assert_eq!(g.find_player("a"), None);
}

#[test]
fn a_document_of_a_game() {
    let mut g = Game::new();
    assert!(g.add_player("A", "a").is_ok());
    let doc = g.snapshot();
    assert_eq!(doc.turn, None);
    assert_eq!(doc.size, 9);
    assert!(doc.walls.is_empty());
    assert_eq!(doc.players.len(), 1);
    assert!(g.add_player("B", "b").is_ok());
    assert!(g.add_wall("A", &Wall::vertical(3, 3)).is_ok());
    assert!(g.move_player("B", Direction::North).is_ok());
    let doc = g.snapshot();
    assert_eq!(doc.turn, Some(0));
    assert_eq!(doc.walls, vec![((3, 2), (3, 4))]);
    assert_eq!(doc.players[0].name, "A");
    assert_eq!(doc.players[0].id, 0);
    assert_eq!(doc.players[0].walls, 9);
    assert_eq!(doc.players[0].position, (4, 0));
    assert_eq!(doc.players[1].name, "B");
    assert_eq!(doc.players[1].id, 1);
    assert_eq!(doc.players[1].walls, 10);
    assert_eq!(doc.players[1].position, (4, 7));
}

fn same_game(a: &Game, b: &Game) {
    assert_eq!(a.state, b.state);
    assert_eq!(a.quota, b.quota);
    assert_eq!(a.walls.len(), b.walls.len());
    for w in a.walls.items.iter() {
        assert!(b.walls.contains(w));
    }
    assert_eq!(a.players.len(), b.players.len());
    for (p, q) in a.players.iter().zip(b.players.iter()) {
        assert_eq!(p.name, q.name);
        assert_eq!(p.id, q.id);
        assert_eq!(p.walls, q.walls);
        assert_eq!(p.p, q.p);
        assert_eq!(p.key, q.key);
        assert_eq!(p.last_position, q.last_position);
    }
}

#[test]
fn a_game_comes_back_from_its_document() {
    let mut g = Game::with_players(4).unwrap();
    same_game(&Game::restore(&g.snapshot(), 4).unwrap(), &g);
    for name in ["A", "B", "C", "D"] {
        assert!(g.add_player(name, "").is_ok());
        same_game(&Game::restore(&g.snapshot(), 4).unwrap(), &g);
    }
    assert!(g.add_wall("A", &Wall::vertical(3, 3)).is_ok());
    assert!(g.add_wall("B", &Wall::horizontal(5, 6)).is_ok());
    assert!(g.add_wall("C", &Wall::horizontal(7, 6)).is_ok());
    let back = Game::restore(&g.snapshot(), 4).unwrap();
    same_game(&back, &g);
    assert_eq!(format!("{:?}", back.snapshot()), format!("{:?}", g.snapshot()));
    assert_eq!(back.render(), g.render());
}

#[test]
fn what_a_document_does_not_show_is_left_empty() {
    let mut g = Game::new();
    assert!(g.add_player("A", "a").is_ok());
    assert!(g.add_player("B", "b").is_ok());
    assert!(g.move_player("A", Direction::South).is_ok());
    let back = Game::restore(&g.snapshot(), 2).unwrap();
    assert_eq!(back.get_player("A").p, point(4, 1));
    assert_eq!(back.get_player("A").key, "");
    assert_eq!(back.get_player("A").last_position, None);
    assert_eq!(back.state, GameState::Started(1));
    assert_eq!(format!("{:?}", back.snapshot()), format!("{:?}", g.snapshot()));
}

#[test]
fn a_document_of_a_game_that_is_over() {
    let doc = Snapshot {
        turn: None,
        size: 9,
        walls: vec![],
        players: vec![
            PlayerSnapshot { name: "A".to_string(), id: 0, walls: 10, position: (4, 1) },
            PlayerSnapshot { name: "B".to_string(), id: 1, walls: 10, position: (2, 0) },
        ],
    };
    let g = Game::restore(&doc, 2).unwrap();
    assert_eq!(g.state, GameState::GameOver(1));
    same_game(&Game::restore(&g.snapshot(), 2).unwrap(), &g);
}

fn document(
    turn: Option<u8>,
    size: i32,
    walls: Vec<((i32, i32), (i32, i32))>,
    players: Vec<(&str, u8, (i32, i32))>,
) -> Snapshot {
    Snapshot {
        turn,
        size,
        walls,
        players: players
            .into_iter()
            .map(|(name, id, position)| PlayerSnapshot { name: name.to_string(), id, walls: 10, position })
            .collect(),
    }
}

#[test]
fn documents_that_describe_no_game() {
    let ok = |doc: &Snapshot, quota: usize| Game::restore(doc, quota).is_some();
    assert!(ok(&document(None, 9, vec![], vec![]), 2));
    assert!(ok(&document(Some(1), 9, vec![((1, 1), (1, 3))], vec![("A", 0, (0, 0)), ("B", 1, (8, 8))]), 2));
    assert!(!ok(&document(None, 9, vec![], vec![]), 3));
    assert!(!ok(&document(None, 5, vec![], vec![]), 2));
    assert!(!ok(&document(Some(0), 9, vec![], vec![]), 2));
    assert!(!ok(&document(Some(2), 9, vec![], vec![("A", 0, (0, 0)), ("B", 1, (8, 8))]), 2));
    assert!(!ok(&document(None, 9, vec![], vec![("A", 0, (0, 0)), ("B", 1, (8, 8)), ("C", 2, (1, 1))]), 2));
    assert!(ok(&document(None, 9, vec![], vec![("A", 0, (0, 0)), ("B", 1, (8, 7)), ("C", 2, (1, 1))]), 4));
    assert!(!ok(&document(None, 9, vec![], vec![("A", 1, (0, 0))]), 2));
    assert!(!ok(&document(None, 9, vec![], vec![("A", 0, (0, 0)), ("A", 1, (8, 8))]), 2));
    assert!(!ok(&document(None, 9, vec![], vec![("A", 0, (0, 9))]), 2));
    assert!(!ok(&document(None, 9, vec![((1, 1), (2, 2))], vec![]), 2));
    assert!(!ok(&document(None, 9, vec![((0, 0), (0, 2))], vec![]), 2));
    assert!(!ok(&document(None, 9, vec![((1, 1), (1, 3)), ((1, 3), (1, 1))], vec![]), 2));
    assert!(ok(&document(None, 9, vec![((1, 1), (1, 3)), ((1, 4), (1, 6))], vec![]), 2));
}

#[test]
fn a_game_as_json() {
    let mut g = Game::new();
    assert_eq!(g.to_json().to_string(), r#"{"players":[],"size":9,"turn":null,"walls":[]}"#);
    assert!(g.add_player("A", "secret").is_ok());
    assert_eq!(
        g.get_player("A").to_json().to_string(),
        r#"{"id":0,"name":"A","position":[4,0],"walls":10}"#
    );
    assert!(g.add_player("B", "b").is_ok());
    assert!(g.add_wall("A", &Wall::vertical(3, 3)).is_ok());
    assert!(g.move_player("B", Direction::North).is_ok());
    let text = g.to_json().to_string();
    let mut expected = String::new();
    expected.push_str(r#"{"players":[{"id":0,"name":"A","position":[4,0],"walls":9},"#);
    expected.push_str(r#"{"id":1,"name":"B","position":[4,7],"walls":10}],"#);
    expected.push_str(r#""size":9,"turn":0,"walls":[[[3,2],[3,4]]]}"#);
    assert_eq!(text, expected);
    assert_eq!(g.snapshot().to_json().to_string(), text);
    assert_eq!(g.snapshot().players[1].to_json(), g.get_player("B").to_json());
    let doc = document(None, 9, vec![((-1, 0), (1, 0))], vec![("say \"hi\"", 0, (-3, 2))]);
    let mut expected = String::new();
    expected.push_str(r#"{"players":[{"id":0,"name":"say \"hi\"","position":[-3,2],"walls":10}],"#);
    expected.push_str(r#""size":9,"turn":null,"walls":[[[-1,0],[1,0]]]}"#);
    assert_eq!(doc.to_json().to_string(), expected);
}

#[test]
fn a_session_counts_the_turns() {
    let mut session = Session::new(Game::new());
    assert_eq!(session.turn_counter(), 0);
    assert!(session.unchanged_since(0));
    let doc = session.mutate(&register("A", "a")).unwrap();
    assert_eq!(doc.players.len(), 1);
    assert_eq!(doc.turn, None);
    assert_eq!(session.turn_counter(), 1);
    assert!(!session.unchanged_since(0));
    assert!(session.unchanged_since(1));
    assert_eq!(session.mutate(&register("A", "x")).unwrap_err(), QuoridorError::DuplicateRegistration);
    assert_eq!(session.turn_counter(), 1);
    let doc = session.mutate(&register("B", "b")).unwrap();
    assert_eq!(doc.turn, Some(0));
    assert_eq!(session.turn_counter(), 2);
    assert_eq!(session.mutate(&register("C", "c")).unwrap_err(), QuoridorError::RegistrationFull);
    assert!(session.authorized("A", "a"));
    assert!(!session.authorized("A", "b"));
    assert!(!session.authorized("C", "c"));

    let by_b = Operation::Move { name: "B".to_string(), direction: Direction::North };
    assert_eq!(session.mutate(&by_b).unwrap_err(), QuoridorError::NotPlayersTurn);
    assert_eq!(session.turn_counter(), 2);
    let by_a = Operation::MoveTo { name: "A".to_string(), position: point(4, 1) };
    let doc = session.mutate(&by_a).unwrap();
    assert_eq!(doc.turn, Some(1));
    assert_eq!(doc.players[0].position, (4, 1));
    assert_eq!(session.turn_counter(), 3);
    let doc = session.mutate(&by_b).unwrap();
    assert_eq!(doc.players[1].position, (4, 7));
    let wall = Operation::PlaceWall { name: "A".to_string(), p1: point(3, 2), p2: point(5, 2) };
    let doc = session.mutate(&wall).unwrap();
    assert_eq!(doc.walls, vec![((3, 2), (5, 2))]);
    assert_eq!(doc.players[0].walls, 9);
    assert_eq!(session.turn_counter(), 5);
    let crooked = Operation::PlaceWall { name: "B".to_string(), p1: point(3, 2), p2: point(4, 3) };
    assert_eq!(session.mutate(&crooked).unwrap_err(), QuoridorError::InvalidWallGeometry);
    let ghost = Operation::Move { name: "Z".to_string(), direction: Direction::North };
    assert_eq!(session.mutate(&ghost).unwrap_err(), QuoridorError::PlayerNotFound);
    assert_eq!(session.turn_counter(), 5);
    assert_eq!(format!("{:?}", session.state()), format!("{:?}", doc));
    assert_eq!(session.render(), session.game.render());
}

fn player(name: &str, id: u8) -> Player {
    Player { p: point(0, 0), key: s(""), id, walls: 0, name: s(name), last_position: None }
}

#[test]
fn turns_taken_and_taken_back() {
    let mut g = Game::new();
    assert!(g.add_player("A", "a").is_ok());
    assert!(g.add_player("B", "b").is_ok());
    let a = player("A", 0);
    let b = player("B", 1);
    let step = Turn::Move(Direction::South);
    assert_eq!(step.take(&mut g, &b), Err(QuoridorError::NotPlayersTurn));
    assert_eq!(step.take(&mut g, &a), Ok(()));
    assert_eq!(g.get_player("A").p, point(4, 1));
    assert_eq!(g.state, GameState::Started(1));
    // the pawn goes back; the turn stays where it is until it is handed back
    assert_eq!(step.undo(&mut g, &a), Ok(()));
    assert_eq!(g.get_player("A").p, point(4, 0));
    assert_eq!(g.state, GameState::Started(1));
    g.revert_turn();
    assert_eq!(g.state, GameState::Started(0));
    assert_eq!(Turn::Move(Direction::North).take(&mut g, &a), Err(QuoridorError::OutOfBounds));
    let wall = Turn::PlaceWall(Wall::horizontal(4, 1));
    assert_eq!(wall.take(&mut g, &a), Ok(()));
    assert_eq!(g.get_player("A").walls, 9);
    assert_eq!(wall.take(&mut g, &a), Err(QuoridorError::NotPlayersTurn));
    assert_eq!(wall.take(&mut g, &b), Err(QuoridorError::WallCollision));
    g.revert_turn();
    assert_eq!(step.take(&mut g, &a), Err(QuoridorError::WallBlocksPath));
    assert_eq!(wall.undo(&mut g, &a), Ok(()));
    assert_eq!(g.walls.len(), 0);
    assert_eq!(step.take(&mut g, &a), Ok(()));
    assert_eq!(g.get_player("A").p, point(4, 1));
    let mut g = Game::restore(
        &document(Some(0), 9, vec![], vec![("A", 0, (4, 1)), ("B", 1, (4, 2))]),
        2,
    ).unwrap();
    let jump = Turn::Jump(Direction::South);
    assert_eq!(jump.take(&mut g, &a), Err(QuoridorError::OccupiedCell));
    assert!(g.move_player_to("A", point(4, 3)).is_ok());
    assert_eq!(jump.undo(&mut g, &a), Ok(()));
    assert_eq!(g.get_player("A").p, point(4, 1));
    let nobody = player("Z", 3);
    assert_eq!(step.take(&mut g, &nobody), Err(QuoridorError::PlayerNotFound));
    assert_eq!(step.undo(&mut g, &nobody), Err(QuoridorError::PlayerNotFound));
    assert_eq!(g.state, GameState::Started(1));
}

#[test]
fn numbers_as_text() {
    assert_eq!(decimal_of(0), "0");
    assert_eq!(decimal_of(7), "7");
    assert_eq!(decimal_of(10), "10");
    assert_eq!(decimal_of(1234567890), "1234567890");
    assert_eq!(decimal_of(-45), "-45");
    assert_eq!(decimal_of(i32::MAX), "2147483647");
    assert_eq!(decimal_of(i32::MIN), "-2147483648");
    assert_eq!(padded_of(7, 4), "   7");
    assert_eq!(padded_of(-7, 4), "  -7");
    assert_eq!(padded_of(12345, 4), "12345");
    assert_eq!(padded_of(1234, 4), "1234");
    assert_eq!(padded_of(3, 0), "3");
    assert_eq!(point_to_string(point(-1, 12)), "Point { x: -1, y: 12 }");
    assert_eq!(point_to_string(point(4, 1)), format!("{:?}", point(4, 1)));
    assert_eq!(s("abc"), "abc".to_string());
}

#[test]
fn errors_as_text() {
    assert_eq!(QuoridorError::PlayerNotFound.to_string(), "Player not found");
    assert_eq!(QuoridorError::InvalidJump.to_string(), "Invalid jump");
    assert_eq!(QuoridorError::NotPlayersTurn.to_string(), "Invalid turn: not your turn");
    assert_eq!(QuoridorError::GameAlreadyOver.to_string(), "Invalid turn: game is over");
    let all = [
        QuoridorError::PlayerNotFound,
        QuoridorError::DuplicateRegistration,
        QuoridorError::RegistrationClosed,
        QuoridorError::RegistrationFull,
        QuoridorError::OutOfBounds,
        QuoridorError::OccupiedCell,
        QuoridorError::WallBlocksPath,
        QuoridorError::InvalidWallGeometry,
        QuoridorError::WallCollision,
        QuoridorError::WallWouldStrandPlayer,
        QuoridorError::InvalidJump,
        QuoridorError::NoWallsRemaining,
        QuoridorError::NotPlayersTurn,
        QuoridorError::GameAlreadyOver,
    ];
    for (i, a) in all.iter().enumerate() {
        assert!(!a.to_string().is_empty());
        for b in all.iter().skip(i + 1) {
            assert_ne!(a.to_string(), b.to_string());
        }
    }
}

#[test]
fn the_board_as_text() {
    let mut g = Game::new();
    let mut open = String::new();
    open.push_str("     0   1   2   3   4   5   6   7   8\n");
    for j in 0..9 {
        open.push_str("   +   +   +   +   +   +   +   +   +   +\n");
        open.push_str(&format!("{:2}                                     \n", j));
    }
    open.push_str("   +   +   +   +   +   +   +   +   +   +\n");
    assert_eq!(g.render(), open);

    assert!(g.add_player("A", "").is_ok());
    assert!(g.add_player("B", "").is_ok());
    assert!(g.add_wall("A", &Wall::horizontal(4, 1)).is_ok());
    assert!(g.add_wall("B", &Wall::vertical(2, 7)).is_ok());
    let text = g.render();
    let lines: Vec<&str> = text.split('\n').collect();
    assert_eq!(lines.len(), 21);
    assert_eq!(lines[0], "     0   1   2   3   4   5   6   7   8");
    assert_eq!(lines[1], "   +   +   +   +   +   +   +   +   +   +");
    assert_eq!(lines[2], " 0                   0                 ");
    assert_eq!(lines[3], "   +   +   +   + - + - +   +   +   +   +");
    assert_eq!(lines[4], " 1                                     ");
    assert_eq!(lines[14], " 6         |                           ");
    assert_eq!(lines[16], " 7         |                           ");
    assert_eq!(lines[18], " 8                   1                 ");
    assert_eq!(lines[19], "   +   +   +   +   +   +   +   +   +   +");
    assert_eq!(lines[20], "");
}
