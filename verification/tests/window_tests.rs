use rust_book_server_example::coord::GamestateCoord;
use rust_book_server_example::create::GamestateChunk;
use rust_book_server_example::get::{create_visible_gamestate, VisibleGamestate};

fn chunk(x: i32, y: i32, terrain: Vec<Vec<char>>) -> GamestateChunk {
    GamestateChunk { coord: GamestateCoord { x, y }, terrain, users: Vec::new() }
}

fn fixture() -> Vec<(GamestateCoord, GamestateChunk)> {
    vec![
        (
            GamestateCoord { x: 9, y: 9 },
            chunk(9, 9, vec![vec!['a', 'b'], vec!['A', 'B']]),
        ),
        (
            GamestateCoord { x: 10, y: 9 },
            chunk(10, 9, vec![vec!['c', 'd'], vec!['C', 'D']]),
        ),
        (
            GamestateCoord { x: 11, y: 9 },
            chunk(11, 9, vec![vec!['e', 'f'], vec!['E', 'F']]),
        ),
        (
            GamestateCoord { x: 9, y: 10 },
            chunk(9, 19, vec![vec!['h', 'i'], vec!['H', 'I']]),
        ),
        (
            GamestateCoord { x: 10, y: 10 },
            chunk(10, 10, vec![vec!['j', 'k'], vec!['J', 'K']]),
        ),
        (
            GamestateCoord { x: 11, y: 10 },
            chunk(11, 10, vec![vec!['l', 'm'], vec!['L', 'M']]),
        ),
        (
            GamestateCoord { x: 9, y: 11 },
            chunk(9, 11, vec![vec!['n', 'o'], vec!['N', 'O']]),
        ),
        (
            GamestateCoord { x: 10, y: 11 },
            chunk(10, 11, vec![vec!['p', 'q'], vec!['P', 'Q']]),
        ),
        (
            GamestateCoord { x: 11, y: 11 },
            chunk(11, 11, vec![vec!['r', 's'], vec!['R', 'S']]),
        ),
    ]
}

fn expected() -> VisibleGamestate {
    VisibleGamestate {
        terrain: vec![
            vec!['a', 'b', 'c', 'd', 'e', 'f'],
            vec!['A', 'B', 'C', 'D', 'E', 'F'],
            vec!['h', 'i', 'j', 'k', 'l', 'm'],
            vec!['H', 'I', 'J', 'K', 'L', 'M'],
            vec!['n', 'o', 'p', 'q', 'r', 's'],
            vec!['N', 'O', 'P', 'Q', 'R', 'S'],
        ],
        users: Vec::new(),
    }
}

#[test]
fn rrr_game_test_create_visible_gamestate() {
    let visible_gamestate = create_visible_gamestate(GamestateCoord { x: 10, y: 10 }, fixture());
    assert_eq!(visible_gamestate, expected());
}

#[test]
fn get_test_create_visible_gamestate() {
    let visible_gamestate = create_visible_gamestate(GamestateCoord { x: 10, y: 10 }, fixture());
    assert_eq!(visible_gamestate, expected());
}
