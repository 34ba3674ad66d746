use rust_book_server_example::book_database;
use rust_book_server_example::coord::{GamestateCoord, UserCoord};
use rust_book_server_example::create::{encode_chunk, parse_chunk, GamestateChunk};
use rust_book_server_example::text::parse_i32;
use rust_book_server_example::users::{encode_user_entry, parse_user_entry, UserEntry, UserGameInfo};
use rust_book_server_example::{Database, LocalDatabase};

fn register(db: &mut LocalDatabase, username: &str) -> String {
    let body = format!(
        "{{\"username\":\"{}\", \"email\":\"{}@example.com\", \"password\":\"pw-{}\"}}",
        username, username, username
    );
    let request = format!(
        "POST /users HTTP/1.1\r\nContent-Type: application/json\r\n\r\n{}",
        body
    );
    rust_book_server_example::process_request(request, db)
}

#[test]
fn test_duplicate_registration_conflict() {
    let mut db = LocalDatabase::new();
    let first = register(&mut db, "sam");
    assert!(first.starts_with("HTTP/1.1 200 OK"));
    let stored = db.get("sam").unwrap();

    // The second attempt with the same username is a conflict, and the
    // stored record is untouched.
    let second = register(&mut db, "sam");
    assert!(second.starts_with("HTTP/1.1 409 Conflict"));
    assert_eq!(db.get("sam").unwrap(), stored);
}

#[test]
fn test_gamestate_read_is_idempotent() {
    let mut db = LocalDatabase::new();
    let create = register(&mut db, "ida");
    let token_at = create.find("\"access_token\":\"").unwrap() + 16;
    let token_end = create[token_at..].find('"').unwrap() + token_at;
    let token = &create[token_at..token_end];

    let request = format!(
        "POST /rrr-game HTTP/1.1\r\nAuthorization: Bearer {}\r\n\r\n",
        token
    );
    let created = rust_book_server_example::process_request(request, &mut db);
    assert!(created.starts_with("HTTP/1.1 200 OK"));
    let gid_at = created.find("\"game_id\":\"").unwrap() + 11;
    let game_id = &created[gid_at..gid_at + 7];

    let read = format!(
        "GET /rrr-game/{}?x=0&y=0 HTTP/1.1\r\nAuthorization: Bearer {}\r\n\r\n",
        game_id, token
    );
    let first = rust_book_server_example::process_request(read.clone(), &mut db);
    let second = rust_book_server_example::process_request(read, &mut db);
    assert!(first.starts_with("HTTP/1.1 200 OK"));
    assert_eq!(first, second);
}

#[test]
fn test_unknown_route_not_found() {
    let mut db = LocalDatabase::new();
    let request =
        "GET /missing HTTP/1.1\r\nAuthorization: Bearer nope\r\n\r\n".to_string();
    let response = rust_book_server_example::process_request(request, &mut db);
    // The token gate runs first and rejects the junk token.
    assert!(response.starts_with("HTTP/1.1 401 Unauthorized"));

    let request = "POST /sessions HTTP/1.1\r\n\r\nnot json".to_string();
    let response = rust_book_server_example::process_request(request, &mut db);
    assert!(response.starts_with("HTTP/1.1 400 Bad request"));
}

#[test]
fn test_parse_i32_matches_std() {
    for s in [
        "0", "1", "-1", "+7", "007", "2147483647", "-2147483648", "2147483648", "-2147483649",
        "", "-", "+", "12a", "a12", " 1", "1 ", "--1", "99999999999999999999",
    ] {
        assert_eq!(parse_i32(s), s.parse::<i32>().ok(), "case {:?}", s);
    }
}

#[test]
fn test_chunk_codec_round_trip() {
    let chunk = GamestateChunk {
        coord: GamestateCoord { x: -3, y: 12 },
        terrain: vec![vec!['G', 'R'], vec!['W', 'G']],
        users: vec![
            ("ann".to_string(), UserCoord { x: -31, y: 104 }),
            ("b\"quote\\".to_string(), UserCoord { x: 0, y: 0 }),
        ],
    };
    let encoded = encode_chunk(&chunk);
    let parsed = parse_chunk(&encoded).unwrap();
    assert_eq!(parsed.coord, chunk.coord);
    assert_eq!(parsed.terrain, chunk.terrain);
    assert_eq!(parsed.users, chunk.users);

    // The tolerant parser accepts whitespace between tokens.
    let spaced = "{ \"coord\" : { \"x\" : 1 , \"y\" : -2 } , \"terrain\" : [ ] , \"users\" : { } }";
    let parsed = parse_chunk(spaced).unwrap();
    assert_eq!(parsed.coord, GamestateCoord { x: 1, y: -2 });
    assert!(parsed.terrain.is_empty());
    assert!(parsed.users.is_empty());

    // Broken records are rejected, not misread.
    assert!(parse_chunk("{\"coord\":{\"x\":1}}").is_none());
    assert!(parse_chunk("").is_none());
}

#[test]
fn test_user_entry_codec_round_trip() {
    let entry = UserEntry {
        email: "a@b.c".to_string(),
        hash: "$argon2id$v=19$m=19456,t=2,p=1$abc$def".to_string(),
        salt: "abc".to_string(),
        current_games: vec![(
            "rrr-game".to_string(),
            UserGameInfo { game_id: "1234567".to_string(), chunk_id: "0-0".to_string() },
        )],
    };
    let encoded = encode_user_entry(&entry);
    let parsed = parse_user_entry(&encoded).unwrap();
    assert_eq!(parsed.email, entry.email);
    assert_eq!(parsed.hash, entry.hash);
    assert_eq!(parsed.salt, entry.salt);
    assert_eq!(parsed.current_games.len(), 1);
    assert_eq!(parsed.current_games[0].0, "rrr-game");
    assert_eq!(parsed.current_games[0].1.game_id, "1234567");
    assert_eq!(parsed.current_games[0].1.chunk_id, "0-0");
}

#[test]
fn test_first_generation_router() {
    let mut db = LocalDatabase::new();
    register(&mut db, "olda");

    // Login through the first-generation router.
    let request = "POST /sessions HTTP/1.1\r\n\r\n{\"username\":\"olda\", \"password\":\"pw-olda\"}"
        .to_string();
    let response = rust_book_server_example::requests::process_request(request, &mut db);
    assert!(response.starts_with("HTTP/1.1 200 OK"));
    assert!(response.contains("access_token"));

    // A protected route without an Authorization header is forbidden.
    let request = "GET /users/olda HTTP/1.1\r\n\r\n".to_string();
    let response = rust_book_server_example::requests::process_request(request, &mut db);
    assert!(response.starts_with("HTTP/1.1 403 Forbidden"));

    // The pre-flight method is not part of this router's grammar.
    let request = "OPTIONS /users HTTP/1.1\r\n\r\n".to_string();
    let response = rust_book_server_example::requests::process_request(request, &mut db);
    assert!(response.starts_with("HTTP/1.1 400 Bad request"));
}

#[test]
fn test_not_implemented_and_not_found() {
    let mut db = LocalDatabase::new();
    let create = register(&mut db, "nia");
    let token_at = create.find("\"access_token\":\"").unwrap() + 16;
    let token_end = create[token_at..].find('"').unwrap() + token_at;
    let token = create[token_at..token_end].to_string();

    // Deleting a game is recognized but unbuilt.
    let request = format!(
        "DELETE /rrr-game/abcdefg HTTP/1.1\r\nAuthorization: Bearer {}\r\n\r\n",
        token
    );
    let response = rust_book_server_example::process_request(request, &mut db);
    assert!(response.starts_with("HTTP/1.1 501 Not implemented"));

    // An unknown resource is not found.
    let request = format!(
        "GET /elsewhere HTTP/1.1\r\nAuthorization: Bearer {}\r\n\r\n",
        token
    );
    let response = rust_book_server_example::process_request(request, &mut db);
    assert!(response.starts_with("HTTP/1.1 404 Not found"));

    // Reading a window in a game that was never created is fatal to the
    // request: the store has no such chunk.
    let request = format!(
        "GET /rrr-game/nothere?x=0&y=0 HTTP/1.1\r\nAuthorization: Bearer {}\r\n\r\n",
        token
    );
    let response = rust_book_server_example::process_request(request, &mut db);
    assert!(response.starts_with("HTTP/1.1 500 Internal Server Error"));
}

#[test]
fn test_book_database_counter() {
    let mut db = book_database::Database::new();
    assert_eq!(db.get("test"), "11");
    assert_eq!(db.get("anything"), "111");
    assert_eq!(db.get("test"), "1111");
}

#[test]
fn test_store_set_get_del() {
    let mut db = LocalDatabase::new();
    assert_eq!(db.get("k"), None);
    db.set("k".to_string(), "v1".to_string());
    assert_eq!(db.get("k"), Some("v1".to_string()));
    db.set("k".to_string(), "v2".to_string());
    assert_eq!(db.get("k"), Some("v2".to_string()));
    db.del("k");
    assert_eq!(db.get("k"), None);
}

#[test]
fn test_move_blocked_by_rock() {
    let mut db = LocalDatabase::new();
    let create = register(&mut db, "rocky");
    let token_at = create.find("\"access_token\":\"").unwrap() + 16;
    let token_end = create[token_at..].find('"').unwrap() + token_at;
    let token = &create[token_at..token_end].to_string();

    // A chunk whose eastern neighbor cell is rock: the move is silently
    // rejected and the old position comes back.
    let mut rows = Vec::new();
    for r in 0..9 {
        let row: Vec<String> = (0..9)
            .map(|c| if r == 4 && c == 5 { "\"R\"".to_string() } else { "\"G\"".to_string() })
            .collect();
        rows.push(format!("[{}]", row.join(",")));
    }
    let chunk = format!(
        "{{\"coord\":{{\"x\":0,\"y\":0}},\"terrain\":[{}],\"users\":{{\"rocky\":{{\"x\":0,\"y\":0}}}}}}",
        rows.join(",")
    );
    db.set("rrr-game:zzzzzzz:0-0".to_string(), chunk);

    let request = format!(
        "POST /rrr-game/zzzzzzz/actions?x=0&y=0 HTTP/1.1\r\nAuthorization: Bearer {}\r\n\r\n{{\"move\":\"East\"}}",
        token
    );
    let response = rust_book_server_example::process_request(request, &mut db);
    assert!(response.starts_with("HTTP/1.1 200 OK"));
    assert!(response.contains("\"user_coord\":{\"x\":0,\"y\":0}"));

    // Moving north instead works.
    let request = format!(
        "POST /rrr-game/zzzzzzz/actions?x=0&y=0 HTTP/1.1\r\nAuthorization: Bearer {}\r\n\r\n{{\"move\":\"North\"}}",
        token
    );
    let response = rust_book_server_example::process_request(request, &mut db);
    assert!(response.starts_with("HTTP/1.1 200 OK"));
    assert!(response.contains("\"user_coord\":{\"x\":0,\"y\":-1}"));
}
