use regex::Regex;
use rust_book_server_example::{process_request, Database, LocalDatabase};

struct TestUser {
    username: String,
    email: String,
    password: String,
}

fn test_users() -> (TestUser, TestUser) {
    let user1 = TestUser {
        username: "james".to_string(),
        email: "james@gmail.com".to_string(),
        password: "testpassword".to_string(),
    };
    let user2 = TestUser {
        username: "alex".to_string(),
        email: "alex@hotmail.com".to_string(),
        password: "passwordtest".to_string(),
    };
    (user1, user2)
}

fn build_request(method: &str, url: &str, body: &str, token: &str) -> String {
    let body_length = body.len();
    format!(
        "{method} {url} HTTP/1.1\r
User-Agent: Mozilla/4.0 (compatible; MSIE5.01; Windows NT)\r
Host: www.tutorialspoint.com\r
Content-Type: application/json\r
Authorization: Bearer {token}\r
Accept: */*\r
Connection: Keep-Alive\r
Content-Length: {body_length}\r
\r
{body}"
    )
}

struct ParsedResponse {
    status_code: u32,
    body: Option<String>,
    token: Option<String>,
}

fn parse_response(response: String) -> ParsedResponse {
    let re = Regex::new(
        r"(?s)HTTP/1.1 (?<status_code>[0-9]+) (?<status_text>[a-zA-Z ]+).*\r\n\r\n(?<body>.*)",
    )
    .unwrap();

    assert_eq!(re.captures_iter(&response).count(), 1);

    let captures = re.captures_iter(&response);
    let capture = captures.last().unwrap();

    let status_code = capture
        .name("status_code")
        .unwrap()
        .as_str()
        .parse::<u32>()
        .unwrap();

    let body = capture.name("body").map(|b| b.as_str().to_string());

    let token = if let Some(ref body_present) = body {
        let re = Regex::new(r#""access_token":"(?<token>.*)""#).unwrap();
        let captures = re.captures_iter(body_present);
        captures
            .last()
            .map(|value| value.name("token").unwrap().as_str().to_string())
    } else {
        None
    };

    ParsedResponse {
        status_code,
        body,
        token,
    }
}

fn get_game_id(body: &String) -> String {
    let re = Regex::new("game_id\":\"(?<game_id>[a-zA-Z0-9]{7})\"").unwrap();

    assert_eq!(re.captures_iter(body).count(), 1);

    let captures = re.captures_iter(body);
    let capture = captures.last().unwrap();

    capture.name("game_id").unwrap().as_str().to_string()
}

#[test]
fn test_create_rrr_game() {
    // Setup
    let mut db = LocalDatabase::new();
    let (user1, _user2) = test_users();
    let request = build_request(
        "POST",
        "/users",
        &format!(
            "{{\"username\":\"{}\", \"email\":\"{}\", \"password\":\"{}\"}}",
            user1.username, user1.email, user1.password
        ),
        "",
    );
    let response = process_request(request, &mut db);
    let response = parse_response(response);
    let token = response.token.unwrap();

    // Create game
    let request = build_request("POST", "/rrr-game", "", &token);
    let response = process_request(request, &mut db);
    let response = parse_response(response);

    // Verify created successfully
    assert_eq!(response.status_code, 200);
    assert!(response.body.is_some());
    assert_eq!(get_game_id(&response.body.clone().unwrap()).len(), 7);
    assert!(response.body.clone().unwrap().contains("\"terrain\":[["));
    assert!(response.body.clone().unwrap().contains("\"users\":{"));
    assert!(response.body.clone().unwrap().contains("\"G\",\"G\","));
}

#[test]
fn test_get_gamestate() {
    // Setup
    let mut db = LocalDatabase::new();
    let (user1, _user2) = test_users();
    let request = build_request(
        "POST",
        "/users",
        &format!(
            "{{\"username\":\"{}\", \"email\":\"{}\", \"password\":\"{}\"}}",
            user1.username, user1.email, user1.password
        ),
        "",
    );
    let response = process_request(request, &mut db);
    let response = parse_response(response);
    let token = response.token.unwrap();

    // Create game
    let request = build_request("POST", "/rrr-game", "", &token);
    let response = process_request(request, &mut db);
    let response = parse_response(response);
    assert_eq!(response.status_code, 200);
    assert!(response.body.is_some());
    let game_id = get_game_id(&response.body.clone().unwrap());

    // Get the gamestate
    let request = build_request("GET", &format!("/rrr-game/{}?x=0&y=0", game_id), "", &token);
    let response = process_request(request, &mut db);
    let response = parse_response(response);

    // Verify
    assert_eq!(response.status_code, 200);
    assert!(response.body.is_some());
    assert!(response.body.clone().unwrap().contains("\"terrain\":[["));
    assert!(response.body.clone().unwrap().contains("\"users\":{"));
    assert!(response.body.clone().unwrap().contains("\"G\",\"G\","));
    assert_eq!(response.status_code, 200);
}

#[test]
fn test_make_move() {
    // Setup
    let mut db = LocalDatabase::new();
    let (user1, _user2) = test_users();
    let request = build_request(
        "POST",
        "/users",
        &format!(
            "{{\"username\":\"{}\", \"email\":\"{}\", \"password\":\"{}\"}}",
            user1.username, user1.email, user1.password
        ),
        "",
    );
    let response = process_request(request, &mut db);
    let response = parse_response(response);
    let token = response.token.unwrap();

    // Manually insert a gamestate chunk into the DB
    let gamestate_chunk = "{
            \"coord\":
                {
                    \"x\":0,
                    \"y\":0
                },
            \"terrain\":
                [[\"G\",\"G\",\"G\",\"G\",\"G\",\"G\",\"G\",\"G\",\"G\"],
                [\"G\",\"G\",\"G\",\"G\",\"G\",\"G\",\"G\",\"G\",\"G\"],
                [\"G\",\"G\",\"G\",\"G\",\"G\",\"G\",\"G\",\"G\",\"G\"],
                [\"G\",\"G\",\"G\",\"G\",\"G\",\"G\",\"G\",\"G\",\"G\"],
                [\"G\",\"G\",\"G\",\"G\",\"G\",\"G\",\"G\",\"G\",\"G\"],
                [\"G\",\"G\",\"G\",\"G\",\"G\",\"G\",\"G\",\"G\",\"G\"],
                [\"G\",\"G\",\"G\",\"G\",\"G\",\"G\",\"G\",\"G\",\"G\"],
                [\"G\",\"G\",\"G\",\"G\",\"G\",\"G\",\"G\",\"G\",\"G\"],
                [\"G\",\"G\",\"G\",\"G\",\"G\",\"G\",\"G\",\"G\",\"G\"]],
            \"users\":
                {
                    \"james\":
                        {
                            \"x\":0,
                            \"y\":0
                        }
                }
            }";
    db.set(
        "rrr-game:1234567:0-0".to_string(),
        gamestate_chunk.to_string(),
    );

    // Make move East
    let request = build_request(
        "POST",
        "/rrr-game/1234567/actions?x=0&y=0",
        &format!("{{\"move\":\"East\"}}"),
        &token,
    );
    let response = process_request(request, &mut db);
    let response = parse_response(response);

    // Verify
    assert!(response.body.is_some());
    assert!(response.body.clone().unwrap().contains("\"x\":1,\"y\":0"));
    assert_eq!(response.status_code, 200);

    // Make move East
    let request = build_request(
        "POST",
        "/rrr-game/1234567/actions?x=0&y=0",
        &format!("{{\"move\":\"East\"}}"),
        &token,
    );
    let response = process_request(request, &mut db);
    let response = parse_response(response);

    // Verify
    assert!(response.body.is_some());
    assert!(response.body.clone().unwrap().contains("\"x\":2,\"y\":0"));
    assert_eq!(response.status_code, 200);

    // Make move South
    let request = build_request(
        "POST",
        "/rrr-game/1234567/actions?x=0&y=0",
        &format!("{{\"move\":\"South\"}}"),
        &token,
    );
    let response = process_request(request, &mut db);
    let response = parse_response(response);

    // Verify
    assert!(response.body.is_some());
    assert!(response.body.clone().unwrap().contains("\"x\":2,\"y\":1"));
    assert_eq!(response.status_code, 200);

    // Make move West
    let request = build_request(
        "POST",
        "/rrr-game/1234567/actions?x=0&y=0",
        &format!("{{\"move\":\"West\"}}"),
        &token,
    );
    let response = process_request(request, &mut db);
    let response = parse_response(response);

    // Verify
    assert!(response.body.is_some());
    assert!(response.body.clone().unwrap().contains("\"x\":1,\"y\":1"));
    assert_eq!(response.status_code, 200);

    // Make move North
    let request = build_request(
        "POST",
        "/rrr-game/1234567/actions?x=0&y=0",
        &format!("{{\"move\":\"North\"}}"),
        &token,
    );
    let response = process_request(request, &mut db);
    let response = parse_response(response);

    // Verify
    assert!(response.body.is_some());
    assert!(response.body.clone().unwrap().contains("\"x\":1,\"y\":0"));
    assert_eq!(response.status_code, 200);
}

#[test]
fn test_create_user() {
    // Setup
    let mut db = LocalDatabase::new();
    let (user1, user2) = test_users();

    // Create user
    let request = build_request(
        "POST",
        "/users",
        &format!(
            "{{\"username\":\"{}\", \"email\":\"{}\", \"password\":\"{}\"}}",
            user1.username, user1.email, user1.password
        ),
        "",
    );
    let response = process_request(request, &mut db);
    let response = parse_response(response);

    // Verify create user
    assert_eq!(response.status_code, 200);
    assert_ne!(db.get(&user1.username), None);

    // Invalid create user request - bad body
    let request = build_request(
        "POST",
        "/users",
        &format!(
            "{{\"username_blah_blah\":\"{}\", \"email\":\"{}\", \"password\":\"{}\"}}",
            user2.username, user2.email, user2.password
        ),
        "",
    );
    let response = process_request(request, &mut db);
    let response = parse_response(response);

    // Verify failed
    assert_eq!(response.status_code, 400);
    assert_eq!(db.get(&user2.username), None);
}

#[test]
fn test_login() {
    // Setup
    let mut db = LocalDatabase::new();
    let (user1, _) = test_users();
    let request = build_request(
        "POST",
        "/users",
        &format!(
            "{{\"username\":\"{}\", \"email\":\"{}\", \"password\":\"{}\"}}",
            user1.username, user1.email, user1.password
        ),
        "",
    );
    process_request(request, &mut db);

    // Valid login
    let request = build_request(
        "POST",
        "/sessions",
        &format!(
            "{{\"username\":\"{}\", \"password\":\"{}\"}}",
            user1.username, user1.password
        ),
        "",
    );
    let response = process_request(request, &mut db);
    let response = parse_response(response);

    // Verify succeeded
    assert_eq!(response.status_code, 200);

    // Login request using wrong password
    let request = build_request(
        "POST",
        "/sessions",
        &format!(
            "{{\"username\":\"{}\", \"password\":\"{}\"}}",
            user1.username,
            "wrong_password".to_string()
        ),
        "",
    );
    let response = process_request(request, &mut db);
    let response = parse_response(response);

    // Verify login failed
    assert_eq!(response.status_code, 401);

    // Invalid login request
    let request = build_request(
        "POST",
        "/sessions",
        &format!(
            "{{\"username\":\"{}\", \"password_abc\":\"{}\"}}",
            user1.username,
            "wrong_password".to_string()
        ),
        "",
    );
    let response = process_request(request, &mut db);
    let response = parse_response(response);

    // Verify failed
    assert_eq!(response.status_code, 400);
}

#[test]
fn test_token() {
    // Setup
    let mut db = LocalDatabase::new();
    let (user1, user2) = test_users();
    let request = build_request(
        "POST",
        "/users",
        &format!(
            "{{\"username\":\"{}\", \"email\":\"{}\", \"password\":\"{}\"}}",
            user1.username, user1.email, user1.password
        ),
        "",
    );
    process_request(request, &mut db);

    // Get token from valid login
    let request = build_request(
        "POST",
        "/sessions",
        &format!(
            "{{\"username\":\"{}\", \"password\":\"{}\"}}",
            user1.username, user1.password
        ),
        "",
    );
    let response = process_request(request, &mut db);
    let response = parse_response(response);
    let token = response.token.unwrap();

    // Verify token can be used
    let request = build_request("GET", &format!("/users/{}", user1.username), "", &token);
    let response = process_request(request, &mut db);
    let response = parse_response(response);
    assert_eq!(response.status_code, 200);

    // Get token from create user
    let request = build_request(
        "POST",
        "/users",
        &format!(
            "{{\"username\":\"{}\", \"email\":\"{}\", \"password\":\"{}\"}}",
            user2.username, user2.email, user2.password
        ),
        "",
    );
    let response = process_request(request, &mut db);
    let response = parse_response(response);
    let token = response.token.unwrap();

    // Verify token can be used
    let request = build_request("GET", &format!("/users/{}", user2.username), "", &token);
    let response = process_request(request, &mut db);
    let response = parse_response(response);
    assert_eq!(response.status_code, 200);

    // Try to use a bad token
    let request = build_request(
        "GET",
        &format!("/users/{}", user2.username),
        "",
        "blah blah bad token",
    );
    let response = process_request(request, &mut db);
    let response = parse_response(response);

    // Verify get 401
    assert_eq!(response.status_code, 401);

    // Try to access protected resource with blank token
    let request = build_request("GET", &format!("/users/{}", user2.username), "", "");
    let response = process_request(request, &mut db);
    let response = parse_response(response);

    // Verify get 401
    assert_eq!(response.status_code, 401);

    // Get valid token for user 1
    let request = build_request(
        "POST",
        "/sessions",
        &format!(
            "{{\"username\":\"{}\", \"password\":\"{}\"}}",
            user1.username, user1.password
        ),
        "",
    );
    let response = process_request(request, &mut db);
    let response = parse_response(response);
    let token = response.token.unwrap();

    // Try to use it for user 2
    let request = build_request("GET", &format!("/users/{}", user2.username), "", &token);
    let response = process_request(request, &mut db);
    let response = parse_response(response);

    // Verify get 403
    assert_eq!(response.status_code, 403);
}

#[test]
fn test_users_options() {
    // Given
    let mut db = LocalDatabase::new();
    let request = "OPTIONS /users HTTP/1.1\r
Host: localhost:7878\r
Connection: keep-alive\r
Accept: */*\r
Access-Control-Request-Method: POST\r
Access-Control-Request-Headers: content-type\r
Origin: null\r
User-Agent: Mozilla/5.0 (Windows NT 10.0; Win64; x64) AppleWebKit/537.36 (KHTML, like Gecko) Chrome/127.0.0.0 Safari/537.36\r
Sec-Fetch-Mode: cors\r
Sec-Fetch-Site: cross-site\r
Sec-Fetch-Dest: empty\r
Accept-Encoding: gzip, deflate, br, zstd\r
Accept-Language: en-GB,en-US;q=0.9,en;q=0.8\r
\r
"
    .to_string();

    // When
    let response = process_request(request, &mut db);

    // Then
    assert!(response.contains("Access-Control-Allow-Origin"));
    assert!(response.contains("Access-Control-Allow-Headers"));
    assert!(response.contains("Access-Control-Max-Age"));
    let response = parse_response(response);
    assert_eq!(response.status_code, 200);
}
