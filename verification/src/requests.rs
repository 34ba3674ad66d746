//! The first-generation router: the same routes as `routes`, without
//! pre-flight handling, with its own error taxonomy, and with the raw
//! `Authorization` header value used as the token.

use vstd::prelude::*;
use crate::database::Database;
use crate::http;
use crate::http::{HttpMethod, Request};

verus! {

/// The error kinds of the first-generation router.
#[derive(PartialEq, Eq, Structural, Clone, Copy, Debug)]
pub enum HttpErrorCode {
    Error400BadRequest,
    Error401Unauthorized,
    Error403Forbidden,
    Error404NotFround,
    Error409Conflict,
    Error500InternalServerError,
    Error501NotImplemented,
    Error503ServiceUnavailable,
}

/// A failure of the first-generation router.
#[derive(Debug)]
pub struct HttpError {
    pub code: HttpErrorCode,
    pub message: String,
}

/// The corresponding error kind of the protocol adapter.
pub open spec fn to_http_code(code: HttpErrorCode) -> http::HttpErrorCode {
    match code {
        HttpErrorCode::Error400BadRequest => http::HttpErrorCode::Error400BadRequest,
        HttpErrorCode::Error401Unauthorized => http::HttpErrorCode::Error401Unauthorized,
        HttpErrorCode::Error403Forbidden => http::HttpErrorCode::Error403Forbidden,
        HttpErrorCode::Error404NotFround => http::HttpErrorCode::Error404NotFround,
        HttpErrorCode::Error409Conflict => http::HttpErrorCode::Error409Conflict,
        HttpErrorCode::Error500InternalServerError => http::HttpErrorCode::Error500InternalServerError,
        HttpErrorCode::Error501NotImplemented => http::HttpErrorCode::Error501NotImplemented,
        HttpErrorCode::Error503ServiceUnavailable => http::HttpErrorCode::Error503ServiceUnavailable,
    }
}

/// Converts an error of this router to the protocol adapter's form.
fn to_http_error(e: HttpError) -> (r: http::HttpError)
    ensures
        r.code == to_http_code(e.code),
        r.message == e.message,
{
    let code = match e.code {
        HttpErrorCode::Error400BadRequest => http::HttpErrorCode::Error400BadRequest,
        HttpErrorCode::Error401Unauthorized => http::HttpErrorCode::Error401Unauthorized,
        HttpErrorCode::Error403Forbidden => http::HttpErrorCode::Error403Forbidden,
        HttpErrorCode::Error404NotFround => http::HttpErrorCode::Error404NotFround,
        HttpErrorCode::Error409Conflict => http::HttpErrorCode::Error409Conflict,
        HttpErrorCode::Error500InternalServerError => http::HttpErrorCode::Error500InternalServerError,
        HttpErrorCode::Error501NotImplemented => http::HttpErrorCode::Error501NotImplemented,
        HttpErrorCode::Error503ServiceUnavailable => http::HttpErrorCode::Error503ServiceUnavailable,
    };
    http::HttpError { code, message: e.message }
}

/// Converts a protocol-adapter error to this router's form.
fn from_http_error(e: http::HttpError) -> (r: HttpError)
    ensures
        to_http_code(r.code) == e.code,
        r.message == e.message,
{
    let code = match e.code {
        http::HttpErrorCode::Error400BadRequest => HttpErrorCode::Error400BadRequest,
        http::HttpErrorCode::Error401Unauthorized => HttpErrorCode::Error401Unauthorized,
        http::HttpErrorCode::Error403Forbidden => HttpErrorCode::Error403Forbidden,
        http::HttpErrorCode::Error404NotFround => HttpErrorCode::Error404NotFround,
        http::HttpErrorCode::Error409Conflict => HttpErrorCode::Error409Conflict,
        http::HttpErrorCode::Error500InternalServerError => HttpErrorCode::Error500InternalServerError,
        http::HttpErrorCode::Error501NotImplemented => HttpErrorCode::Error501NotImplemented,
        http::HttpErrorCode::Error503ServiceUnavailable => HttpErrorCode::Error503ServiceUnavailable,
    };
    HttpError { code, message: e.message }
}

/// A result of this router reduced to its observable parts.
pub type LegacyAbs = Result<Seq<char>, (HttpErrorCode, Seq<char>)>;

/// The observable parts of a dispatch result.
pub open spec fn legacy_abs(r: Result<String, HttpError>) -> LegacyAbs {
    match r {
        Ok(s) => Ok(s@),
        Err(e) => Err((e.code, e.message@)),
    }
}

/// The wire text of an observable result: a success status with the
/// body, or an error status with a JSON error body; never extra headers.
pub open spec fn legacy_wire(a: LegacyAbs) -> Seq<char> {
    match a {
        Ok(b) => http::wire_response("200 OK"@, Seq::empty(), b),
        Err((c, m)) => http::wire_response(
            http::status_str(to_http_code(c)),
            Seq::empty(),
            http::err_body(m),
        ),
    }
}

/// What an authenticated request is answered with here, for the
/// principal `uname` the token named.  Only a user lookup, a window read
/// and a game creation are built; the other recognized routes are not
/// implemented, the rest are not found.
pub open spec fn legacy_dispatch_outcome(
    dbo: Map<Seq<char>, Seq<char>>,
    dbn: Map<Seq<char>, Seq<char>>,
    rm: http::RequestModel,
    uname: Seq<char>,
    a: LegacyAbs,
) -> bool {
    if rm.resource == "/sessions"@ {
        dbn == dbo && (a matches Err((c, _)) && c == (if rm.method == HttpMethod::DELETE {
            HttpErrorCode::Error501NotImplemented
        } else {
            HttpErrorCode::Error404NotFround
        }))
    } else if rm.resource == "/users"@ {
        match rm.id {
            None => dbn == dbo && (a matches Err((c, _)) && c
                == HttpErrorCode::Error404NotFround),
            Some(uid) => if uid != uname {
                dbn == dbo && (a matches Err((c, _)) && c == HttpErrorCode::Error403Forbidden)
            } else {
                dbn == dbo && match rm.method {
                    HttpMethod::GET => match a {
                        Ok(b) => crate::users::get_user_spec(dbo, uname) == Ok::<
                            Seq<char>,
                            http::HttpErrorCode,
                        >(b),
                        Err((c, _)) => crate::users::get_user_spec(dbo, uname) == Err::<
                            Seq<char>,
                            http::HttpErrorCode,
                        >(to_http_code(c)),
                    },
                    HttpMethod::POST => a matches Err((c, _)) && c
                        == HttpErrorCode::Error501NotImplemented,
                    HttpMethod::DELETE => a matches Err((c, _)) && c
                        == HttpErrorCode::Error501NotImplemented,
                    _ => a matches Err((c, _)) && c == HttpErrorCode::Error404NotFround,
                }
            },
        }
    } else if rm.resource == "/rrr-game"@ {
        match rm.id {
            None => match rm.method {
                HttpMethod::POST => match a {
                    Ok(b) => crate::create::create_game_post(dbo, dbn, uname, Ok(b)),
                    Err((c, m)) => crate::create::create_game_post(
                        dbo,
                        dbn,
                        uname,
                        Err((to_http_code(c), m)),
                    ),
                },
                HttpMethod::GET => dbn == dbo && (a matches Err((c, _)) && c
                    == HttpErrorCode::Error501NotImplemented),
                _ => dbn == dbo && (a matches Err((c, _)) && c
                    == HttpErrorCode::Error404NotFround),
            },
            Some(gid) => match rm.sub_resource {
                Some(sub) => dbn == dbo && (a matches Err((c, _)) && c == (if sub == "moves"@ {
                    if rm.method == HttpMethod::POST {
                        HttpErrorCode::Error501NotImplemented
                    } else {
                        HttpErrorCode::Error404NotFround
                    }
                } else if sub == "players"@ {
                    if rm.method == HttpMethod::POST || rm.method == HttpMethod::DELETE {
                        HttpErrorCode::Error501NotImplemented
                    } else {
                        HttpErrorCode::Error404NotFround
                    }
                } else {
                    HttpErrorCode::Error404NotFround
                })),
                None => match rm.method {
                    HttpMethod::GET => dbn == dbo && match a {
                        Ok(b) => crate::get::get_gamestate_spec(dbo, uname, rm.parameters, gid)
                            == Ok::<Seq<char>, http::HttpErrorCode>(b),
                        Err((c, _)) => crate::get::get_gamestate_spec(
                            dbo,
                            uname,
                            rm.parameters,
                            gid,
                        ) == Err::<Seq<char>, http::HttpErrorCode>(to_http_code(c)),
                    },
                    HttpMethod::DELETE => dbn == dbo && (a matches Err((c, _)) && c
                        == HttpErrorCode::Error501NotImplemented),
                    _ => dbn == dbo && (a matches Err((c, _)) && c
                        == HttpErrorCode::Error404NotFround),
                },
            },
        }
    } else {
        dbn == dbo && (a matches Err((c, _)) && c == HttpErrorCode::Error404NotFround)
    }
}

/// Everything this router is answerable for on a parsed request: login
/// and registration without authentication; for everything else the raw
/// `Authorization` header value is the token — forbidden without the
/// header, unauthorized when validation fails, and otherwise the
/// authenticated dispatch for some principal.
pub open spec fn legacy_route_outcome(
    dbo: Map<Seq<char>, Seq<char>>,
    dbn: Map<Seq<char>, Seq<char>>,
    rm: http::RequestModel,
    a: LegacyAbs,
) -> bool {
    if crate::routes::is_login_route(rm) {
        dbn == dbo && match a {
            Ok(b) => exists|now: u64|
                crate::users::login_spec(dbo, rm.body, now) == Ok::<
                    Seq<char>,
                    http::HttpErrorCode,
                >(b),
            Err((c, _)) => forall|now: u64|
                crate::users::login_spec(dbo, rm.body, now) == Err::<
                    Seq<char>,
                    http::HttpErrorCode,
                >(to_http_code(c)),
        }
    } else if crate::routes::is_register_route(rm) {
        match a {
            Ok(b) => crate::users::create_user_post(dbo, dbn, rm.body, Ok(b)),
            Err((c, m)) => crate::users::create_user_post(dbo, dbn, rm.body, Err(
                (to_http_code(c), m),
            )),
        }
    } else {
        match crate::text::pair_lookup(rm.headers, "Authorization"@) {
            None => dbn == dbo && (a matches Err((c, _)) && c == HttpErrorCode::Error403Forbidden),
            Some(v) => (dbn == dbo && (a matches Err((c, _)) && c
                == HttpErrorCode::Error401Unauthorized)) || (exists|uname: Seq<char>|
                #[trigger] legacy_dispatch_outcome(dbo, dbn, rm, uname, a)),
        }
    }
}

/// Routes a raw request and renders the response, first-generation
/// protocol: no extra headers are ever emitted, and a pre-flight method
/// is not part of the grammar this router accepts.
pub fn process_request<D: Database>(request: String, db: &mut D) -> (r: String)
    ensures
        (http::parse_request_spec(request@) is None || (
        http::parse_request_spec(request@).unwrap().method == HttpMethod::OPTIONS)) ==> r@
            == http::wire_response(
            http::status_str(http::HttpErrorCode::Error400BadRequest),
            Seq::empty(),
            http::err_body("Request is not a valid HTTP request"@),
        ) && final(db).db() == old(db).db(),
        http::parse_request_spec(request@) matches Some(rm) ==> (rm.method != HttpMethod::OPTIONS
            ==> (exists|a: LegacyAbs|
            #[trigger] legacy_route_outcome(old(db).db(), final(db).db(), rm, a) && r@
                == legacy_wire(a))),
        exists|st: Seq<char>, b: Seq<char>|
            r@ == #[trigger] http::wire_response(st, Seq::empty(), b),
{
    let ghost raw = request@;
    let parsed = Request::new(request);
    let parsed = match parsed {
        Some(req) => {
            if match req.method {
                HttpMethod::OPTIONS => true,
                _ => false,
            } {
                None
            } else {
                Some(req)
            }
        },
        None => None,
    };
    let ghost mut inner: Result<Seq<char>, (HttpErrorCode, Seq<char>)> = Err(
        (HttpErrorCode::Error400BadRequest, Seq::empty()),
    );
    let response: Result<String, http::HttpError> = match parsed {
        Some(valid_request) => {
            let handled = process_valid_request(valid_request, db);
            proof {
                inner = legacy_abs(handled);
            }
            match handled {
                Ok(body) => Ok(body),
                Err(e) => Err(to_http_error(e)),
            }
        },
        None => Err(
            http::HttpError {
                code: http::HttpErrorCode::Error400BadRequest,
                message: crate::text::str_to_string("Request is not a valid HTTP request"),
            },
        ),
    };
    let (status, body): (String, String) = match response {
        Ok(body) => (crate::text::str_to_string("200 OK"), body),
        Err(e) => (
            crate::text::str_to_string(http::status_str_exec(e.code)),
            http::error_body(e.message),
        ),
    };
    let mut out: Vec<char> = Vec::new();
    crate::text::push_str_chars(&mut out, "HTTP/1.1 ");
    crate::text::push_str_chars(&mut out, status.as_str());
    crate::text::push_str_chars(&mut out, "\r\n");
    crate::text::push_str_chars(&mut out, "Content-Length: ");
    crate::text::push_usize(&mut out, body.as_str().len());
    crate::text::push_str_chars(&mut out, "\r\n\r\n");
    crate::text::push_str_chars(&mut out, body.as_str());
    proof {
        assert(http::wire_headers(Seq::empty(), 0) =~= Seq::<char>::empty());
        assert(out@ =~= http::wire_response(status@, Seq::empty(), body@));
        if http::parse_request_spec(raw) matches Some(rm) && rm.method != HttpMethod::OPTIONS {
            let a = inner;
            assert(out@ == legacy_wire(a));
        }
    }
    crate::text::chars_to_string(&out)
}

/// The route-not-found failure.
fn not_found() -> (r: HttpError)
    ensures
        r.code == HttpErrorCode::Error404NotFround,
{
    HttpError {
        code: HttpErrorCode::Error404NotFround,
        message: crate::text::str_to_string("Route not found"),
    }
}

/// The recognized-but-unbuilt failure.
fn not_implemented() -> (r: HttpError)
    ensures
        r.code == HttpErrorCode::Error501NotImplemented,
{
    HttpError {
        code: HttpErrorCode::Error501NotImplemented,
        message: crate::text::str_to_string("Method not implemented for route"),
    }
}

/// Dispatches a parsed request, first-generation routes: login and
/// registration without authentication, then the raw `Authorization`
/// header as the token, ownership checks on user lookups, and the game
/// read routes.  A request for another user's resource is forbidden.
#[verifier::rlimit(100)]
pub fn process_valid_request<D: Database>(valid_request: Request, db: &mut D) -> (r: Result<
    String,
    HttpError,
>)
    ensures
        legacy_route_outcome(old(db).db(), final(db).db(), valid_request.model(), legacy_abs(r)),
{
    proof {
        reveal_strlit("/sessions");
        reveal_strlit("/users");
        reveal_strlit("/rrr-game");
        reveal_strlit("moves");
        reveal_strlit("players");
    }
    if crate::text::str_eq(valid_request.resource.as_str(), "/sessions")
        && valid_request.id.is_none() {
        if match valid_request.method {
            HttpMethod::POST => true,
            _ => false,
        } {
            return match crate::users::login(valid_request.body, db) {
                Ok(b) => Ok(b),
                Err(e) => Err(from_http_error(e)),
            };
        }
    } else if crate::text::str_eq(valid_request.resource.as_str(), "/users")
        && valid_request.id.is_none() {
        if match valid_request.method {
            HttpMethod::POST => true,
            _ => false,
        } {
            return match crate::users::create_user(valid_request.body, db) {
                Ok(b) => Ok(b),
                Err(e) => Err(from_http_error(e)),
            };
        }
    }
    let token = match crate::text::pairs_find(&valid_request.headers, "Authorization") {
        Some(v) => v,
        None => {
            return Err(
                HttpError {
                    code: HttpErrorCode::Error403Forbidden,
                    message: crate::text::str_to_string("You must be logged in."),
                },
            );
        },
    };
    let secret = crate::text::str_to_string("test");
    let username = match crate::jwt::validate_jwt(token.as_str(), &secret) {
        Ok(u) => u,
        Err(e) => {
            return Err(from_http_error(e));
        },
    };
    legacy_dispatch(valid_request, username, db)
}

/// Dispatches an authenticated request for the principal `username`,
/// first-generation routes.
#[verifier::rlimit(100)]
fn legacy_dispatch<D: Database>(valid_request: Request, username: String, db: &mut D) -> (r:
    Result<String, HttpError>)
    ensures
        legacy_dispatch_outcome(
            old(db).db(),
            final(db).db(),
            valid_request.model(),
            username@,
            legacy_abs(r),
        ),
{
    proof {
        reveal_strlit("/sessions");
        reveal_strlit("/users");
        reveal_strlit("/rrr-game");
        reveal_strlit("moves");
        reveal_strlit("players");
        assert("/sessions"@[1] == 's' && "/rrr-game"@[1] == 'r');
    }
    if crate::text::str_eq(valid_request.resource.as_str(), "/sessions") {
        return match valid_request.method {
            HttpMethod::DELETE => Err(not_implemented()),
            _ => Err(not_found()),
        };
    }
    if crate::text::str_eq(valid_request.resource.as_str(), "/users") {
        let user_id = match valid_request.id {
            Some(uid) => uid,
            None => {
                return Err(not_found());
            },
        };
        if !crate::text::str_eq(user_id.as_str(), username.as_str()) {
            return Err(
                HttpError {
                    code: HttpErrorCode::Error403Forbidden,
                    message: crate::text::str_to_string(
                        "You are not authorized to access this user.",
                    ),
                },
            );
        }
        return match valid_request.method {
            HttpMethod::GET => match crate::users::get_user(username, db) {
                Ok(b) => Ok(b),
                Err(e) => Err(from_http_error(e)),
            },
            HttpMethod::POST => Err(not_implemented()),
            HttpMethod::DELETE => Err(not_implemented()),
            _ => Err(not_found()),
        };
    }
    if crate::text::str_eq(valid_request.resource.as_str(), "/rrr-game") {
        let game_id = match valid_request.id {
            Some(gid) => gid,
            None => {
                return match valid_request.method {
                    HttpMethod::POST => match crate::create::create_game(username, db) {
                        Ok(b) => Ok(b),
                        Err(e) => Err(from_http_error(e)),
                    },
                    HttpMethod::GET => Err(not_implemented()),
                    _ => Err(not_found()),
                };
            },
        };
        match &valid_request.sub_resource {
            Some(sub) => {
                if crate::text::str_eq(sub.as_str(), "moves") {
                    match valid_request.method {
                        HttpMethod::POST => Err(not_implemented()),
                        _ => Err(not_found()),
                    }
                } else if crate::text::str_eq(sub.as_str(), "players") {
                    match valid_request.method {
                        HttpMethod::POST => Err(not_implemented()),
                        HttpMethod::DELETE => Err(not_implemented()),
                        _ => Err(not_found()),
                    }
                } else {
                    Err(not_found())
                }
            },
            None => {
                match valid_request.method {
                    HttpMethod::GET => match crate::get::get_gamestate(
                        username,
                        valid_request.parameters,
                        game_id,
                        db,
                    ) {
                        Ok(b) => Ok(b),
                        Err(e) => Err(from_http_error(e)),
                    },
                    HttpMethod::DELETE => Err(not_implemented()),
                    _ => Err(not_found()),
                }
            },
        }
    } else {
        Err(not_found())
    }
}

} // verus!
