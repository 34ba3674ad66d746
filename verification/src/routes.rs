//! The router: maps a structured request to a handler, enforcing which
//! routes need no authentication, validating bearer tokens for the rest,
//! and checking that a principal only acts on its own resources.

use vstd::prelude::*;
use crate::database::Database;
use crate::http::{self, HttpError, HttpErrorCode, HttpMethod, Request, Response};

verus! {

/// A response reduced to its observable parts: status, headers and body
/// on success, the error kind and message otherwise.
pub type RouteAbs = Result<
    (Seq<char>, Seq<(Seq<char>, Seq<char>)>, Seq<char>),
    (HttpErrorCode, Seq<char>),
>;

/// The observable parts of a dispatch result.
pub open spec fn rsp_abs(r: Result<Response, HttpError>) -> RouteAbs {
    match r {
        Ok(rsp) => Ok((rsp.status@, http::headers_view(rsp.headers@), rsp.body@)),
        Err(e) => Err((e.code, e.message@)),
    }
}

/// The wire text of an observable result: the response's own wire form,
/// or an error status with a JSON error body.
pub open spec fn wire_abs(a: RouteAbs) -> Seq<char> {
    match a {
        Ok((st, hs, b)) => http::wire_response(st, hs, b),
        Err((c, m)) => http::wire_response(http::status_str(c), Seq::empty(), http::err_body(m)),
    }
}

/// The login route: `POST /sessions` with no id.
pub open spec fn is_login_route(rm: http::RequestModel) -> bool {
    rm.resource == "/sessions"@ && rm.id is None && rm.method == HttpMethod::POST
}

/// The registration route: `POST /users` with no id.
pub open spec fn is_register_route(rm: http::RequestModel) -> bool {
    rm.resource == "/users"@ && rm.id is None && rm.method == HttpMethod::POST
}

/// A well-shaped bearer header value: the `Bearer ` prefix, then the
/// token.
pub open spec fn bearer_shape(v: Seq<char>) -> bool {
    v.len() >= 7 && v.subrange(0, 7) == "Bearer "@
}

/// What a pre-flight capability request is answered with: the allowed
/// methods of the three known shapes, not-found for every other shape,
/// and never a store write (checked by the caller).
pub open spec fn options_outcome(rm: http::RequestModel, a: RouteAbs) -> bool {
    if rm.resource == "/sessions"@ && rm.id is None && rm.sub_resource is None {
        a matches Ok((st, hs, b)) && st == "200 OK"@ && b.len() == 0 && hs
            == http::options_headers_spec(seq![HttpMethod::OPTIONS, HttpMethod::POST])
    } else if rm.resource == "/users"@ && rm.id is None && rm.sub_resource is None {
        a matches Ok((st, hs, b)) && st == "200 OK"@ && b.len() == 0 && hs
            == http::options_headers_spec(seq![HttpMethod::OPTIONS, HttpMethod::POST])
    } else if rm.resource == "/rrr-game"@ && rm.id is Some && rm.sub_resource == Some(
        "players"@,
    ) {
        a matches Ok((st, hs, b)) && st == "200 OK"@ && b.len() == 0 && hs
            == http::options_headers_spec(
            seq![HttpMethod::OPTIONS, HttpMethod::POST, HttpMethod::DELETE],
        )
    } else {
        a matches Err((c, _)) && c == HttpErrorCode::Error404NotFround
    }
}

/// What a login request is answered with: the login transition's outcome
/// for some reading of the clock on success, for every reading on
/// failure; the store is never written.
pub open spec fn login_outcome(dbo: Map<Seq<char>, Seq<char>>, body: Seq<char>, a: RouteAbs) -> bool {
    match a {
        Ok((st, hs, b)) => st == "200 OK"@ && hs.len() == 0 && (
        exists|now: u64| crate::users::login_spec(dbo, body, now) == Ok::<
            Seq<char>,
            HttpErrorCode,
        >(b)),
        Err((c, _)) => forall|now: u64|
            crate::users::login_spec(dbo, body, now) == Err::<Seq<char>, HttpErrorCode>(c),
    }
}

/// What a registration request is answered with: the registration's own
/// contract, wrapped as a success response.
pub open spec fn register_outcome(
    dbo: Map<Seq<char>, Seq<char>>,
    dbn: Map<Seq<char>, Seq<char>>,
    body: Seq<char>,
    a: RouteAbs,
) -> bool {
    match a {
        Ok((st, hs, b)) => st == "200 OK"@ && hs.len() == 0
            && crate::users::create_user_post(dbo, dbn, body, Ok(b)),
        Err((c, m)) => crate::users::create_user_post(dbo, dbn, body, Err((c, m))),
    }
}

/// What an authenticated request is answered with, for the principal
/// `uname` the token named: session routes and unknown resources are not
/// found; another user's resource is forbidden; a user lookup, a window
/// read and a move follow their handlers' contracts; the recognized but
/// unbuilt routes are not implemented.  Every outcome other than a move
/// leaves the store unchanged.
pub open spec fn dispatch_outcome(
    dbo: Map<Seq<char>, Seq<char>>,
    dbn: Map<Seq<char>, Seq<char>>,
    rm: http::RequestModel,
    uname: Seq<char>,
    a: RouteAbs,
) -> bool {
    if rm.resource == "/sessions"@ {
        (a matches Err((c, _)) && c == HttpErrorCode::Error404NotFround) && dbn == dbo
    } else if rm.resource == "/users"@ {
        match rm.id {
            None => (a matches Err((c, _)) && c == HttpErrorCode::Error404NotFround) && dbn == dbo,
            Some(uid) => if uid != uname {
                (a matches Err((c, _)) && c == HttpErrorCode::Error403Forbidden) && dbn == dbo
            } else if rm.method == HttpMethod::GET {
                dbn == dbo && match a {
                    Ok((st, hs, b)) => st == "200 OK"@ && hs.len() == 0
                        && crate::users::get_user_spec(dbo, uname) == Ok::<
                        Seq<char>,
                        HttpErrorCode,
                    >(b),
                    Err((c, _)) => crate::users::get_user_spec(dbo, uname) == Err::<
                        Seq<char>,
                        HttpErrorCode,
                    >(c),
                }
            } else {
                (a matches Err((c, _)) && c == HttpErrorCode::Error501NotImplemented) && dbn == dbo
            },
        }
    } else if rm.resource == "/rrr-game"@ {
        match rm.id {
            None => match rm.method {
                HttpMethod::POST => match a {
                    Ok((st, hs, b)) => st == "200 OK"@ && hs.len() == 0
                        && crate::create::create_game_post(dbo, dbn, uname, Ok(b)),
                    Err((c, m)) => crate::create::create_game_post(dbo, dbn, uname, Err((c, m))),
                },
                HttpMethod::GET => (a matches Err((c, _)) && c
                    == HttpErrorCode::Error501NotImplemented) && dbn == dbo,
                _ => (a matches Err((c, _)) && c == HttpErrorCode::Error404NotFround) && dbn
                    == dbo,
            },
            Some(gid) => match rm.sub_resource {
                Some(sub) => if sub == "actions"@ {
                    if rm.method == HttpMethod::POST {
                        match a {
                            Ok((st, hs, b)) => st == "200 OK"@ && hs.len() == 0
                                && crate::action::do_action_spec(
                                dbo,
                                uname,
                                rm.body,
                                rm.parameters,
                                gid,
                            ).0 == Ok::<Seq<char>, HttpErrorCode>(b) && dbn
                                == crate::action::do_action_spec(
                                dbo,
                                uname,
                                rm.body,
                                rm.parameters,
                                gid,
                            ).1,
                            Err((c, _)) => crate::action::do_action_spec(
                                dbo,
                                uname,
                                rm.body,
                                rm.parameters,
                                gid,
                            ).0 == Err::<Seq<char>, HttpErrorCode>(c) && dbn
                                == crate::action::do_action_spec(
                                dbo,
                                uname,
                                rm.body,
                                rm.parameters,
                                gid,
                            ).1,
                        }
                    } else {
                        (a matches Err((c, _)) && c == HttpErrorCode::Error404NotFround) && dbn
                            == dbo
                    }
                } else if sub == "players"@ {
                    if rm.method == HttpMethod::POST || rm.method == HttpMethod::DELETE {
                        (a matches Err((c, _)) && c == HttpErrorCode::Error501NotImplemented)
                            && dbn == dbo
                    } else {
                        (a matches Err((c, _)) && c == HttpErrorCode::Error404NotFround) && dbn
                            == dbo
                    }
                } else {
                    (a matches Err((c, _)) && c == HttpErrorCode::Error404NotFround) && dbn == dbo
                },
                None => match rm.method {
                    HttpMethod::GET => dbn == dbo && match a {
                        Ok((st, hs, b)) => st == "200 OK"@ && hs.len() == 0
                            && crate::get::get_gamestate_spec(
                            dbo,
                            uname,
                            rm.parameters,
                            gid,
                        ) == Ok::<Seq<char>, HttpErrorCode>(b),
                        Err((c, _)) => crate::get::get_gamestate_spec(
                            dbo,
                            uname,
                            rm.parameters,
                            gid,
                        ) == Err::<Seq<char>, HttpErrorCode>(c),
                    },
                    HttpMethod::DELETE => (a matches Err((c, _)) && c
                        == HttpErrorCode::Error501NotImplemented) && dbn == dbo,
                    _ => (a matches Err((c, _)) && c == HttpErrorCode::Error404NotFround) && dbn
                        == dbo,
                },
            },
        }
    } else {
        (a matches Err((c, _)) && c == HttpErrorCode::Error404NotFround) && dbn == dbo
    }
}

/// Everything the router is answerable for on a parsed request: the
/// pre-flight table, the two unauthenticated routes, and for everything
/// else the bearer-token gate — forbidden without a well-shaped
/// `Authorization` header, unauthorized when the token fails validation,
/// and otherwise the authenticated dispatch for some principal.
pub open spec fn route_outcome(
    dbo: Map<Seq<char>, Seq<char>>,
    dbn: Map<Seq<char>, Seq<char>>,
    rm: http::RequestModel,
    a: RouteAbs,
) -> bool {
    if rm.method == HttpMethod::OPTIONS {
        dbn == dbo && options_outcome(rm, a)
    } else if is_login_route(rm) {
        dbn == dbo && login_outcome(dbo, rm.body, a)
    } else if is_register_route(rm) {
        register_outcome(dbo, dbn, rm.body, a)
    } else {
        match crate::text::pair_lookup(rm.headers, "Authorization"@) {
            None => (a matches Err((c, _)) && c == HttpErrorCode::Error403Forbidden) && dbn == dbo,
            Some(v) => if !bearer_shape(v) {
                (a matches Err((c, _)) && c == HttpErrorCode::Error403Forbidden) && dbn == dbo
            } else {
                ((a matches Err((c, _)) && c == HttpErrorCode::Error401Unauthorized) && dbn == dbo)
                    || (exists|uname: Seq<char>| #[trigger] dispatch_outcome(dbo, dbn, rm, uname, a))
            },
        }
    }
}

/// Routes a raw request: parse, dispatch, and render the response onto
/// the wire.  An unreadable request is answered with a bad-request
/// status.
pub fn process_request<D: Database>(request: String, db: &mut D) -> (r: String)
    ensures
        http::parse_request_spec(request@) is None ==> r@ == http::wire_response(
            http::status_str(HttpErrorCode::Error400BadRequest),
            Seq::empty(),
            http::err_body("Request is not a valid HTTP request"@),
        ) && final(db).db() == old(db).db(),
        http::parse_request_spec(request@) matches Some(rm) ==> (exists|a: RouteAbs|
            #[trigger] route_outcome(old(db).db(), final(db).db(), rm, a) && r@ == wire_abs(a)),
        exists|st: Seq<char>, hs: Seq<(Seq<char>, Seq<char>)>, b: Seq<char>|
            r@ == #[trigger] http::wire_response(st, hs, b),
{
    let ghost raw = request@;
    let request = Request::new(request);
    let response = match request {
        Some(valid_request) => process_valid_request(valid_request, db),
        None => Err(
            HttpError {
                code: HttpErrorCode::Error400BadRequest,
                message: crate::text::str_to_string("Request is not a valid HTTP request"),
            },
        ),
    };
    let out = http::build_response(response);
    proof {
        if http::parse_request_spec(raw) is Some {
            let a = rsp_abs(response);
            assert(out@ == wire_abs(a));
        }
        assert(exists|st: Seq<char>, hs: Seq<(Seq<char>, Seq<char>)>, b: Seq<char>|
            out@ == #[trigger] http::wire_response(st, hs, b)) by {
            match response {
                Ok(rsp) => {
                    assert(out@ == http::wire_response(
                        rsp.status@,
                        http::headers_view(rsp.headers@),
                        rsp.body@,
                    ));
                },
                Err(e) => {
                    assert(out@ == http::wire_response(
                        http::status_str(e.code),
                        Seq::empty(),
                        http::err_body(e.message@),
                    ));
                },
            }
        }
    }
    out
}

/// The route-not-found failure.
fn not_found() -> (r: HttpError)
    ensures
        r.code == HttpErrorCode::Error404NotFround,
{
    HttpError {
        code: HttpErrorCode::Error404NotFround,
        message: crate::text::str_to_string("Route not found"),
    }
}

/// The recognized-but-unbuilt failure.
fn not_implemented() -> (r: HttpError)
    ensures
        r.code == HttpErrorCode::Error501NotImplemented,
{
    HttpError {
        code: HttpErrorCode::Error501NotImplemented,
        message: crate::text::str_to_string("Method not implemented for route"),
    }
}

/// The must-log-in failure.
fn must_log_in() -> (r: HttpError)
    ensures
        r.code == HttpErrorCode::Error403Forbidden,
{
    HttpError {
        code: HttpErrorCode::Error403Forbidden,
        message: crate::text::str_to_string("You must be logged in."),
    }
}

/// Dispatches a parsed request: pre-flight capability answers and the
/// two unauthenticated routes are handled directly; everything else goes
/// through the bearer-token gate and then to `dispatch_authed`.
pub fn process_valid_request<D: Database>(valid_request: Request, db: &mut D) -> (r: Result<
    Response,
    HttpError,
>)
    ensures
        route_outcome(old(db).db(), final(db).db(), valid_request.model(), rsp_abs(r)),
{
    proof {
        reveal_strlit("");
        reveal_strlit("/sessions");
        reveal_strlit("/users");
        reveal_strlit("/rrr-game");
        reveal_strlit("players");
        assert("/sessions"@[1] == 's' && "/rrr-game"@[1] == 'r');
    }
    if match valid_request.method {
        HttpMethod::OPTIONS => true,
        _ => false,
    } {
        let allowed: Option<Vec<HttpMethod>> = if crate::text::str_eq(
            valid_request.resource.as_str(),
            "/sessions",
        ) && valid_request.id.is_none() && valid_request.sub_resource.is_none() {
            let mut ms: Vec<HttpMethod> = Vec::new();
            ms.push(HttpMethod::OPTIONS);
            ms.push(HttpMethod::POST);
            proof {
                assert(ms@ =~= seq![HttpMethod::OPTIONS, HttpMethod::POST]);
            }
            Some(ms)
        } else if crate::text::str_eq(valid_request.resource.as_str(), "/users")
            && valid_request.id.is_none() && valid_request.sub_resource.is_none() {
            let mut ms: Vec<HttpMethod> = Vec::new();
            ms.push(HttpMethod::OPTIONS);
            ms.push(HttpMethod::POST);
            proof {
                assert(ms@ =~= seq![HttpMethod::OPTIONS, HttpMethod::POST]);
            }
            Some(ms)
        } else if crate::text::str_eq(valid_request.resource.as_str(), "/rrr-game")
            && valid_request.id.is_some() && match &valid_request.sub_resource {
            Some(s) => crate::text::str_eq(s.as_str(), "players"),
            None => false,
        } {
            let mut ms: Vec<HttpMethod> = Vec::new();
            ms.push(HttpMethod::OPTIONS);
            ms.push(HttpMethod::POST);
            ms.push(HttpMethod::DELETE);
            proof {
                assert(ms@ =~= seq![HttpMethod::OPTIONS, HttpMethod::POST, HttpMethod::DELETE]);
            }
            Some(ms)
        } else {
            None
        };
        return match allowed {
            Some(methods) => Ok(
                Response {
                    body: crate::text::str_to_string(""),
                    headers: http::build_options_response_headers(methods),
                    status: crate::text::str_to_string("200 OK"),
                },
            ),
            None => Err(not_found()),
        };
    }
    if crate::text::str_eq(valid_request.resource.as_str(), "/sessions")
        && valid_request.id.is_none() {
        if match valid_request.method {
            HttpMethod::POST => true,
            _ => false,
        } {
            return Response::response_from_body(crate::users::login(valid_request.body, db));
        }
    } else if crate::text::str_eq(valid_request.resource.as_str(), "/users")
        && valid_request.id.is_none() {
        if match valid_request.method {
            HttpMethod::POST => true,
            _ => false,
        } {
            return Response::response_from_body(crate::users::create_user(valid_request.body, db));
        }
    }
    let header_value = match crate::text::pairs_find(&valid_request.headers, "Authorization") {
        Some(v) => v,
        None => {
            return Err(must_log_in());
        },
    };
    let bearer = crate::text::str_to_chars("Bearer ");
    let hv = crate::text::str_to_chars(header_value.as_str());
    if !crate::text::starts_with_at(&hv, 0, &bearer) {
        return Err(must_log_in());
    }
    proof {
        reveal_strlit("Bearer ");
    }
    let token_chars = crate::text::sub_chars(&hv, 7, hv.len());
    let token = crate::text::chars_to_string(&token_chars);
    let secret = crate::text::str_to_string("test");
    let username = match crate::jwt::validate_jwt(token.as_str(), &secret) {
        Ok(u) => u,
        Err(e) => {
            return Err(e);
        },
    };
    dispatch_authed(valid_request, username, db)
}

/// Dispatches an authenticated request for the principal `username`.
/// A request for another user's resource is forbidden; unmatched routes
/// are not found; recognized but unbuilt routes are not implemented.
#[verifier::rlimit(100)]
pub fn dispatch_authed<D: Database>(valid_request: Request, username: String, db: &mut D) -> (r:
    Result<Response, HttpError>)
    ensures
        dispatch_outcome(old(db).db(), final(db).db(), valid_request.model(), username@, rsp_abs(r)),
{
    proof {
        reveal_strlit("/sessions");
        reveal_strlit("/users");
        reveal_strlit("/rrr-game");
        reveal_strlit("actions");
        reveal_strlit("players");
    }
    if crate::text::str_eq(valid_request.resource.as_str(), "/sessions") {
        proof {
            assert("/sessions"@.len() == 9);
            assert("/users"@.len() == 6);
            assert(valid_request.resource@ == "/sessions"@);
            assert("/sessions"@[1] == 's' && "/rrr-game"@[1] == 'r');
            assert(valid_request.model().resource != "/users"@);
            assert(valid_request.model().resource != "/rrr-game"@);
        }
        return Err(not_found());
    }
    if crate::text::str_eq(valid_request.resource.as_str(), "/users") {
        proof {
            assert(valid_request.model().resource == "/users"@);
            assert(valid_request.model().resource != "/rrr-game"@);
            assert(valid_request.model().resource != "/sessions"@);
        }
        let user_id = match valid_request.id {
            Some(uid) => uid,
            None => {
                return Err(not_found());
            },
        };
        if !crate::text::str_eq(user_id.as_str(), username.as_str()) {
            return Err(
                HttpError {
                    code: HttpErrorCode::Error403Forbidden,
                    message: crate::text::str_to_string(
                        "You are not authorized to access this user.",
                    ),
                },
            );
        }
        return match valid_request.method {
            HttpMethod::GET => Response::response_from_body(crate::users::get_user(username, db)),
            _ => Err(not_implemented()),
        };
    }
    if crate::text::str_eq(valid_request.resource.as_str(), "/rrr-game") {
        let game_id = match valid_request.id {
            Some(gid) => gid,
            None => {
                return match valid_request.method {
                    HttpMethod::POST => Response::response_from_body(
                        crate::create::create_game(username, db),
                    ),
                    HttpMethod::GET => Err(not_implemented()),
                    _ => Err(not_found()),
                };
            },
        };
        match &valid_request.sub_resource {
            Some(sub) => {
                if crate::text::str_eq(sub.as_str(), "actions") {
                    match valid_request.method {
                        HttpMethod::POST => Response::response_from_body(
                            crate::action::do_action(
                                username,
                                valid_request.body,
                                valid_request.parameters,
                                game_id,
                                db,
                            ),
                        ),
                        _ => Err(not_found()),
                    }
                } else if crate::text::str_eq(sub.as_str(), "players") {
                    match valid_request.method {
                        HttpMethod::POST => Err(not_implemented()),
                        HttpMethod::DELETE => Err(not_implemented()),
                        _ => Err(not_found()),
                    }
                } else {
                    Err(not_found())
                }
            },
            None => {
                match valid_request.method {
                    HttpMethod::GET => Response::response_from_body(
                        crate::get::get_gamestate(
                            username,
                            valid_request.parameters,
                            game_id,
                            db,
                        ),
                    ),
                    HttpMethod::DELETE => Err(not_implemented()),
                    _ => Err(not_found()),
                }
            },
        }
    } else {
        Err(not_found())
    }
}

} // verus!
