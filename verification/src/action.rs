//! Handling a move: parse the direction, re-read the player's
//! authoritative position from the store, validate the target tile, and
//! either commit the step or leave the world unchanged.
//!
//! Policy for moves that would leave the loaded chunk (which the store
//! layout does not support): the move is rejected silently, exactly like
//! stepping onto impassable terrain.  The player keeps the old position
//! and the request still succeeds.

use vstd::prelude::*;
use crate::codec::{enc_key, parse_sobj_spec};
use crate::coord::{coord_id, top_left_axis, GamestateCoord, UserCoord};
use crate::create::{
    enc_chunk, enc_xy, lookup_user, set_user_seq, wf_chunk, ChunkModel, TILE_GRASS,
};
use crate::database::Database;
use crate::get::{centre_of, chunk_or_empty, params_coord, params_view, stored_chunk, stored_wf};
use crate::http::{HttpError, HttpErrorCode};
use crate::rrr_game::{chunk_key, CHUNK_LENGTH};

verus! {

/// A movement direction.
#[derive(PartialEq, Eq, Structural, Clone, Copy, Debug)]
pub enum Move {
    North,
    East,
    South,
    West,
}

/// The direction named in an action request body `{"move":"..."}`.
pub open spec fn parse_move(body: Seq<char>) -> Option<Move> {
    match parse_sobj_spec(body) {
        Some(ps) => match crate::text::pair_lookup(ps, "move"@) {
            Some(v) => if v == "North"@ {
                Some(Move::North)
            } else if v == "East"@ {
                Some(Move::East)
            } else if v == "South"@ {
                Some(Move::South)
            } else if v == "West"@ {
                Some(Move::West)
            } else {
                None
            },
            None => None,
        },
        None => None,
    }
}

/// The target of a unit step from `u`: north is up (`y - 1`), south is
/// down (`y + 1`), east is right (`x + 1`), west is left (`x - 1`).
pub open spec fn move_target(u: UserCoord, m: Move) -> (int, int) {
    match m {
        Move::North => (u.x as int, u.y - 1),
        Move::East => (u.x + 1, u.y as int),
        Move::South => (u.x as int, u.y + 1),
        Move::West => (u.x - 1, u.y as int),
    }
}

/// World coordinate of the top-left cell of a chunk along one axis.
pub open spec fn chunk_left(c: int, len: int) -> int {
    top_left_axis(c, len) + len
}

/// Whether the step to `(tx, ty)` is allowed: the target lies inside the
/// loaded chunk, fits the coordinate type, and is grass.
pub open spec fn step_allowed(m: ChunkModel, centre: GamestateCoord, tx: int, ty: int) -> bool {
    let relx = tx - chunk_left(centre.x as int, CHUNK_LENGTH as int);
    let rely = ty - chunk_left(centre.y as int, CHUNK_LENGTH as int);
    &&& 0 <= relx < CHUNK_LENGTH
    &&& 0 <= rely < CHUNK_LENGTH
    &&& i32::MIN <= tx <= i32::MAX
    &&& i32::MIN <= ty <= i32::MAX
    &&& m.terrain[rely][relx] == TILE_GRASS
}

/// The JSON body answering an action request.
pub open spec fn action_rsp(ux: int, uy: int, tlx: int, tly: int) -> Seq<char> {
    seq!['{'] + enc_key("user_coord"@) + enc_xy(ux, uy) + seq![','] + enc_key(
        "top_left_visible_coord"@,
    ) + enc_xy(tlx, tly) + seq!['}']
}

/// What an action request does, as a function of the store and the
/// request: the response text and the store afterwards.
pub open spec fn do_action_spec(
    db: Map<Seq<char>, Seq<char>>,
    username: Seq<char>,
    body: Seq<char>,
    parameters: Option<Seq<(Seq<char>, Seq<char>)>>,
    gid: Seq<char>,
) -> (Result<Seq<char>, HttpErrorCode>, Map<Seq<char>, Seq<char>>) {
    match parse_move(body) {
        None => (Err(HttpErrorCode::Error400BadRequest), db),
        Some(mv) => match params_coord(parameters) {
            None => (Err(HttpErrorCode::Error400BadRequest), db),
            Some(u0) => {
                let centre = centre_of(u0);
                let tlx = top_left_axis(centre.x as int, CHUNK_LENGTH as int);
                let tly = top_left_axis(centre.y as int, CHUNK_LENGTH as int);
                if !stored_wf(db, gid, centre) {
                    (Err(HttpErrorCode::Error500InternalServerError), db)
                } else {
                    let m = chunk_or_empty(stored_chunk(db, gid, centre));
                    match lookup_user(m.users, username) {
                        None => (Err(HttpErrorCode::Error500InternalServerError), db),
                        Some(u) => {
                            let (tx, ty) = move_target(u, mv);
                            if step_allowed(m, centre, tx, ty) {
                                let nu = UserCoord { x: tx as i32, y: ty as i32 };
                                let m2 = ChunkModel {
                                    users: set_user_seq(m.users, username, nu),
                                    ..m
                                };
                                (
                                    Ok(action_rsp(tx, ty, tlx, tly)),
                                    db.insert(chunk_key(gid, coord_id(m.coord)), enc_chunk(m2)),
                                )
                            } else {
                                (Ok(action_rsp(u.x as int, u.y as int, tlx, tly)), db)
                            }
                        },
                    }
                }
            },
        },
    }
}

/// Appends the encoded `{"x":..,"y":..}` pair of two wide values.
fn push_xy64(out: &mut Vec<char>, x: i64, y: i64)
    ensures
        final(out)@ == old(out)@ + enc_xy(x as int, y as int),
{
    let kxv = crate::text::str_to_chars("x");
    let kyv = crate::text::str_to_chars("y");
    out.push('{');
    crate::codec::push_key(out, &kxv);
    crate::text::push_i64(out, x);
    out.push(',');
    crate::codec::push_key(out, &kyv);
    crate::text::push_i64(out, y);
    out.push('}');
    proof {
        assert(out@ =~= old(out)@ + enc_xy(x as int, y as int));
    }
}

/// Renders the action response body.
fn encode_action_rsp(ux: i64, uy: i64, tlx: i64, tly: i64) -> (s: String)
    ensures
        s@ == action_rsp(ux as int, uy as int, tlx as int, tly as int),
{
    let kuv = crate::text::str_to_chars("user_coord");
    let ktv = crate::text::str_to_chars("top_left_visible_coord");
    let mut out: Vec<char> = Vec::new();
    out.push('{');
    crate::codec::push_key(&mut out, &kuv);
    push_xy64(&mut out, ux, uy);
    out.push(',');
    crate::codec::push_key(&mut out, &ktv);
    push_xy64(&mut out, tlx, tly);
    out.push('}');
    proof {
        assert(out@ =~= action_rsp(ux as int, uy as int, tlx as int, tly as int));
    }
    crate::text::chars_to_string(&out)
}

/// Reads the direction from an action request body.
fn parse_move_exec(body: &str) -> (r: Option<Move>)
    ensures
        r == parse_move(body@),
{
    let fields = match crate::codec::parse_sobj(body) {
        Some(ps) => ps,
        None => {
            return None;
        },
    };
    let v = match crate::text::pairs_find(&fields, "move") {
        Some(v) => v,
        None => {
            return None;
        },
    };
    if crate::text::str_eq(v.as_str(), "North") {
        Some(Move::North)
    } else if crate::text::str_eq(v.as_str(), "East") {
        Some(Move::East)
    } else if crate::text::str_eq(v.as_str(), "South") {
        Some(Move::South)
    } else if crate::text::str_eq(v.as_str(), "West") {
        Some(Move::West)
    } else {
        None
    }
}

/// Handles one action request.  The caller-supplied coordinate only
/// selects the chunk to load; the player's authoritative position is
/// whatever the store records there, and it alone is moved.  An
/// impassable or out-of-chunk target leaves the store untouched and
/// returns the old position; both outcomes succeed.
#[verifier::loop_isolation(false)]
#[verifier::rlimit(100)]
pub fn do_action<D: Database>(
    username: String,
    body: String,
    parameters: Option<Vec<(String, String)>>,
    game_id: String,
    db: &mut D,
) -> (r: Result<String, HttpError>)
    ensures
        match r {
            Ok(s) => do_action_spec(
                old(db).db(),
                username@,
                body@,
                params_view(parameters),
                game_id@,
            ).0 == Ok::<Seq<char>, HttpErrorCode>(s@),
            Err(e) => do_action_spec(
                old(db).db(),
                username@,
                body@,
                params_view(parameters),
                game_id@,
            ).0 == Err::<Seq<char>, HttpErrorCode>(e.code),
        },
        final(db).db() == do_action_spec(
            old(db).db(),
            username@,
            body@,
            params_view(parameters),
            game_id@,
        ).1,
{
    let mv = match parse_move_exec(body.as_str()) {
        Some(m) => m,
        None => {
            return Err(
                HttpError {
                    code: HttpErrorCode::Error400BadRequest,
                    message: crate::text::str_to_string("Request body has invalid format."),
                },
            );
        },
    };
    let parameters = match parameters {
        Some(p) => p,
        None => {
            return Err(
                HttpError {
                    code: HttpErrorCode::Error400BadRequest,
                    message: crate::text::str_to_string(
                        "User coords not supplied in POST action request.",
                    ),
                },
            );
        },
    };
    let user_coord = match crate::coord::get_usercoord_from_params(parameters) {
        Ok(u) => u,
        Err(e) => {
            return Err(e);
        },
    };
    let centre = crate::coord::user_coord_to_gamestate_coord(&user_coord, CHUNK_LENGTH);
    proof {
        assert(centre == centre_of(user_coord));
    }
    let id = centre.id();
    let key = crate::rrr_game::make_chunk_key(game_id.as_str(), id.as_str());
    let stored = match db.get(key.as_str()) {
        Some(s) => s,
        None => {
            return Err(chunk_error());
        },
    };
    let mut chunk = match crate::create::parse_chunk(stored.as_str()) {
        Some(ch) => ch,
        None => {
            return Err(chunk_error());
        },
    };
    if !crate::get::chunk_is_square(&chunk) {
        return Err(chunk_error());
    }
    let authoritative = match crate::create::users_find(&chunk.users, username.as_str()) {
        Some(u) => u,
        None => {
            return Err(
                HttpError {
                    code: HttpErrorCode::Error500InternalServerError,
                    message: crate::text::str_to_string("Can't find user in the gamestate chunk"),
                },
            );
        },
    };
    let tlx: i64 = ((centre.x as i64) - 1) * (CHUNK_LENGTH as i64) - 4;
    let tly: i64 = ((centre.y as i64) - 1) * (CHUNK_LENGTH as i64) - 4;
    proof {
        vstd::arithmetic::div_mod::lemma_div_multiples_vanish(4, 2);
        assert(crate::coord::half_len(CHUNK_LENGTH as int) == 4);
        assert(tlx as int == top_left_axis(centre.x as int, CHUNK_LENGTH as int));
        assert(tly as int == top_left_axis(centre.y as int, CHUNK_LENGTH as int));
    }
    let (tx, ty): (i64, i64) = match mv {
        Move::North => (authoritative.x as i64, authoritative.y as i64 - 1),
        Move::East => (authoritative.x as i64 + 1, authoritative.y as i64),
        Move::South => (authoritative.x as i64, authoritative.y as i64 + 1),
        Move::West => (authoritative.x as i64 - 1, authoritative.y as i64),
    };
    let relx: i64 = tx - (tlx + CHUNK_LENGTH as i64);
    let rely: i64 = ty - (tly + CHUNK_LENGTH as i64);
    let ghost m = chunk.model();
    let in_chunk = relx >= 0 && relx < CHUNK_LENGTH as i64 && rely >= 0 && rely
        < CHUNK_LENGTH as i64 && tx >= -0x8000_0000i64 && tx <= 0x7fff_ffffi64 && ty
        >= -0x8000_0000i64 && ty <= 0x7fff_ffffi64;
    let passable = in_chunk && chunk.terrain[rely as usize][relx as usize] == TILE_GRASS;
    proof {
        assert(passable == step_allowed(m, centre, tx as int, ty as int));
    }
    if passable {
        let nu = UserCoord { x: tx as i32, y: ty as i32 };
        crate::create::users_set(&mut chunk.users, username.as_str(), nu);
        proof {
            assert(chunk.model() == (ChunkModel {
                users: set_user_seq(m.users, username@, nu),
                ..m
            }));
        }
        let wid = chunk.get_id();
        let wkey = crate::rrr_game::make_chunk_key(game_id.as_str(), wid.as_str());
        let encoded = crate::create::encode_chunk(&chunk);
        db.set(wkey, encoded);
        Ok(encode_action_rsp(tx, ty, tlx, tly))
    } else {
        Ok(encode_action_rsp(authoritative.x as i64, authoritative.y as i64, tlx, tly))
    }
}

/// A missing or malformed chunk record under the selected key.
fn chunk_error() -> (r: HttpError)
    ensures
        r.code == HttpErrorCode::Error500InternalServerError,
{
    HttpError {
        code: HttpErrorCode::Error500InternalServerError,
        message: crate::text::str_to_string("Gamestate chunk missing or malformed."),
    }
}

} // verus!
