//! Coordinate mathematics for the chunked world.
//!
//! A `UserCoord` is a player's fine-grained position; a `GamestateCoord`
//! identifies a chunk.  The world origin `(0, 0)` is the exact center of
//! chunk `(0, 0)`, which is why the chunk side length must be odd.

use vstd::prelude::*;
use vstd::arithmetic::div_mod::{
    lemma_basic_div, lemma_div_is_ordered, lemma_div_is_ordered_by_denominator,
    lemma_div_multiples_vanish, lemma_div_multiples_vanish_fancy, lemma_div_nonincreasing,
    lemma_fundamental_div_mod, lemma_mod_division_less_than_divisor,
};

verus! {

/// Identifies a chunk of the world grid.
#[derive(PartialEq, Eq, Structural, Hash, Clone, Copy, Debug)]
pub struct GamestateCoord {
    pub x: i32,
    pub y: i32,
}

/// A player's fine-grained position in the (conceptually infinite) world.
#[derive(PartialEq, Eq, Structural, Hash, Clone, Copy, Debug)]
pub struct UserCoord {
    pub x: i32,
    pub y: i32,
}

/// The string id of a chunk coordinate: `<x>-<y>` in decimal.
pub open spec fn coord_id(c: GamestateCoord) -> Seq<char> {
    crate::text::int_str(c.x as int) + seq!['-'] + crate::text::int_str(c.y as int)
}

impl GamestateCoord {
    /// Renders this chunk coordinate as its store id, `"x-y"`.
    pub fn id(&self) -> (s: String)
        ensures
            s@ == coord_id(*self),
    {
        let mut out: Vec<char> = Vec::new();
        crate::codec::push_i32(&mut out, self.x);
        out.push('-');
        crate::codec::push_i32(&mut out, self.y);
        proof {
            assert(out@ =~= coord_id(*self));
        }
        crate::text::chars_to_string(&out)
    }
}

/// Distance from a chunk's center to its edge: `(len - 1) / 2` for odd `len`.
pub open spec fn half_len(len: int) -> int {
    (len - 1) / 2
}

/// The chunk index that world position `v` falls in, along one axis:
/// the floor of `(v + half_len(len)) / len`.  (In spec arithmetic, `/` is
/// Euclidean division, which is floor division for a positive divisor.)
pub open spec fn chunk_axis(v: int, len: int) -> int {
    (v + half_len(len)) / len
}

/// World coordinate of the top-left cell of the 3x3 visible window
/// centered on chunk index `c`, along one axis.
pub open spec fn top_left_axis(c: int, len: int) -> int {
    (c - 1) * len - half_len(len)
}

/// For an odd positive side length, the doubled center-to-edge distance
/// is exactly `len - 1`.
proof fn lemma_half_len_odd(len: int)
    requires
        len >= 1,
        len % 2 == 1,
    ensures
        2 * half_len(len) == len - 1,
        0 <= half_len(len) < len,
{
    lemma_fundamental_div_mod(len, 2);
    assert(len - 1 == 2 * (len / 2));
    lemma_div_multiples_vanish(len / 2, 2);
    assert(half_len(len) == len / 2);
    lemma_div_nonincreasing(len - 1, 2);
}

/// The world origin lies in chunk 0: for every odd positive side length,
/// `chunk_axis(0, len) == 0`.
pub proof fn lemma_origin_chunk(len: int)
    requires
        len >= 1,
        len % 2 == 1,
    ensures
        chunk_axis(0, len) == 0,
{
    lemma_half_len_odd(len);
    lemma_basic_div(half_len(len), len);
}

/// On the non-positive side, the truncating-division trick
/// `(v - half) / len` (computed here as `-((half - v) / len)` on
/// non-negative operands) equals floor division `(v + half) / len`.
proof fn lemma_neg_axis_div(v: int, len: int)
    requires
        len >= 1,
        len % 2 == 1,
        v <= 0,
    ensures
        -((half_len(len) - v) / len) == chunk_axis(v, len),
{
    let off = half_len(len);
    lemma_half_len_odd(len);
    let d = off - v;
    let q = d / len;
    let r = d % len;
    lemma_fundamental_div_mod(d, len);
    lemma_mod_division_less_than_divisor(d, len);
    let b = len - 1 - r;
    assert(v + off == len * (-q) + b) by {
        assert(d == len * q + r);
        assert(v + off == 2 * off - d);
        assert(len * (-q) == -(len * q)) by (nonlinear_arith);
    }
    lemma_div_multiples_vanish_fancy(-q, b, len);
}

/// Derives the chunk a world position belongs to.  Division rounds toward
/// negative infinity (via the center-offset trick), not toward zero.
pub fn user_coord_to_gamestate_coord(user_coord: &UserCoord, chunk_length: usize) -> (r:
    GamestateCoord)
    requires
        chunk_length % 2 == 1,
        1 <= chunk_length <= 0x7fff_ffff,
    ensures
        r.x as int == chunk_axis(user_coord.x as int, chunk_length as int),
        r.y as int == chunk_axis(user_coord.y as int, chunk_length as int),
{
    let len: u32 = chunk_length as u32;
    let off: u32 = (len - 1) / 2;
    let chunk_x = axis_chunk(user_coord.x, len, off);
    let chunk_y = axis_chunk(user_coord.y, len, off);
    GamestateCoord { x: chunk_x, y: chunk_y }
}

/// One axis of the user-to-chunk conversion.
fn axis_chunk(v: i32, len: u32, off: u32) -> (r: i32)
    requires
        1 <= len <= 0x7fff_ffff,
        len % 2 == 1,
        off as int == half_len(len as int),
    ensures
        r as int == chunk_axis(v as int, len as int),
{
    proof {
        lemma_half_len_odd(len as int);
    }
    if v > 0 {
        let n: u32 = (v as u32) + off;
        let q: u32 = n / len;
        proof {
            if len == 1 {
                lemma_div_multiples_vanish(n as int, 1);
                assert(q == v);
            } else {
                lemma_div_is_ordered_by_denominator(n as int, 3, len as int);
                lemma_div_is_ordered(n as int, 0xbfff_fffe, 3);
                lemma_div_multiples_vanish_fancy(0x3fff_ffff, 1, 3);
                assert(q <= 0x3fff_ffff);
            }
        }
        q as i32
    } else {
        let neg: u32 = (-(v as i64)) as u32;
        let d: u32 = off + neg;
        let t: u32 = d / len;
        proof {
            lemma_neg_axis_div(v as int, len as int);
            if len == 1 {
                lemma_div_multiples_vanish(d as int, 1);
                assert(t == neg);
            } else {
                lemma_div_is_ordered_by_denominator(d as int, 3, len as int);
                lemma_div_is_ordered(d as int, 0xbfff_ffff, 3);
                lemma_div_multiples_vanish_fancy(0x3fff_ffff, 2, 3);
                assert(t <= 0x3fff_ffff);
            }
        }
        (-(t as i64)) as i32
    }
}

/// World coordinate of the top-left cell of the 3x3 chunk window centered
/// on `gamestate_coord`: `((c - 1) * len) - len / 2` per axis.
pub fn get_top_left_visible_coord(gamestate_coord: &GamestateCoord, chunk_length: usize) -> (r:
    UserCoord)
    requires
        chunk_length % 2 == 1,
        1 <= chunk_length <= 0x7fff_ffff,
        i32::MIN <= top_left_axis(gamestate_coord.x as int, chunk_length as int) <= i32::MAX,
        i32::MIN <= top_left_axis(gamestate_coord.y as int, chunk_length as int) <= i32::MAX,
    ensures
        r.x as int == top_left_axis(gamestate_coord.x as int, chunk_length as int),
        r.y as int == top_left_axis(gamestate_coord.y as int, chunk_length as int),
{
    let len: i64 = chunk_length as i64;
    let off: i64 = ((chunk_length as u32 - 1) / 2) as i64;
    proof {
        lemma_half_len_odd(chunk_length as int);
    }
    let top_left_x: i64 = ((gamestate_coord.x as i64) - 1) * len - off;
    let top_left_y: i64 = ((gamestate_coord.y as i64) - 1) * len - off;
    UserCoord { x: top_left_x as i32, y: top_left_y as i32 }
}

/// The integer value of the first query parameter named `key`, when it
/// parses as an `i32`.
pub open spec fn param_i32(ps: Seq<(Seq<char>, Seq<char>)>, key: Seq<char>) -> Option<i32> {
    match crate::text::pair_lookup(ps, key) {
        Some(v) => crate::text::parse_i32_spec(v),
        None => None,
    }
}

/// Reads the world position from the `x` and `y` query parameters.
/// A missing or unparsable parameter is a bad request.
pub fn get_usercoord_from_params(parameters: Vec<(String, String)>) -> (r: Result<
    UserCoord,
    crate::http::HttpError,
>)
    ensures
        match r {
            Ok(u) => param_i32(crate::text::pairs_view(parameters@), "x"@) == Some(u.x)
                && param_i32(crate::text::pairs_view(parameters@), "y"@) == Some(u.y),
            Err(e) => e.code == crate::http::HttpErrorCode::Error400BadRequest && (param_i32(
                crate::text::pairs_view(parameters@),
                "x"@,
            ) is None || param_i32(crate::text::pairs_view(parameters@), "y"@) is None),
        },
{
    let found_x = match crate::text::pairs_find(&parameters, "x") {
        Some(v) => crate::text::parse_i32(v.as_str()),
        None => None,
    };
    let found_x = match found_x {
        Some(x) => x,
        None => {
            return Err(
                crate::http::HttpError {
                    code: crate::http::HttpErrorCode::Error400BadRequest,
                    message: crate::text::str_to_string("X position missing or invalid."),
                },
            );
        },
    };
    let found_y = match crate::text::pairs_find(&parameters, "y") {
        Some(v) => crate::text::parse_i32(v.as_str()),
        None => None,
    };
    let found_y = match found_y {
        Some(y) => y,
        None => {
            return Err(
                crate::http::HttpError {
                    code: crate::http::HttpErrorCode::Error400BadRequest,
                    message: crate::text::str_to_string("Y position missing or invalid."),
                },
            );
        },
    };
    Ok(UserCoord { x: found_x, y: found_y })
}

} // verus!
