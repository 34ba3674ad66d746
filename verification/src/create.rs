//! Chunks of the game world and their stored form.
//!
//! A `GamestateChunk` is a square terrain grid plus the players currently
//! inside it.  Chunks are persisted in the key-value store as JSON-shaped
//! strings; the encoder and parser here are proved to invert each other.

use vstd::prelude::*;
use crate::codec::{
    enc_key, enc_list, enc_obj, enc_qchar, lemma_int_str_head, lemma_p_int, lemma_p_key,
    lemma_p_list, lemma_p_obj, lemma_p_qchar, lemma_ws_stay, p_char, p_i32w, p_key, p_list, p_obj,
    p_qchar, ws,
};
use crate::coord::{GamestateCoord, UserCoord};
use crate::database::Database;
use crate::rrr_game::CHUNK_LENGTH;
use crate::text::int_str;

verus! {

/// A passable grass tile.
pub const TILE_GRASS: char = 'G';

/// An impassable rock tile.
pub const TILE_ROCK: char = 'R';

/// An impassable water tile.
pub const TILE_WATER: char = 'W';

/// One stored chunk: its coordinate, its terrain grid, and the players
/// currently located inside it, each with a world position.
pub struct GamestateChunk {
    pub coord: GamestateCoord,
    pub terrain: Vec<Vec<char>>,
    pub users: Vec<(String, UserCoord)>,
}

/// The mathematical model of a chunk.
pub ghost struct ChunkModel {
    pub coord: GamestateCoord,
    pub terrain: Seq<Seq<char>>,
    pub users: Seq<(Seq<char>, UserCoord)>,
}

/// The model of an executable terrain grid.
pub open spec fn terrain_view(t: Seq<Vec<char>>) -> Seq<Seq<char>> {
    Seq::new(t.len(), |i: int| t[i]@)
}

/// The model of an executable player list.
pub open spec fn users_view(u: Seq<(String, UserCoord)>) -> Seq<(Seq<char>, UserCoord)> {
    Seq::new(u.len(), |i: int| (u[i].0@, u[i].1))
}

impl GamestateChunk {
    /// The model of this chunk.
    pub open spec fn model(&self) -> ChunkModel {
        ChunkModel {
            coord: self.coord,
            terrain: terrain_view(self.terrain@),
            users: users_view(self.users@),
        }
    }
}

/// Whether `c` is one of the three terrain tiles.
pub open spec fn is_tile(c: char) -> bool {
    c == TILE_GRASS || c == TILE_ROCK || c == TILE_WATER
}

/// A chunk whose terrain is a full square grid of side `CHUNK_LENGTH`.
pub open spec fn wf_chunk(m: ChunkModel) -> bool {
    &&& m.terrain.len() == CHUNK_LENGTH
    &&& forall|r: int| 0 <= r < m.terrain.len() ==> (#[trigger] m.terrain[r]).len() == CHUNK_LENGTH
}

/// Index of the first entry for `name` in a player list, or -1.
pub open spec fn user_index(us: Seq<(Seq<char>, UserCoord)>, name: Seq<char>) -> int
    decreases us.len(),
{
    if us.len() == 0 {
        -1
    } else if us[0].0 == name {
        0
    } else {
        let r = user_index(us.drop_first(), name);
        if r < 0 {
            -1
        } else {
            r + 1
        }
    }
}

/// Position recorded for `name` in a player list, if any.
pub open spec fn lookup_user(us: Seq<(Seq<char>, UserCoord)>, name: Seq<char>) -> Option<
    UserCoord,
> {
    if user_index(us, name) >= 0 {
        Some(us[user_index(us, name)].1)
    } else {
        None
    }
}

/// The player list after recording `name` at `u`: the first existing
/// entry is replaced, or a new entry is appended.
pub open spec fn set_user_seq(
    us: Seq<(Seq<char>, UserCoord)>,
    name: Seq<char>,
    u: UserCoord,
) -> Seq<(Seq<char>, UserCoord)> {
    if user_index(us, name) >= 0 {
        us.update(user_index(us, name), (name, u))
    } else {
        us.push((name, u))
    }
}

/// The first index bears out a found entry.
pub proof fn lemma_user_index_found(us: Seq<(Seq<char>, UserCoord)>, name: Seq<char>, i: int)
    requires
        0 <= i < us.len(),
        us[i].0 == name,
        forall|j: int| 0 <= j < i ==> (#[trigger] us[j]).0 != name,
    ensures
        user_index(us, name) == i,
    decreases us.len(),
{
    if i > 0 {
        assert(us[0].0 != name);
        assert(us.drop_first()[i - 1].0 == name);
        lemma_user_index_found(us.drop_first(), name, i - 1);
    }
}

/// With no matching entry, the index is -1.
pub proof fn lemma_user_index_none(us: Seq<(Seq<char>, UserCoord)>, name: Seq<char>)
    requires
        forall|j: int| 0 <= j < us.len() ==> (#[trigger] us[j]).0 != name,
    ensures
        user_index(us, name) == -1,
    decreases us.len(),
{
    if us.len() > 0 {
        lemma_user_index_none(us.drop_first(), name);
    }
}

/// The index found is in range and names the right entry.
pub proof fn lemma_user_index_range(us: Seq<(Seq<char>, UserCoord)>, name: Seq<char>)
    ensures
        -1 <= user_index(us, name) < us.len(),
        user_index(us, name) >= 0 ==> us[user_index(us, name)].0 == name,
    decreases us.len(),
{
    if us.len() > 0 && us[0].0 != name {
        lemma_user_index_range(us.drop_first(), name);
    }
}

/// Looks a player up in a list, by first matching name.
#[verifier::loop_isolation(false)]
pub fn users_find(us: &Vec<(String, UserCoord)>, name: &str) -> (r: Option<UserCoord>)
    ensures
        r == lookup_user(users_view(us@), name@),
{
    let ghost uv = users_view(us@);
    let mut i: usize = 0;
    while i < us.len()
        invariant
            0 <= i <= us.len(),
            forall|j: int| 0 <= j < i ==> (#[trigger] uv[j]).0 != name@,
        decreases us.len() - i,
    {
        if crate::text::str_eq(us[i].0.as_str(), name) {
            proof {
                lemma_user_index_found(uv, name@, i as int);
            }
            return Some(us[i].1);
        }
        i += 1;
    }
    proof {
        lemma_user_index_none(uv, name@);
    }
    None
}

/// Records `name` at position `u` in a player list.
#[verifier::loop_isolation(false)]
pub fn users_set(us: &mut Vec<(String, UserCoord)>, name: &str, u: UserCoord)
    ensures
        users_view(final(us)@) == set_user_seq(users_view(old(us)@), name@, u),
{
    let ghost uv = users_view(old(us)@);
    let mut i: usize = 0;
    while i < us.len()
        invariant
            0 <= i <= us.len(),
            us@ == old(us)@,
            forall|j: int| 0 <= j < i ==> (#[trigger] uv[j]).0 != name@,
        decreases us.len() - i,
    {
        if crate::text::str_eq(us[i].0.as_str(), name) {
            proof {
                lemma_user_index_found(uv, name@, i as int);
            }
            let owned = crate::text::str_to_string(name);
            us.set(i, (owned, u));
            proof {
                assert(users_view(us@) =~= uv.update(i as int, (name@, u)));
            }
            return ;
        }
        i += 1;
    }
    proof {
        lemma_user_index_none(uv, name@);
    }
    let owned = crate::text::str_to_string(name);
    us.push((owned, u));
    proof {
        assert(users_view(us@) =~= uv.push((name@, u)));
    }
}

// ------------------------------------------------------------------
// Stored form: field keys and encoders
// ------------------------------------------------------------------

/// Key of the coordinate field.
pub open spec fn kcoord() -> Seq<char> {
    "coord"@
}

/// Key of the terrain field.
pub open spec fn kterrain() -> Seq<char> {
    "terrain"@
}

/// Key of the player-map field.
pub open spec fn kusers() -> Seq<char> {
    "users"@
}

/// Key of an x coordinate.
pub open spec fn kx() -> Seq<char> {
    "x"@
}

/// Key of a y coordinate.
pub open spec fn ky() -> Seq<char> {
    "y"@
}

/// Canonical encoding of an `{"x":..,"y":..}` pair.
pub open spec fn enc_xy(x: int, y: int) -> Seq<char> {
    seq!['{'] + enc_key(kx()) + int_str(x) + seq![','] + enc_key(ky()) + int_str(y) + seq!['}']
}

/// Encoder of one terrain tile.
pub open spec fn tile_ev() -> spec_fn(char) -> Seq<char> {
    |c: char| enc_qchar(c)
}

/// Encoder of one terrain row.
pub open spec fn row_ev() -> spec_fn(Seq<char>) -> Seq<char> {
    |r: Seq<char>| enc_list(r, tile_ev(), '[', ']')
}

/// Encoder of one player position.
pub open spec fn ucoord_ev() -> spec_fn(UserCoord) -> Seq<char> {
    |u: UserCoord| enc_xy(u.x as int, u.y as int)
}

/// Canonical stored form of a chunk.
pub open spec fn enc_chunk(m: ChunkModel) -> Seq<char> {
    seq!['{'] + enc_key(kcoord()) + enc_xy(m.coord.x as int, m.coord.y as int) + seq![',']
        + enc_key(kterrain()) + enc_list(m.terrain, row_ev(), '[', ']') + seq![','] + enc_key(
        kusers(),
    ) + enc_obj(m.users, ucoord_ev()) + seq!['}']
}

/// Whether every tile of the model can stand unescaped between quotes.
pub open spec fn tiles_ok(m: ChunkModel) -> bool {
    forall|r: int, c: int|
        0 <= r < m.terrain.len() && 0 <= c < m.terrain[r].len() ==> (#[trigger] m.terrain[r][c])
            != '"' && m.terrain[r][c] != '\\'
}

// ------------------------------------------------------------------
// Stored form: parsers
// ------------------------------------------------------------------

/// Parser of one terrain tile.
pub open spec fn tile_pv() -> spec_fn(Seq<char>, int) -> Option<(char, int)> {
    |s: Seq<char>, i: int| p_qchar(s, i)
}

/// Parser of one terrain row.
pub open spec fn row_pv() -> spec_fn(Seq<char>, int) -> Option<(Seq<char>, int)> {
    |s: Seq<char>, i: int| p_list(s, i, tile_pv(), '[', ']')
}

/// Consumes an `{"x":..,"y":..}` pair.
pub open spec fn p_xy(s: Seq<char>, i: int) -> Option<((i32, i32), int)> {
    match p_char(s, i, '{') {
        None => None,
        Some(j0) => match p_key(s, j0, kx()) {
            None => None,
            Some(j1) => match p_i32w(s, j1) {
                None => None,
                Some((x, j2)) => match p_char(s, j2, ',') {
                    None => None,
                    Some(j3) => match p_key(s, j3, ky()) {
                        None => None,
                        Some(j4) => match p_i32w(s, j4) {
                            None => None,
                            Some((y, j5)) => match p_char(s, j5, '}') {
                                None => None,
                                Some(j6) => Some(((x, y), j6)),
                            },
                        },
                    },
                },
            },
        },
    }
}

/// Parser of one player position.
pub open spec fn ucoord_pv() -> spec_fn(Seq<char>, int) -> Option<(UserCoord, int)> {
    |s: Seq<char>, i: int|
        match p_xy(s, i) {
            Some(((x, y), j)) => Some((UserCoord { x, y }, j)),
            None => None,
        }
}

/// Consumes a whole chunk object.
pub open spec fn p_chunk(s: Seq<char>, i: int) -> Option<(ChunkModel, int)> {
    match p_char(s, i, '{') {
        None => None,
        Some(j0) => match p_key(s, j0, kcoord()) {
            None => None,
            Some(j1) => match p_xy(s, j1) {
                None => None,
                Some(((cx, cy), j2)) => match p_char(s, j2, ',') {
                    None => None,
                    Some(j3) => match p_key(s, j3, kterrain()) {
                        None => None,
                        Some(j4) => match p_list(s, j4, row_pv(), '[', ']') {
                            None => None,
                            Some((terrain, j5)) => match p_char(s, j5, ',') {
                                None => None,
                                Some(j6) => match p_key(s, j6, kusers()) {
                                    None => None,
                                    Some(j7) => match p_obj(s, j7, ucoord_pv()) {
                                        None => None,
                                        Some((users, j8)) => match p_char(s, j8, '}') {
                                            None => None,
                                            Some(j9) => Some(
                                                (
                                                    ChunkModel {
                                                        coord: GamestateCoord { x: cx, y: cy },
                                                        terrain,
                                                        users,
                                                    },
                                                    j9,
                                                ),
                                            ),
                                        },
                                    },
                                },
                            },
                        },
                    },
                },
            },
        },
    }
}

/// What a stored chunk string means: a whole-text parse of one chunk
/// object, with nothing but whitespace after it.
#[verifier::opaque]
pub open spec fn parse_chunk_spec(s: Seq<char>) -> Option<ChunkModel> {
    match p_chunk(s, 0) {
        Some((m, j)) => if 0 <= j <= s.len() && ws(s, j) == s.len() {
            Some(m)
        } else {
            None
        },
        None => None,
    }
}

// ------------------------------------------------------------------
// Round trip
// ------------------------------------------------------------------

/// The pair parser accepts exactly what the pair encoder wrote.
pub proof fn lemma_p_xy(s: Seq<char>, i: int, x: i32, y: i32)
    requires
        0 <= i,
        i + enc_xy(x as int, y as int).len() <= s.len(),
        s.subrange(i, i + enc_xy(x as int, y as int).len()) == enc_xy(x as int, y as int),
    ensures
        p_xy(s, i) == Some(((x, y), i + enc_xy(x as int, y as int).len())),
{
    let e = enc_xy(x as int, y as int);
    let ex = int_str(x as int);
    let ey = int_str(y as int);
    lemma_int_str_head(x as int);
    lemma_int_str_head(y as int);
    assert(s[i] == e[0]);
    lemma_ws_stay(s, i);
    let j0 = i + 1;
    let kxl = enc_key(kx()).len() as int;
    assert(s.subrange(j0, j0 + kxl) =~= enc_key(kx())) by {
        assert forall|t: int| 0 <= t < kxl implies s.subrange(j0, j0 + kxl)[t] == enc_key(kx())[t] by {
            assert(s[j0 + t] == e[1 + t]);
        }
    }
    lemma_p_key(s, j0, kx());
    let j1 = j0 + kxl;
    assert(s.subrange(j1, j1 + ex.len() as int) =~= ex) by {
        assert forall|t: int| 0 <= t < ex.len() implies s.subrange(j1, j1 + ex.len() as int)[t]
            == ex[t] by {
            assert(s[j1 + t] == e[1 + kxl + t]);
        }
    }
    assert(s[j1] == ex[0]);
    lemma_ws_stay(s, j1);
    let j2 = j1 + ex.len() as int;
    assert(s[j2] == e[j2 - i]);
    assert(s[j2] == ',');
    lemma_p_int(s, j1, x as int);
    lemma_ws_stay(s, j2);
    let j3 = j2 + 1;
    let kyl = enc_key(ky()).len() as int;
    assert(s.subrange(j3, j3 + kyl) =~= enc_key(ky())) by {
        assert forall|t: int| 0 <= t < kyl implies s.subrange(j3, j3 + kyl)[t] == enc_key(ky())[t] by {
            assert(s[j3 + t] == e[j3 - i + t]);
        }
    }
    lemma_p_key(s, j3, ky());
    let j4 = j3 + kyl;
    assert(s.subrange(j4, j4 + ey.len() as int) =~= ey) by {
        assert forall|t: int| 0 <= t < ey.len() implies s.subrange(j4, j4 + ey.len() as int)[t]
            == ey[t] by {
            assert(s[j4 + t] == e[j4 - i + t]);
        }
    }
    assert(s[j4] == ey[0]);
    lemma_ws_stay(s, j4);
    let j5 = j4 + ey.len() as int;
    assert(s[j5] == e[j5 - i]);
    assert(s[j5] == '}');
    lemma_p_int(s, j4, y as int);
    lemma_ws_stay(s, j5);
}

/// One encoded terrain row parses back, when followed by a comma or a
/// closing bracket.
pub proof fn lemma_p_row(s: Seq<char>, i2: int, row: Seq<char>)
    requires
        0 <= i2,
        i2 + row_ev()(row).len() < s.len(),
        s.subrange(i2, i2 + row_ev()(row).len() as int) == row_ev()(row),
        s[i2 + row_ev()(row).len()] == ',' || s[i2 + row_ev()(row).len()] == ']',
        forall|t: int| 0 <= t < row.len() ==> (#[trigger] row[t]) != '"' && row[t] != '\\',
    ensures
        row_pv()(s, i2) == Some((row, i2 + row_ev()(row).len())),
{
    assert forall|t: int, i3: int|
        #![trigger tile_pv()(s, i3), tile_ev()(row[t])]
        0 <= t < row.len() && 0 <= i3 && i3 + tile_ev()(row[t]).len() < s.len() && s.subrange(
            i3,
            i3 + tile_ev()(row[t]).len() as int,
        ) == tile_ev()(row[t]) && (s[i3 + tile_ev()(row[t]).len()] == ',' || s[i3 + tile_ev()(
            row[t],
        ).len()] == ']') implies tile_pv()(s, i3) == Some((row[t], i3 + tile_ev()(row[t]).len())) by {
        lemma_p_qchar(s, i3, row[t]);
    }
    assert forall|t: int| 0 <= t < row.len() implies (#[trigger] tile_ev()(row[t])).len() > 0 by {
        assert(tile_ev()(row[t]) == enc_qchar(row[t]));
    }
    lemma_p_list::<char>(s, i2, row, tile_ev(), tile_pv(), '[', ']');
}

/// The encoded terrain grid parses back, when followed by a comma or a
/// closing bracket.
pub proof fn lemma_p_terrain(s: Seq<char>, i: int, terrain: Seq<Seq<char>>)
    requires
        0 <= i,
        i + enc_list(terrain, row_ev(), '[', ']').len() < s.len(),
        s.subrange(i, i + enc_list(terrain, row_ev(), '[', ']').len() as int) == enc_list(
            terrain,
            row_ev(),
            '[',
            ']',
        ),
        forall|r: int, c: int|
            0 <= r < terrain.len() && 0 <= c < terrain[r].len() ==> (#[trigger] terrain[r][c])
                != '"' && terrain[r][c] != '\\',
    ensures
        p_list(s, i, row_pv(), '[', ']') == Some(
            (terrain, i + enc_list(terrain, row_ev(), '[', ']').len()),
        ),
{
    assert forall|k: int, i2: int|
        #![trigger row_pv()(s, i2), row_ev()(terrain[k])]
        0 <= k < terrain.len() && 0 <= i2 && i2 + row_ev()(terrain[k]).len() < s.len()
            && s.subrange(i2, i2 + row_ev()(terrain[k]).len() as int) == row_ev()(terrain[k]) && (
        s[i2 + row_ev()(terrain[k]).len()] == ',' || s[i2 + row_ev()(terrain[k]).len()]
            == ']') implies row_pv()(s, i2) == Some((terrain[k], i2 + row_ev()(terrain[k]).len())) by {
        lemma_p_row(s, i2, terrain[k]);
    }
    assert forall|k: int| 0 <= k < terrain.len() implies (#[trigger] row_ev()(terrain[k])).len()
        > 0 by {
        assert(row_ev()(terrain[k]) == enc_list(terrain[k], tile_ev(), '[', ']'));
    }
    if terrain.len() > 0 {
        assert(row_ev()(terrain[0])[0] == '[');
    }
    lemma_p_list::<Seq<char>>(s, i, terrain, row_ev(), row_pv(), '[', ']');
}

/// The encoded player map parses back, when followed by a comma or a
/// closing brace.
pub proof fn lemma_p_users(s: Seq<char>, i: int, users: Seq<(Seq<char>, UserCoord)>)
    requires
        0 <= i,
        i + enc_obj(users, ucoord_ev()).len() <= s.len(),
        s.subrange(i, i + enc_obj(users, ucoord_ev()).len() as int) == enc_obj(users, ucoord_ev()),
    ensures
        p_obj(s, i, ucoord_pv()) == Some((users, i + enc_obj(users, ucoord_ev()).len())),
{
    assert forall|k: int, i2: int|
        #![trigger ucoord_pv()(s, i2), ucoord_ev()(users[k].1)]
        0 <= k < users.len() && 0 <= i2 && i2 + ucoord_ev()(users[k].1).len() < s.len()
            && s.subrange(i2, i2 + ucoord_ev()(users[k].1).len() as int) == ucoord_ev()(
            users[k].1,
        ) && (s[i2 + ucoord_ev()(users[k].1).len()] == ',' || s[i2 + ucoord_ev()(
            users[k].1,
        ).len()] == '}') implies ucoord_pv()(s, i2) == Some(
        (users[k].1, i2 + ucoord_ev()(users[k].1).len()),
    ) by {
        let u = users[k].1;
        assert(ucoord_ev()(u) == enc_xy(u.x as int, u.y as int));
        lemma_p_xy(s, i2, u.x, u.y);
        assert(UserCoord { x: u.x, y: u.y } == u);
    }
    lemma_p_obj::<UserCoord>(s, i, users, ucoord_ev(), ucoord_pv());
}

/// The chunk parser accepts exactly what the chunk encoder wrote.
#[verifier::rlimit(60)]
pub proof fn lemma_parse_chunk_roundtrip(m: ChunkModel)
    requires
        tiles_ok(m),
    ensures
        parse_chunk_spec(enc_chunk(m)) == Some(m),
{
    reveal(crate::create::parse_chunk_spec);
    let s = enc_chunk(m);
    let e = s;
    let ecoord = enc_xy(m.coord.x as int, m.coord.y as int);
    let eterrain = enc_list(m.terrain, row_ev(), '[', ']');
    let eusers = enc_obj(m.users, ucoord_ev());
    assert(s[0] == '{');
    lemma_ws_stay(s, 0);
    let j0 = 1;
    let kcl = enc_key(kcoord()).len() as int;
    assert(s.subrange(j0, j0 + kcl) =~= enc_key(kcoord())) by {
        assert forall|t: int| 0 <= t < kcl implies s.subrange(j0, j0 + kcl)[t] == enc_key(
            kcoord(),
        )[t] by {
            assert(s[j0 + t] == e[1 + t]);
        }
    }
    lemma_p_key(s, j0, kcoord());
    let j1 = j0 + kcl;
    assert(s.subrange(j1, j1 + ecoord.len() as int) =~= ecoord) by {
        assert forall|t: int| 0 <= t < ecoord.len() implies s.subrange(
            j1,
            j1 + ecoord.len() as int,
        )[t] == ecoord[t] by {
            assert(s[j1 + t] == e[j1 + t]);
        }
    }
    lemma_p_xy(s, j1, m.coord.x, m.coord.y);
    let j2 = j1 + ecoord.len() as int;
    assert(s[j2] == ',');
    lemma_ws_stay(s, j2);
    let j3 = j2 + 1;
    let ktl = enc_key(kterrain()).len() as int;
    assert(s.subrange(j3, j3 + ktl) =~= enc_key(kterrain())) by {
        assert forall|t: int| 0 <= t < ktl implies s.subrange(j3, j3 + ktl)[t] == enc_key(
            kterrain(),
        )[t] by {
            assert(s[j3 + t] == e[j3 + t]);
        }
    }
    lemma_p_key(s, j3, kterrain());
    let j4 = j3 + ktl;
    assert(s.subrange(j4, j4 + eterrain.len() as int) =~= eterrain) by {
        assert forall|t: int| 0 <= t < eterrain.len() implies s.subrange(
            j4,
            j4 + eterrain.len() as int,
        )[t] == eterrain[t] by {
            assert(s[j4 + t] == e[j4 + t]);
        }
    }
    lemma_p_terrain(s, j4, m.terrain);
    let j5 = j4 + eterrain.len() as int;
    assert(s[j5] == ',');
    lemma_ws_stay(s, j5);
    let j6 = j5 + 1;
    let kul = enc_key(kusers()).len() as int;
    assert(s.subrange(j6, j6 + kul) =~= enc_key(kusers())) by {
        assert forall|t: int| 0 <= t < kul implies s.subrange(j6, j6 + kul)[t] == enc_key(
            kusers(),
        )[t] by {
            assert(s[j6 + t] == e[j6 + t]);
        }
    }
    lemma_p_key(s, j6, kusers());
    let j7 = j6 + kul;
    assert(s.subrange(j7, j7 + eusers.len() as int) =~= eusers) by {
        assert forall|t: int| 0 <= t < eusers.len() implies s.subrange(
            j7,
            j7 + eusers.len() as int,
        )[t] == eusers[t] by {
            assert(s[j7 + t] == e[j7 + t]);
        }
    }
    lemma_p_users(s, j7, m.users);
    let j8 = j7 + eusers.len() as int;
    assert(s[j8] == '}');
    lemma_ws_stay(s, j8);
    let j9 = j8 + 1;
    assert(j9 == s.len());
    lemma_ws_stay(s, j9);
    assert(p_chunk(s, 0) == Some(
        (ChunkModel { coord: GamestateCoord { x: m.coord.x, y: m.coord.y }, ..m }, j9),
    ));
    assert(GamestateCoord { x: m.coord.x, y: m.coord.y } == m.coord);
}

// ------------------------------------------------------------------
// Executable parser
// ------------------------------------------------------------------

/// Consumes an `{"x":..,"y":..}` pair.
fn p_xy_exec(v: &Vec<char>, i: usize) -> (r: Option<((i32, i32), usize)>)
    requires
        i <= v.len(),
    ensures
        match r {
            Some((xy, j)) => p_xy(v@, i as int) == Some((xy, j as int)) && i < j <= v.len(),
            None => p_xy(v@, i as int) is None,
        },
{
    let kxv = crate::text::str_to_chars("x");
    let kyv = crate::text::str_to_chars("y");
    let j0 = match crate::codec::p_char_exec(v, i, '{') {
        Some(j) => j,
        None => {
            return None;
        },
    };
    let j1 = match crate::codec::p_key_exec(v, j0, &kxv) {
        Some(j) => j,
        None => {
            return None;
        },
    };
    let (x, j2) = match crate::codec::p_i32w_exec(v, j1) {
        Some(p) => p,
        None => {
            return None;
        },
    };
    let j3 = match crate::codec::p_char_exec(v, j2, ',') {
        Some(j) => j,
        None => {
            return None;
        },
    };
    let j4 = match crate::codec::p_key_exec(v, j3, &kyv) {
        Some(j) => j,
        None => {
            return None;
        },
    };
    let (y, j5) = match crate::codec::p_i32w_exec(v, j4) {
        Some(p) => p,
        None => {
            return None;
        },
    };
    let j6 = match crate::codec::p_char_exec(v, j5, '}') {
        Some(j) => j,
        None => {
            return None;
        },
    };
    Some(((x, y), j6))
}

/// Consumes one or more comma-separated tiles up to a closing bracket.
fn p_row_items(v: &Vec<char>, i: usize) -> (r: Option<(Vec<char>, usize)>)
    requires
        i <= v.len(),
    ensures
        match r {
            Some((row, j)) => crate::codec::p_items(v@, i as int, tile_pv(), ']') == Some(
                (row@, j as int),
            ) && i < j <= v.len(),
            None => crate::codec::p_items(v@, i as int, tile_pv(), ']') is None,
        },
    decreases v.len() - i,
{
    let (c, j) = match crate::codec::p_qchar_exec(v, i) {
        Some(p) => p,
        None => {
            return None;
        },
    };
    let k = crate::codec::ws_exec(v, j);
    if k < v.len() && v[k] == ',' {
        match p_row_items(v, k + 1) {
            Some((mut rest, e)) => {
                rest.insert(0, c);
                proof {
                    assert(rest@ =~= seq![c] + rest@.drop_first());
                }
                Some((rest, e))
            },
            None => None,
        }
    } else if k < v.len() && v[k] == ']' {
        let mut one: Vec<char> = Vec::new();
        one.push(c);
        proof {
            assert(one@ =~= seq![c]);
        }
        Some((one, k + 1))
    } else {
        None
    }
}

/// Consumes a bracketed terrain row.
fn p_row_exec(v: &Vec<char>, i: usize) -> (r: Option<(Vec<char>, usize)>)
    requires
        i <= v.len(),
    ensures
        match r {
            Some((row, j)) => row_pv()(v@, i as int) == Some((row@, j as int)) && i < j <= v.len(),
            None => row_pv()(v@, i as int) is None,
        },
{
    let j = match crate::codec::p_char_exec(v, i, '[') {
        Some(j) => j,
        None => {
            return None;
        },
    };
    let k = crate::codec::ws_exec(v, j);
    if k < v.len() && v[k] == ']' {
        let row: Vec<char> = Vec::new();
        proof {
            assert(row@ =~= Seq::<char>::empty());
        }
        Some((row, k + 1))
    } else {
        p_row_items(v, j)
    }
}

/// Consumes one or more comma-separated rows up to a closing bracket.
fn p_terrain_items(v: &Vec<char>, i: usize) -> (r: Option<(Vec<Vec<char>>, usize)>)
    requires
        i <= v.len(),
    ensures
        match r {
            Some((rows, j)) => crate::codec::p_items(v@, i as int, row_pv(), ']') == Some(
                (terrain_view(rows@), j as int),
            ) && i < j <= v.len(),
            None => crate::codec::p_items(v@, i as int, row_pv(), ']') is None,
        },
    decreases v.len() - i,
{
    let (row, j) = match p_row_exec(v, i) {
        Some(p) => p,
        None => {
            return None;
        },
    };
    let k = crate::codec::ws_exec(v, j);
    if k < v.len() && v[k] == ',' {
        match p_terrain_items(v, k + 1) {
            Some((mut rest, e)) => {
                rest.insert(0, row);
                proof {
                    assert(terrain_view(rest@) =~= seq![rest@[0]@] + terrain_view(
                        rest@.drop_first(),
                    ));
                }
                Some((rest, e))
            },
            None => None,
        }
    } else if k < v.len() && v[k] == ']' {
        let mut one: Vec<Vec<char>> = Vec::new();
        one.push(row);
        proof {
            assert(terrain_view(one@) =~= seq![one@[0]@]);
        }
        Some((one, k + 1))
    } else {
        None
    }
}

/// Consumes the bracketed terrain grid.
fn p_terrain_exec(v: &Vec<char>, i: usize) -> (r: Option<(Vec<Vec<char>>, usize)>)
    requires
        i <= v.len(),
    ensures
        match r {
            Some((rows, j)) => p_list(v@, i as int, row_pv(), '[', ']') == Some(
                (terrain_view(rows@), j as int),
            ) && i < j <= v.len(),
            None => p_list(v@, i as int, row_pv(), '[', ']') is None,
        },
{
    let j = match crate::codec::p_char_exec(v, i, '[') {
        Some(j) => j,
        None => {
            return None;
        },
    };
    let k = crate::codec::ws_exec(v, j);
    if k < v.len() && v[k] == ']' {
        let rows: Vec<Vec<char>> = Vec::new();
        proof {
            assert(terrain_view(rows@) =~= Seq::<Seq<char>>::empty());
        }
        Some((rows, k + 1))
    } else {
        p_terrain_items(v, j)
    }
}

/// Consumes one or more comma-separated `"name":position` pairs up to a
/// closing brace.
fn p_users_items(v: &Vec<char>, i: usize) -> (r: Option<(Vec<(String, UserCoord)>, usize)>)
    requires
        i <= v.len(),
    ensures
        match r {
            Some((us, j)) => crate::codec::p_pairs(v@, i as int, ucoord_pv()) == Some(
                (users_view(us@), j as int),
            ) && i < j <= v.len(),
            None => crate::codec::p_pairs(v@, i as int, ucoord_pv()) is None,
        },
    decreases v.len() - i,
{
    let (key, j1) = match crate::codec::p_quoted_exec(v, i) {
        Some(p) => p,
        None => {
            return None;
        },
    };
    let j2 = match crate::codec::p_char_exec(v, j1, ':') {
        Some(j) => j,
        None => {
            return None;
        },
    };
    let (xy, j3) = match p_xy_exec(v, j2) {
        Some(p) => p,
        None => {
            return None;
        },
    };
    let u = UserCoord { x: xy.0, y: xy.1 };
    let name = crate::text::chars_to_string(&key);
    let k = crate::codec::ws_exec(v, j3);
    if k < v.len() && v[k] == ',' {
        match p_users_items(v, k + 1) {
            Some((mut rest, e)) => {
                rest.insert(0, (name, u));
                proof {
                    assert(users_view(rest@) =~= seq![(rest@[0].0@, rest@[0].1)] + users_view(
                        rest@.drop_first(),
                    ));
                }
                Some((rest, e))
            },
            None => None,
        }
    } else if k < v.len() && v[k] == '}' {
        let mut one: Vec<(String, UserCoord)> = Vec::new();
        one.push((name, u));
        proof {
            assert(users_view(one@) =~= seq![(one@[0].0@, one@[0].1)]);
        }
        Some((one, k + 1))
    } else {
        None
    }
}

/// Consumes the braced player map.
fn p_users_exec(v: &Vec<char>, i: usize) -> (r: Option<(Vec<(String, UserCoord)>, usize)>)
    requires
        i <= v.len(),
    ensures
        match r {
            Some((us, j)) => p_obj(v@, i as int, ucoord_pv()) == Some(
                (users_view(us@), j as int),
            ) && i < j <= v.len(),
            None => p_obj(v@, i as int, ucoord_pv()) is None,
        },
{
    let j = match crate::codec::p_char_exec(v, i, '{') {
        Some(j) => j,
        None => {
            return None;
        },
    };
    let k = crate::codec::ws_exec(v, j);
    if k < v.len() && v[k] == '}' {
        let us: Vec<(String, UserCoord)> = Vec::new();
        proof {
            assert(users_view(us@) =~= Seq::<(Seq<char>, UserCoord)>::empty());
        }
        Some((us, k + 1))
    } else {
        p_users_items(v, j)
    }
}

/// Reads a stored chunk string back into a chunk.  Returns `None` exactly
/// when the text is not a well-formed chunk record.
pub fn parse_chunk(s: &str) -> (r: Option<GamestateChunk>)
    ensures
        match r {
            Some(ch) => parse_chunk_spec(s@) == Some(ch.model()),
            None => parse_chunk_spec(s@) is None,
        },
{
    proof {
        reveal(crate::create::parse_chunk_spec);
    }
    let v = crate::text::str_to_chars(s);
    let kcoordv = crate::text::str_to_chars("coord");
    let kterrainv = crate::text::str_to_chars("terrain");
    let kusersv = crate::text::str_to_chars("users");
    let j0 = match crate::codec::p_char_exec(&v, 0, '{') {
        Some(j) => j,
        None => {
            return None;
        },
    };
    let j1 = match crate::codec::p_key_exec(&v, j0, &kcoordv) {
        Some(j) => j,
        None => {
            return None;
        },
    };
    let (cxy, j2) = match p_xy_exec(&v, j1) {
        Some(p) => p,
        None => {
            return None;
        },
    };
    let j3 = match crate::codec::p_char_exec(&v, j2, ',') {
        Some(j) => j,
        None => {
            return None;
        },
    };
    let j4 = match crate::codec::p_key_exec(&v, j3, &kterrainv) {
        Some(j) => j,
        None => {
            return None;
        },
    };
    let (terrain, j5) = match p_terrain_exec(&v, j4) {
        Some(p) => p,
        None => {
            return None;
        },
    };
    let j6 = match crate::codec::p_char_exec(&v, j5, ',') {
        Some(j) => j,
        None => {
            return None;
        },
    };
    let j7 = match crate::codec::p_key_exec(&v, j6, &kusersv) {
        Some(j) => j,
        None => {
            return None;
        },
    };
    let (users, j8) = match p_users_exec(&v, j7) {
        Some(p) => p,
        None => {
            return None;
        },
    };
    let j9 = match crate::codec::p_char_exec(&v, j8, '}') {
        Some(j) => j,
        None => {
            return None;
        },
    };
    let j10 = crate::codec::ws_exec(&v, j9);
    if j10 != v.len() {
        return None;
    }
    let ch = GamestateChunk { coord: GamestateCoord { x: cxy.0, y: cxy.1 }, terrain, users };
    proof {
        assert(ch.model() =~~= p_chunk(s@, 0).unwrap().0);
    }
    Some(ch)
}

// ------------------------------------------------------------------
// Executable encoder
// ------------------------------------------------------------------

/// Appends the encoded `{"x":..,"y":..}` pair to `out`.
fn push_xy(out: &mut Vec<char>, x: i32, y: i32)
    ensures
        final(out)@ == old(out)@ + enc_xy(x as int, y as int),
{
    let kxv = crate::text::str_to_chars("x");
    let kyv = crate::text::str_to_chars("y");
    out.push('{');
    crate::codec::push_key(out, &kxv);
    crate::codec::push_i32(out, x);
    out.push(',');
    crate::codec::push_key(out, &kyv);
    crate::codec::push_i32(out, y);
    out.push('}');
    proof {
        assert(out@ =~= old(out)@ + enc_xy(x as int, y as int));
    }
}

/// Appends the encoded tiles of `row` from index `k` on.
fn push_row_items(out: &mut Vec<char>, row: &Vec<char>, k: usize)
    requires
        k < row.len(),
    ensures
        final(out)@ == old(out)@ + crate::codec::enc_items_from(row@, k as int, tile_ev()),
    decreases row.len() - k,
{
    out.push('"');
    out.push(row[k]);
    out.push('"');
    if k + 1 < row.len() {
        out.push(',');
        push_row_items(out, row, k + 1);
    }
    proof {
        assert(tile_ev()(row@[k as int]) == enc_qchar(row@[k as int]));
        assert(out@ =~= old(out)@ + crate::codec::enc_items_from(row@, k as int, tile_ev()));
    }
}

/// Appends one encoded terrain row to `out`.
fn push_row(out: &mut Vec<char>, row: &Vec<char>)
    ensures
        final(out)@ == old(out)@ + row_ev()(row@),
{
    out.push('[');
    if row.len() > 0 {
        push_row_items(out, row, 0);
    }
    out.push(']');
    proof {
        assert(row_ev()(row@) == enc_list(row@, tile_ev(), '[', ']'));
        assert(out@ =~= old(out)@ + row_ev()(row@));
    }
}

/// Appends the encoded rows of `t` from index `k` on.
fn push_terrain_items(out: &mut Vec<char>, t: &Vec<Vec<char>>, k: usize)
    requires
        k < t.len(),
    ensures
        final(out)@ == old(out)@ + crate::codec::enc_items_from(
            terrain_view(t@),
            k as int,
            row_ev(),
        ),
    decreases t.len() - k,
{
    push_row(out, &t[k]);
    if k + 1 < t.len() {
        out.push(',');
        push_terrain_items(out, t, k + 1);
    }
    proof {
        assert(terrain_view(t@)[k as int] == t@[k as int]@);
        assert(out@ =~= old(out)@ + crate::codec::enc_items_from(
            terrain_view(t@),
            k as int,
            row_ev(),
        ));
    }
}

/// Appends the encoded terrain grid to `out`.
pub(crate) fn push_terrain(out: &mut Vec<char>, t: &Vec<Vec<char>>)
    ensures
        final(out)@ == old(out)@ + enc_list(terrain_view(t@), row_ev(), '[', ']'),
{
    out.push('[');
    if t.len() > 0 {
        push_terrain_items(out, t, 0);
    }
    out.push(']');
    proof {
        assert(out@ =~= old(out)@ + enc_list(terrain_view(t@), row_ev(), '[', ']'));
    }
}

/// Appends the encoded pairs of `us` from index `k` on.
fn push_users_items(out: &mut Vec<char>, us: &Vec<(String, UserCoord)>, k: usize)
    requires
        k < us.len(),
    ensures
        final(out)@ == old(out)@ + crate::codec::enc_pairs_from(
            users_view(us@),
            k as int,
            ucoord_ev(),
        ),
    decreases us.len() - k,
{
    let name = crate::text::str_to_chars(us[k].0.as_str());
    crate::codec::push_quoted(out, &name);
    out.push(':');
    let u = us[k].1;
    push_xy(out, u.x, u.y);
    if k + 1 < us.len() {
        out.push(',');
        push_users_items(out, us, k + 1);
    }
    proof {
        assert(users_view(us@)[k as int] == (us@[k as int].0@, us@[k as int].1));
        assert(ucoord_ev()(us@[k as int].1) == enc_xy(
            us@[k as int].1.x as int,
            us@[k as int].1.y as int,
        ));
        assert(out@ =~= old(out)@ + crate::codec::enc_pairs_from(
            users_view(us@),
            k as int,
            ucoord_ev(),
        ));
    }
}

/// Appends the encoded player map to `out`.
pub(crate) fn push_users(out: &mut Vec<char>, us: &Vec<(String, UserCoord)>)
    ensures
        final(out)@ == old(out)@ + enc_obj(users_view(us@), ucoord_ev()),
{
    out.push('{');
    if us.len() > 0 {
        push_users_items(out, us, 0);
    }
    out.push('}');
    proof {
        assert(out@ =~= old(out)@ + enc_obj(users_view(us@), ucoord_ev()));
    }
}

/// Renders a chunk into its canonical stored form.
pub fn encode_chunk(ch: &GamestateChunk) -> (s: String)
    ensures
        s@ == enc_chunk(ch.model()),
{
    let kcoordv = crate::text::str_to_chars("coord");
    let kterrainv = crate::text::str_to_chars("terrain");
    let kusersv = crate::text::str_to_chars("users");
    let mut out: Vec<char> = Vec::new();
    out.push('{');
    crate::codec::push_key(&mut out, &kcoordv);
    push_xy(&mut out, ch.coord.x, ch.coord.y);
    out.push(',');
    crate::codec::push_key(&mut out, &kterrainv);
    push_terrain(&mut out, &ch.terrain);
    out.push(',');
    crate::codec::push_key(&mut out, &kusersv);
    push_users(&mut out, &ch.users);
    out.push('}');
    proof {
        assert(out@ =~= enc_chunk(ch.model()));
    }
    crate::text::chars_to_string(&out)
}

// ------------------------------------------------------------------
// Chunk construction
// ------------------------------------------------------------------

/// Relies on `rand::thread_rng` and `Rng::gen_range`: a draw from
/// `[0, n)`.  Nothing is promised about the distribution.
#[verifier::external_body]
fn random_below(n: u32) -> (r: u32)
    requires
        n > 0,
    ensures
        r < n,
{
    rand::Rng::gen_range(&mut rand::thread_rng(), 0..n)
}

/// The tile a tenths draw yields: the lowest tenth is water, the highest
/// tenth is rock, the remaining eight tenths are grass.
pub open spec fn tile_for(d: int) -> char {
    if d == 0 {
        TILE_WATER
    } else if d == 9 {
        TILE_ROCK
    } else {
        TILE_GRASS
    }
}

/// Whether `t` is the tile of some tenths draw.
pub open spec fn from_draw(t: char) -> bool {
    exists|d: int| 0 <= d < 10 && t == #[trigger] tile_for(d)
}

/// Maps a tenths draw to its terrain tile.
pub fn tile_of_draw(d: u32) -> (c: char)
    requires
        d < 10,
    ensures
        c == tile_for(d as int),
{
    if d == 0 {
        TILE_WATER
    } else if d == 9 {
        TILE_ROCK
    } else {
        TILE_GRASS
    }
}

/// One random terrain tile: one of ten draws gives water, one gives
/// rock, the other eight give grass.
fn random_tile() -> (c: char)
    ensures
        from_draw(c),
        is_tile(c),
{
    let d = random_below(10);
    tile_of_draw(d)
}

/// Relies on `rand::thread_rng`, `Rng::sample_iter` and the
/// `Alphanumeric` distribution: `len` characters drawn from the ASCII
/// letters and digits.  Nothing is promised about the distribution.
#[verifier::external_body]
fn random_alphanumeric(len: usize) -> (s: String)
    ensures
        s@.len() == len as int,
        forall|i: int| 0 <= i < s@.len() ==> crate::text::is_alnum(#[trigger] s@[i]),
{
    rand::Rng::sample_iter(rand::thread_rng(), &rand::distributions::Alphanumeric).take(len).map(
        char::from,
    ).collect()
}

/// A fresh random game id: seven alphanumeric characters.
pub fn generate_game_id() -> (s: String)
    ensures
        s@.len() == 7,
        forall|i: int| 0 <= i < s@.len() ==> crate::text::is_alnum(#[trigger] s@[i]),
{
    random_alphanumeric(7)
}

impl GamestateChunk {
    /// The store id of this chunk, `"x-y"`.
    pub fn get_id(&self) -> (s: String)
        ensures
            s@ == crate::coord::coord_id(self.coord),
    {
        self.coord.id()
    }

    /// Creates a chunk at `coord` with freshly drawn terrain, holding
    /// `username` at `user_coord` if one is given and no player
    /// otherwise.
    #[verifier::loop_isolation(false)]
    pub fn new(coord: GamestateCoord, username: &str, user_coord: Option<UserCoord>) -> (ch:
        GamestateChunk)
        ensures
            ch.coord == coord,
            wf_chunk(ch.model()),
            tiles_ok(ch.model()),
            forall|r: int, c: int|
                0 <= r < ch.model().terrain.len() && 0 <= c < ch.model().terrain[r].len()
                    ==> is_tile(#[trigger] ch.model().terrain[r][c]),
            forall|r: int, c: int|
                0 <= r < ch.model().terrain.len() && 0 <= c < ch.model().terrain[r].len()
                    ==> from_draw(#[trigger] ch.model().terrain[r][c]),
            match user_coord {
                Some(u) => ch.model().users == seq![(username@, u)],
                None => ch.model().users.len() == 0,
            },
    {
        let mut terrain: Vec<Vec<char>> = Vec::new();
        let mut r: usize = 0;
        while r < CHUNK_LENGTH
            invariant
                0 <= r <= CHUNK_LENGTH,
                terrain@.len() == r,
                forall|a: int| 0 <= a < r ==> (#[trigger] terrain@[a])@.len() == CHUNK_LENGTH,
                forall|a: int, b: int|
                    0 <= a < r && 0 <= b < terrain@[a]@.len() ==> is_tile(
                        #[trigger] terrain@[a]@[b],
                    ),
            decreases CHUNK_LENGTH - r,
        {
            let mut row: Vec<char> = Vec::new();
            let mut c: usize = 0;
            while c < CHUNK_LENGTH
                invariant
                    0 <= c <= CHUNK_LENGTH,
                    row@.len() == c,
                    forall|b: int| 0 <= b < c ==> is_tile(#[trigger] row@[b]),
                decreases CHUNK_LENGTH - c,
            {
                row.push(random_tile());
                c += 1;
            }
            terrain.push(row);
            r += 1;
        }
        let mut users: Vec<(String, UserCoord)> = Vec::new();
        match user_coord {
            Some(u) => {
                let owned = crate::text::str_to_string(username);
                users.push((owned, u));
            },
            None => {},
        }
        let ch = GamestateChunk { coord, terrain, users };
        proof {
            match user_coord {
                Some(u) => {
                    assert(ch.model().users =~= seq![(username@, u)]);
                },
                None => {},
            }
            assert forall|r: int, c: int|
                0 <= r < ch.model().terrain.len() && 0 <= c < ch.model().terrain[r].len()
                    implies from_draw(#[trigger] ch.model().terrain[r][c]) by {
                let t = ch.model().terrain[r][c];
                if t == TILE_WATER {
                    assert(t == tile_for(0));
                } else if t == TILE_ROCK {
                    assert(t == tile_for(9));
                } else {
                    assert(t == tile_for(1));
                }
            }
        }
        ch
    }

    /// The eight chunk coordinates adjacent to this chunk, column by
    /// column from the left, top to bottom within each column.
    pub fn get_neighbours(&self) -> (ns: Vec<GamestateCoord>)
        requires
            i32::MIN < self.coord.x < i32::MAX,
            i32::MIN < self.coord.y < i32::MAX,
        ensures
            ns@ == neighbour_coords(self.coord),
    {
        let x = self.coord.x;
        let y = self.coord.y;
        let mut ns: Vec<GamestateCoord> = Vec::new();
        ns.push(GamestateCoord { x: x - 1, y: y - 1 });
        ns.push(GamestateCoord { x: x - 1, y: y });
        ns.push(GamestateCoord { x: x - 1, y: y + 1 });
        ns.push(GamestateCoord { x: x, y: y - 1 });
        ns.push(GamestateCoord { x: x, y: y + 1 });
        ns.push(GamestateCoord { x: x + 1, y: y - 1 });
        ns.push(GamestateCoord { x: x + 1, y: y });
        ns.push(GamestateCoord { x: x + 1, y: y + 1 });
        proof {
            assert(ns@ =~= neighbour_coords(self.coord));
        }
        ns
    }
}

/// A well-formed game id: seven alphanumeric characters.
pub open spec fn wf_game_id(gid: Seq<char>) -> bool {
    gid.len() == 7 && forall|i: int| 0 <= i < gid.len() ==> crate::text::is_alnum(#[trigger] gid[i])
}

/// The store key of the window chunk at read position `i` of a fresh
/// game: the nine records a creation writes.
pub open spec fn origin_window_key(gid: Seq<char>, i: int) -> Seq<char> {
    crate::rrr_game::chunk_key(
        gid,
        crate::coord::coord_id(crate::get::window_coord_at((GamestateCoord { x: 0, y: 0 }), i)),
    )
}

/// The user gate of a game creation: the requester must have a stored,
/// readable account record with no current game of this type.
pub open spec fn user_gate(db: Map<Seq<char>, Seq<char>>, username: Seq<char>) -> Result<
    (),
    crate::http::HttpErrorCode,
> {
    if !db.contains_key(username) {
        Err(crate::http::HttpErrorCode::Error404NotFround)
    } else {
        match crate::users::parse_user_entry_spec(db[username]) {
            None => Err(crate::http::HttpErrorCode::Error500InternalServerError),
            Some(entry) => if crate::text::pair_lookup(entry.games, "rrr-game"@) is Some {
                Err(crate::http::HttpErrorCode::Error409Conflict)
            } else {
                Ok(())
            },
        }
    }
}

/// The shape of the nine chunks a creation spawns: keyed to the window
/// coordinates around the origin in read order, full square grids of
/// drawn tiles, the creator alone at the origin in the center chunk and
/// nobody elsewhere.
pub open spec fn spawn_ok(cs: Seq<ChunkModel>, username: Seq<char>) -> bool {
    &&& cs.len() == 9
    &&& forall|i: int| 0 <= i < 9 ==> (#[trigger] cs[i]).coord == crate::get::window_coord_at(
        (GamestateCoord { x: 0, y: 0 }),
        i,
    )
    &&& forall|i: int| 0 <= i < 9 ==> wf_chunk(#[trigger] cs[i]) && tiles_ok(cs[i])
    &&& forall|i: int, r: int, c: int|
        0 <= i < 9 && 0 <= r < (#[trigger] cs[i]).terrain.len() && 0 <= c
            < cs[i].terrain[r].len() ==> from_draw(#[trigger] cs[i].terrain[r][c])
    &&& cs[0].users == seq![(username, (UserCoord { x: 0, y: 0 }))]
    &&& forall|i: int| 1 <= i < 9 ==> (#[trigger] cs[i]).users.len() == 0
}

/// The store after writing the first `k` spawned chunk records.
pub open spec fn spawned_db(
    db: Map<Seq<char>, Seq<char>>,
    gid: Seq<char>,
    cs: Seq<ChunkModel>,
    k: int,
) -> Map<Seq<char>, Seq<char>>
    decreases k,
{
    if k <= 0 {
        db
    } else {
        spawned_db(db, gid, cs, k - 1).insert(origin_window_key(gid, k - 1), enc_chunk(cs[k - 1]))
    }
}

/// The spawned chunks as a keyed list, in read order.
pub open spec fn ms_of(cs: Seq<ChunkModel>) -> Seq<(GamestateCoord, ChunkModel)> {
    Seq::new(
        9,
        |i: int| (crate::get::window_coord_at((GamestateCoord { x: 0, y: 0 }), i), cs[i]),
    )
}

/// With one game id, distinct chunk ids give distinct store keys.
pub proof fn lemma_chunk_key_injective(gid: Seq<char>, a: Seq<char>, b: Seq<char>)
    requires
        a != b,
    ensures
        crate::rrr_game::chunk_key(gid, a) != crate::rrr_game::chunk_key(gid, b),
{
    let ka = crate::rrr_game::chunk_key(gid, a);
    let kb = crate::rrr_game::chunk_key(gid, b);
    let p = crate::rrr_game::game_name().len() + 2 + gid.len();
    if ka == kb {
        assert(ka.len() == p + a.len());
        assert(kb.len() == p + b.len());
        assert forall|t: int| 0 <= t < a.len() implies a[t] == b[t] by {
            assert(ka[p + t] == a[t]);
            assert(kb[p + t] == b[t]);
        }
        assert(a =~= b);
    }
}

/// The decimal renderings of the three chunk indexes around the origin.
proof fn lemma_small_int_str()
    ensures
        int_str(0) == seq!['0'],
        int_str(1) == seq!['1'],
        int_str(-1) == seq!['-', '1'],
{
    assert(crate::text::dec_digits(0) =~= seq!['0']);
    assert(crate::text::dec_digits(1) =~= seq!['1']);
    assert(int_str(0) =~= seq!['0']);
    assert(int_str(1) =~= seq!['1']);
    assert(int_str(-1) =~= seq!['-', '1']);
}

/// The nine window chunk ids around the origin, as concrete strings.
proof fn lemma_origin_ids()
    ensures
        crate::coord::coord_id(crate::get::window_coord_at((GamestateCoord { x: 0, y: 0 }), 0))
            == seq!['0', '-', '0'],
        crate::coord::coord_id(crate::get::window_coord_at((GamestateCoord { x: 0, y: 0 }), 1))
            == seq!['-', '1', '-', '-', '1'],
        crate::coord::coord_id(crate::get::window_coord_at((GamestateCoord { x: 0, y: 0 }), 2))
            == seq!['-', '1', '-', '0'],
        crate::coord::coord_id(crate::get::window_coord_at((GamestateCoord { x: 0, y: 0 }), 3))
            == seq!['-', '1', '-', '1'],
        crate::coord::coord_id(crate::get::window_coord_at((GamestateCoord { x: 0, y: 0 }), 4))
            == seq!['0', '-', '-', '1'],
        crate::coord::coord_id(crate::get::window_coord_at((GamestateCoord { x: 0, y: 0 }), 5))
            == seq!['0', '-', '1'],
        crate::coord::coord_id(crate::get::window_coord_at((GamestateCoord { x: 0, y: 0 }), 6))
            == seq!['1', '-', '-', '1'],
        crate::coord::coord_id(crate::get::window_coord_at((GamestateCoord { x: 0, y: 0 }), 7))
            == seq!['1', '-', '0'],
        crate::coord::coord_id(crate::get::window_coord_at((GamestateCoord { x: 0, y: 0 }), 8))
            == seq!['1', '-', '1'],
{
    lemma_small_int_str();
    let o = GamestateCoord { x: 0, y: 0 };
    assert(neighbour_coords(o)[0] == (GamestateCoord { x: -1i32, y: -1i32 }));
    assert(neighbour_coords(o)[1] == (GamestateCoord { x: -1i32, y: 0i32 }));
    assert(neighbour_coords(o)[2] == (GamestateCoord { x: -1i32, y: 1i32 }));
    assert(neighbour_coords(o)[3] == (GamestateCoord { x: 0i32, y: -1i32 }));
    assert(neighbour_coords(o)[4] == (GamestateCoord { x: 0i32, y: 1i32 }));
    assert(neighbour_coords(o)[5] == (GamestateCoord { x: 1i32, y: -1i32 }));
    assert(neighbour_coords(o)[6] == (GamestateCoord { x: 1i32, y: 0i32 }));
    assert(neighbour_coords(o)[7] == (GamestateCoord { x: 1i32, y: 1i32 }));
    assert(crate::coord::coord_id(crate::get::window_coord_at(o, 0)) =~= seq!['0', '-', '0']);
    assert(crate::coord::coord_id(crate::get::window_coord_at(o, 1)) =~= seq![
        '-', '1', '-', '-', '1',
    ]);
    assert(crate::coord::coord_id(crate::get::window_coord_at(o, 2)) =~= seq!['-', '1', '-', '0']);
    assert(crate::coord::coord_id(crate::get::window_coord_at(o, 3)) =~= seq!['-', '1', '-', '1']);
    assert(crate::coord::coord_id(crate::get::window_coord_at(o, 4)) =~= seq!['0', '-', '-', '1']);
    assert(crate::coord::coord_id(crate::get::window_coord_at(o, 5)) =~= seq!['0', '-', '1']);
    assert(crate::coord::coord_id(crate::get::window_coord_at(o, 6)) =~= seq!['1', '-', '-', '1']);
    assert(crate::coord::coord_id(crate::get::window_coord_at(o, 7)) =~= seq!['1', '-', '0']);
    assert(crate::coord::coord_id(crate::get::window_coord_at(o, 8)) =~= seq!['1', '-', '1']);
}

/// The nine window store keys of one fresh game are pairwise distinct.
pub proof fn lemma_origin_keys_distinct(gid: Seq<char>)
    ensures
        forall|i: int, j: int|
            0 <= i < 9 && 0 <= j < 9 && i != j ==> #[trigger] origin_window_key(gid, i)
                != #[trigger] origin_window_key(gid, j),
{
    lemma_origin_ids();
    let o = GamestateCoord { x: 0, y: 0 };
    assert(seq!['0', '-', '0'][2] != seq!['0', '-', '1'][2]);
    assert(seq!['0', '-', '0'][0] != seq!['1', '-', '0'][0]);
    assert(seq!['0', '-', '0'][0] != seq!['1', '-', '1'][0]);
    assert(seq!['0', '-', '1'][0] != seq!['1', '-', '0'][0]);
    assert(seq!['0', '-', '1'][0] != seq!['1', '-', '1'][0]);
    assert(seq!['1', '-', '0'][2] != seq!['1', '-', '1'][2]);
    assert(seq!['-', '1', '-', '0'][3] != seq!['-', '1', '-', '1'][3]);
    assert(seq!['-', '1', '-', '0'][0] != seq!['0', '-', '-', '1'][0]);
    assert(seq!['-', '1', '-', '0'][0] != seq!['1', '-', '-', '1'][0]);
    assert(seq!['-', '1', '-', '1'][0] != seq!['0', '-', '-', '1'][0]);
    assert(seq!['-', '1', '-', '1'][0] != seq!['1', '-', '-', '1'][0]);
    assert(seq!['0', '-', '-', '1'][0] != seq!['1', '-', '-', '1'][0]);
    assert forall|i: int, j: int|
        0 <= i < 9 && 0 <= j < 9 && i != j implies #[trigger] origin_window_key(gid, i)
        != #[trigger] origin_window_key(gid, j) by {
        assert(crate::coord::coord_id(crate::get::window_coord_at(o, i))
            != crate::coord::coord_id(crate::get::window_coord_at(o, j)));
        lemma_chunk_key_injective(
            gid,
            crate::coord::coord_id(crate::get::window_coord_at(o, i)),
            crate::coord::coord_id(crate::get::window_coord_at(o, j)),
        );
    }
}

/// After all nine writes, each spawned record sits under its own key.
pub proof fn lemma_spawned_lookup(
    db: Map<Seq<char>, Seq<char>>,
    gid: Seq<char>,
    cs: Seq<ChunkModel>,
    k: int,
    j: int,
)
    requires
        0 <= j < k <= 9,
    ensures
        spawned_db(db, gid, cs, k).contains_key(origin_window_key(gid, j)),
        spawned_db(db, gid, cs, k)[origin_window_key(gid, j)] == enc_chunk(cs[j]),
    decreases k,
{
    lemma_origin_keys_distinct(gid);
    if j < k - 1 {
        lemma_spawned_lookup(db, gid, cs, k - 1, j);
    }
}

/// The JSON body answering a game creation: the new game's id, the
/// player's spawn position, the window's top-left reference coordinate,
/// and the initial visible window.
pub open spec fn create_rsp(gid: Seq<char>, t: Seq<Seq<char>>, u: Seq<(Seq<char>, UserCoord)>) -> Seq<char> {
    seq!['{'] + enc_key("game_id"@) + crate::codec::enc_quoted(gid) + seq![','] + enc_key(
        "user_coord"@,
    ) + enc_xy(0, 0) + seq![','] + enc_key("top_left_visible_coord"@) + enc_xy(
        crate::coord::top_left_axis(0, CHUNK_LENGTH as int),
        crate::coord::top_left_axis(0, CHUNK_LENGTH as int),
    ) + seq![','] + enc_key("visible_gamestate"@) + crate::get::enc_visible(t, u) + seq!['}']
}

/// Everything a game creation is answerable for, relating the store
/// before and after to the observable result.  The user gate decides
/// exactly the failures that do not depend on the random id;
/// service-unavailable happens only with an existing center record under
/// the random id; success carries the full spawned store and response;
/// and if the account checks succeed while every seven-character
/// alphanumeric id is still free, only success is admissible.
pub open spec fn create_game_post(
    dbo: Map<Seq<char>, Seq<char>>,
    dbn: Map<Seq<char>, Seq<char>>,
    uname: Seq<char>,
    a: Result<Seq<char>, (crate::http::HttpErrorCode, Seq<char>)>,
) -> bool {
    &&& match a {
        Ok(s) => user_gate(dbo, uname) == Ok::<(), crate::http::HttpErrorCode>(()) && (exists|
            gid: Seq<char>,
            cs: Seq<ChunkModel>,
        |
            #![auto]
            wf_game_id(gid) && !dbo.contains_key(origin_window_key(gid, 0)) && spawn_ok(cs, uname)
                && dbn == spawned_db(dbo, gid, cs, 9) && s == create_rsp(
                gid,
                crate::get::window_terrain(ms_of(cs), (GamestateCoord { x: 0, y: 0 })),
                crate::get::merge_all_users(Seq::empty(), ms_of(cs), 0),
            ) && crate::get::visible_ok(dbn, gid, uname, (UserCoord { x: 0, y: 0 })) == Some(
                (
                    crate::get::window_terrain(ms_of(cs), (GamestateCoord { x: 0, y: 0 })),
                    crate::get::merge_all_users(Seq::empty(), ms_of(cs), 0),
                ),
            )),
        Err((c, _)) => dbn == dbo && match c {
            crate::http::HttpErrorCode::Error404NotFround => user_gate(dbo, uname) == Err::<
                (),
                crate::http::HttpErrorCode,
            >(crate::http::HttpErrorCode::Error404NotFround),
            crate::http::HttpErrorCode::Error500InternalServerError => user_gate(dbo, uname)
                == Err::<(), crate::http::HttpErrorCode>(
                crate::http::HttpErrorCode::Error500InternalServerError,
            ),
            crate::http::HttpErrorCode::Error409Conflict => user_gate(dbo, uname) == Err::<
                (),
                crate::http::HttpErrorCode,
            >(crate::http::HttpErrorCode::Error409Conflict),
            crate::http::HttpErrorCode::Error503ServiceUnavailable => user_gate(dbo, uname)
                == Ok::<(), crate::http::HttpErrorCode>(()) && (exists|gid: Seq<char>|
                wf_game_id(gid) && dbo.contains_key(#[trigger] origin_window_key(gid, 0))),
            _ => false,
        },
    }
    &&& (user_gate(dbo, uname) matches Err(c) ==> (a matches Err((c2, _)) && c2 == c))
    &&& ((user_gate(dbo, uname) == Ok::<(), crate::http::HttpErrorCode>(()) && (forall|
        gid: Seq<char>,
    |
        wf_game_id(gid) ==> !dbo.contains_key(#[trigger] origin_window_key(gid, 0)))) ==> a is Ok)
}

/// Creates a new game for `username`: a fresh random id, a 3x3 block of
/// fresh chunks with the player at the world origin, and the initial
/// visible window, exactly as a subsequent read would return it.
/// The user gate decides the failures that do not depend on the random
/// id: no account record, an unreadable record, or a current game of
/// this type (a conflict).  Service-unavailable happens exactly with an
/// existing center chunk record under the random id; if the account
/// checks succeed while every seven-character alphanumeric id is still
/// free, creation succeeds.
#[verifier::loop_isolation(false)]
#[verifier::rlimit(100)]
pub fn create_game<D: Database>(username: String, db: &mut D) -> (r: Result<
    String,
    crate::http::HttpError,
>)
    ensures
        create_game_post(old(db).db(), final(db).db(), username@, crate::users::abs_result(r)),
{
    let ghost uname = username@;
    let curr_game_id = match crate::users::get_user_curr_game_info(
        username.as_str(),
        db,
        "rrr-game",
    ) {
        Ok(g) => g,
        Err(e) => {
            return Err(e);
        },
    };
    if match curr_game_id {
        Some(_) => true,
        None => false,
    } {
        return Err(
            crate::http::HttpError {
                code: crate::http::HttpErrorCode::Error409Conflict,
                message: crate::text::str_to_string("User is already in a game"),
            },
        );
    }
    proof {
        assert(user_gate(db.db(), uname) == Ok::<(), crate::http::HttpErrorCode>(()));
    }
    let game_id = generate_game_id();
    let centre_chunk_coord = GamestateCoord { x: 0, y: 0 };
    let centre_id = centre_chunk_coord.id();
    let centre_key = crate::rrr_game::make_chunk_key(game_id.as_str(), centre_id.as_str());
    proof {
        assert(crate::get::window_coord_at((GamestateCoord { x: 0, y: 0 }), 0)
            == centre_chunk_coord);
        assert(centre_key@ == origin_window_key(game_id@, 0));
    }
    if match db.get(centre_key.as_str()) {
        Some(_) => true,
        None => false,
    } {
        return Err(
            crate::http::HttpError {
                code: crate::http::HttpErrorCode::Error503ServiceUnavailable,
                message: crate::text::str_to_string("Clash when creating new game ID"),
            },
        );
    }
    let user_coord = UserCoord { x: 0, y: 0 };
    let centre_chunk = GamestateChunk::new(centre_chunk_coord, username.as_str(), Some(user_coord));
    let neighbours = centre_chunk.get_neighbours();
    let mut chunks: Vec<GamestateChunk> = Vec::new();
    chunks.push(centre_chunk);
    let mut i: usize = 0;
    while i < neighbours.len()
        invariant
            0 <= i <= neighbours@.len(),
            neighbours@.len() == 8,
            neighbours@ == neighbour_coords((GamestateCoord { x: 0, y: 0 })),
            chunks@.len() == i + 1,
            forall|j: int| 0 <= j < i + 1 ==> (#[trigger] chunks@[j]).coord
                == crate::get::window_coord_at((GamestateCoord { x: 0, y: 0 }), j),
            forall|j: int| 0 <= j < i + 1 ==> wf_chunk((#[trigger] chunks@[j]).model()) && tiles_ok(
                chunks@[j].model(),
            ),
            forall|j: int, r: int, c: int|
                0 <= j < i + 1 && 0 <= r < (#[trigger] chunks@[j]).model().terrain.len() && 0 <= c
                    < chunks@[j].model().terrain[r].len() ==> from_draw(
                    #[trigger] chunks@[j].model().terrain[r][c],
                ),
            chunks@[0].model().users == seq![(uname, (UserCoord { x: 0, y: 0 }))],
            forall|j: int| 1 <= j < i + 1 ==> (#[trigger] chunks@[j]).model().users.len() == 0,
        decreases neighbours.len() - i,
    {
        let nc = neighbours[i];
        chunks.push(GamestateChunk::new(nc, username.as_str(), None));
        i += 1;
    }
    let ghost csv = Seq::new(9, |j: int| chunks@[j].model());
    proof {
        assert(spawn_ok(csv, uname));
    }
    let ghost gidv = game_id@;
    let ghost db_before = db.db();
    let mut k: usize = 0;
    while k < chunks.len()
        invariant
            0 <= k <= chunks@.len(),
            chunks@.len() == 9,
            forall|j: int| 0 <= j < 9 ==> (#[trigger] chunks@[j]).coord
                == crate::get::window_coord_at((GamestateCoord { x: 0, y: 0 }), j),
            forall|j: int| 0 <= j < 9 ==> #[trigger] chunks@[j].model() == csv[j],
            db.db() == spawned_db(db_before, gidv, csv, k as int),
        decreases chunks.len() - k,
    {
        let id = chunks[k].get_id();
        let key = crate::rrr_game::make_chunk_key(game_id.as_str(), id.as_str());
        proof {
            assert(chunks@[k as int].coord == crate::get::window_coord_at(
                (GamestateCoord { x: 0, y: 0 }),
                k as int,
            ));
            assert(id@ == crate::coord::coord_id(chunks@[k as int].coord));
            assert(key@ == origin_window_key(gidv, k as int));
        }
        let encoded = encode_chunk(&chunks[k]);
        db.set(key, encoded);
        k += 1;
    }
    proof {
        lemma_spawn_readable(db_before, gidv, csv, uname);
        assert(db.db() == spawned_db(db_before, gidv, csv, 9));
        assert(crate::get::visible_ok(db.db(), gidv, uname, (UserCoord { x: 0, y: 0 })) == Some(
            (
                crate::get::window_terrain(ms_of(csv), (GamestateCoord { x: 0, y: 0 })),
                crate::get::merge_all_users(Seq::empty(), ms_of(csv), 0),
            ),
        ));
    }
    let visible = match crate::get::get_visible_gamestate(&user_coord, username, &game_id, db) {
        Ok(v) => v,
        Err(e) => {
            proof {
                assert(false);
            }
            return Err(e);
        },
    };
    let top_left = crate::coord::get_top_left_visible_coord(&centre_chunk_coord, CHUNK_LENGTH);
    let kg = crate::text::str_to_chars("game_id");
    let ku = crate::text::str_to_chars("user_coord");
    let kt = crate::text::str_to_chars("top_left_visible_coord");
    let kv = crate::text::str_to_chars("visible_gamestate");
    let gidv2 = crate::text::str_to_chars(game_id.as_str());
    let visible_body = crate::get::encode_visible(&visible);
    let mut out: Vec<char> = Vec::new();
    out.push('{');
    crate::codec::push_key(&mut out, &kg);
    crate::codec::push_quoted(&mut out, &gidv2);
    out.push(',');
    crate::codec::push_key(&mut out, &ku);
    push_xy(&mut out, user_coord.x, user_coord.y);
    out.push(',');
    crate::codec::push_key(&mut out, &kt);
    push_xy(&mut out, top_left.x, top_left.y);
    out.push(',');
    crate::codec::push_key(&mut out, &kv);
    crate::text::push_str_chars(&mut out, visible_body.as_str());
    out.push('}');
    proof {
        vstd::arithmetic::div_mod::lemma_div_multiples_vanish(4, 2);
        assert(crate::coord::half_len(CHUNK_LENGTH as int) == 4);
        assert(out@ =~= create_rsp(
            game_id@,
            terrain_view(visible.terrain@),
            users_view(visible.users@),
        ));
        assert(wf_game_id(game_id@));
    }
    Ok(crate::text::chars_to_string(&out))
}

/// A freshly spawned store reads back as a complete, well-formed window
/// with the creator recorded at the origin.
proof fn lemma_spawn_readable(
    db: Map<Seq<char>, Seq<char>>,
    gid: Seq<char>,
    cs: Seq<ChunkModel>,
    username: Seq<char>,
)
    requires
        spawn_ok(cs, username),
    ensures
        forall|i: int| 0 <= i < 9 ==> crate::get::stored_chunk(
            spawned_db(db, gid, cs, 9),
            gid,
            #[trigger] crate::get::window_coord_at((GamestateCoord { x: 0, y: 0 }), i),
        ) == Some(cs[i]),
        crate::get::visible_ok(spawned_db(db, gid, cs, 9), gid, username, (UserCoord {
            x: 0,
            y: 0,
        })) == Some(
            (
                crate::get::window_terrain(ms_of(cs), (GamestateCoord { x: 0, y: 0 })),
                crate::get::merge_all_users(Seq::empty(), ms_of(cs), 0),
            ),
        ),
{
    let o = GamestateCoord { x: 0, y: 0 };
    let db2 = spawned_db(db, gid, cs, 9);
    assert forall|i: int| 0 <= i < 9 implies crate::get::stored_chunk(
        db2,
        gid,
        #[trigger] crate::get::window_coord_at(o, i),
    ) == Some(cs[i]) by {
        lemma_spawned_lookup(db, gid, cs, 9, i);
        lemma_parse_chunk_roundtrip(cs[i]);
        reveal(crate::create::parse_chunk_spec);
        assert(db2.contains_key(origin_window_key(gid, i)));
        assert(db2[origin_window_key(gid, i)] == enc_chunk(cs[i]));
    }
    crate::coord::lemma_origin_chunk(CHUNK_LENGTH as int);
    vstd::arithmetic::div_mod::lemma_div_multiples_vanish(4, 2);
    assert(crate::get::centre_of((UserCoord { x: 0, y: 0 })) == o);
    assert(crate::get::window_models_of(db2, gid, o) =~= ms_of(cs));
    assert(crate::get::window_all_stored(db2, gid, o)) by {
        assert(crate::get::window_coord_at(o, 0) == o);
        assert(crate::get::stored_wf(db2, gid, o));
        assert forall|j: int| 0 <= j < 8 implies crate::get::stored_wf(
            db2,
            gid,
            #[trigger] neighbour_coords(o)[j],
        ) by {
            assert(crate::get::window_coord_at(o, j + 1) == neighbour_coords(o)[j]);
            assert(crate::get::stored_chunk(db2, gid, neighbour_coords(o)[j]) == Some(cs[j + 1]));
        }
    }
    let cm = crate::get::chunk_or_empty(crate::get::stored_chunk(db2, gid, o));
    assert(crate::get::window_coord_at(o, 0) == o);
    assert(cm == cs[0]);
    assert(cm.coord == o);
    assert(lookup_user(cm.users, username) == Some(UserCoord { x: 0, y: 0 })) by {
        assert(cm.users[0].0 == username);
        assert(user_index(cm.users, username) == 0);
    }
}

/// The eight neighbours of a chunk coordinate, in enumeration order
/// (left column, middle column, right column; top to bottom).
pub open spec fn neighbour_coords(c: GamestateCoord) -> Seq<GamestateCoord> {
    seq![
        GamestateCoord { x: (c.x - 1) as i32, y: (c.y - 1) as i32 },
        GamestateCoord { x: (c.x - 1) as i32, y: c.y },
        GamestateCoord { x: (c.x - 1) as i32, y: (c.y + 1) as i32 },
        GamestateCoord { x: c.x, y: (c.y - 1) as i32 },
        GamestateCoord { x: c.x, y: (c.y + 1) as i32 },
        GamestateCoord { x: (c.x + 1) as i32, y: (c.y - 1) as i32 },
        GamestateCoord { x: (c.x + 1) as i32, y: c.y },
        GamestateCoord { x: (c.x + 1) as i32, y: (c.y + 1) as i32 },
    ]
}

} // verus!


