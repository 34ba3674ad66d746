//! Reading the visible window: the 3x3 chunk neighborhood around a
//! player, merged into one terrain grid and one player map.

use vstd::prelude::*;
use vstd::arithmetic::div_mod::{lemma_div_is_ordered, lemma_div_multiples_vanish_fancy};
use crate::codec::{enc_key, enc_list, enc_obj};
use crate::coord::{chunk_axis, coord_id, GamestateCoord, UserCoord};
use crate::create::{
    neighbour_coords, parse_chunk_spec, row_ev, terrain_view, ucoord_ev, users_view, wf_chunk,
    ChunkModel, GamestateChunk,
};
use crate::database::Database;
use crate::http::{HttpError, HttpErrorCode};
use crate::rrr_game::{chunk_key, CHUNK_LENGTH};

verus! {

/// A read-only composite view of the world around one player.
#[derive(PartialEq, Eq, Debug)]
pub struct VisibleGamestate {
    pub terrain: Vec<Vec<char>>,
    pub users: Vec<(String, UserCoord)>,
}

// ------------------------------------------------------------------
// Chunk lookup by window coordinate
// ------------------------------------------------------------------

/// The models of a keyed chunk list.
pub open spec fn cmodels(cs: Seq<(GamestateCoord, GamestateChunk)>) -> Seq<
    (GamestateCoord, ChunkModel),
> {
    Seq::new(cs.len(), |i: int| (cs[i].0, cs[i].1.model()))
}

/// Index of the first chunk keyed by `c`, or -1.
pub open spec fn find_c(ms: Seq<(GamestateCoord, ChunkModel)>, c: GamestateCoord) -> int
    decreases ms.len(),
{
    if ms.len() == 0 {
        -1
    } else if ms[0].0 == c {
        0
    } else {
        let r = find_c(ms.drop_first(), c);
        if r < 0 {
            -1
        } else {
            r + 1
        }
    }
}

/// The first index bears out a found chunk.
pub proof fn lemma_find_c_found(ms: Seq<(GamestateCoord, ChunkModel)>, c: GamestateCoord, i: int)
    requires
        0 <= i < ms.len(),
        ms[i].0 == c,
        forall|j: int| 0 <= j < i ==> (#[trigger] ms[j]).0 != c,
    ensures
        find_c(ms, c) == i,
    decreases ms.len(),
{
    if i > 0 {
        lemma_find_c_found(ms.drop_first(), c, i - 1);
    }
}

/// With no matching chunk, the index is -1.
pub proof fn lemma_find_c_none(ms: Seq<(GamestateCoord, ChunkModel)>, c: GamestateCoord)
    requires
        forall|j: int| 0 <= j < ms.len() ==> (#[trigger] ms[j]).0 != c,
    ensures
        find_c(ms, c) == -1,
    decreases ms.len(),
{
    if ms.len() > 0 {
        lemma_find_c_none(ms.drop_first(), c);
    }
}

/// The index found is in range and names the right chunk.
pub proof fn lemma_find_c_range(ms: Seq<(GamestateCoord, ChunkModel)>, c: GamestateCoord)
    ensures
        -1 <= find_c(ms, c) < ms.len(),
        find_c(ms, c) >= 0 ==> ms[find_c(ms, c)].0 == c,
    decreases ms.len(),
{
    if ms.len() > 0 && ms[0].0 != c {
        lemma_find_c_range(ms.drop_first(), c);
    }
}

/// Finds the chunk keyed by `(x, y)` in a keyed chunk list.
#[verifier::loop_isolation(false)]
fn find_chunk(chunks: &Vec<(GamestateCoord, GamestateChunk)>, x: i32, y: i32) -> (r: usize)
    requires
        find_c(cmodels(chunks@), (GamestateCoord { x, y })) >= 0,
    ensures
        r < chunks.len(),
        r as int == find_c(cmodels(chunks@), (GamestateCoord { x, y })),
        chunks@[r as int].0 == (GamestateCoord { x, y }),
{
    let ghost ms = cmodels(chunks@);
    let c = GamestateCoord { x, y };
    let mut i: usize = 0;
    while i < chunks.len()
        invariant
            0 <= i <= chunks.len(),
            forall|j: int| 0 <= j < i ==> (#[trigger] ms[j]).0 != c,
        decreases chunks.len() - i,
    {
        if chunks[i].0 == c {
            proof {
                lemma_find_c_found(ms, c, i as int);
            }
            return i;
        }
        i += 1;
    }
    proof {
        lemma_find_c_none(ms, c);
    }
    unreached()
}

// ------------------------------------------------------------------
// The window, in the model
// ------------------------------------------------------------------

/// The window chunk coordinate at offset `(dx, dy)` from the center.
pub open spec fn wcoord(centre: GamestateCoord, dx: int, dy: int) -> GamestateCoord {
    GamestateCoord { x: (centre.x + dx) as i32, y: (centre.y + dy) as i32 }
}

/// Terrain of the window chunk at offset `(dx, dy)`.
pub open spec fn terrain_at(
    ms: Seq<(GamestateCoord, ChunkModel)>,
    centre: GamestateCoord,
    dx: int,
    dy: int,
) -> Seq<Seq<char>> {
    ms[find_c(ms, wcoord(centre, dx, dy))].1.terrain
}

/// One horizontal band of the composed window: row for row, the left,
/// middle and right chunks' rows concatenated.  The left chunk sets the
/// band's row count.
pub open spec fn band_rows(
    ms: Seq<(GamestateCoord, ChunkModel)>,
    centre: GamestateCoord,
    dy: int,
) -> Seq<Seq<char>> {
    Seq::new(
        terrain_at(ms, centre, -1, dy).len(),
        |w: int|
            terrain_at(ms, centre, -1, dy)[w] + terrain_at(ms, centre, 0, dy)[w] + terrain_at(
                ms,
                centre,
                1,
                dy,
            )[w],
    )
}

/// The composed window terrain: the three bands stacked top to bottom.
pub open spec fn window_terrain(
    ms: Seq<(GamestateCoord, ChunkModel)>,
    centre: GamestateCoord,
) -> Seq<Seq<char>> {
    band_rows(ms, centre, -1) + band_rows(ms, centre, 0) + band_rows(ms, centre, 1)
}

/// The three chunks of each band have the same number of terrain rows,
/// so each band is a full rectangle.
pub open spec fn bands_ok(ms: Seq<(GamestateCoord, ChunkModel)>, centre: GamestateCoord) -> bool {
    forall|dy: int|
        -1 <= dy <= 1 ==> (#[trigger] terrain_at(ms, centre, 0, dy)).len() == terrain_at(
            ms,
            centre,
            -1,
            dy,
        ).len() && terrain_at(ms, centre, 1, dy).len() == terrain_at(ms, centre, -1, dy).len()
}

/// Adds the players of one chunk to an accumulated player list, later
/// entries overriding earlier ones of the same name.
pub open spec fn merge_chunk_users(
    acc: Seq<(Seq<char>, UserCoord)>,
    us: Seq<(Seq<char>, UserCoord)>,
    j: int,
) -> Seq<(Seq<char>, UserCoord)>
    decreases us.len() - j,
{
    if !(0 <= j < us.len()) {
        acc
    } else {
        merge_chunk_users(crate::create::set_user_seq(acc, us[j].0, us[j].1), us, j + 1)
    }
}

/// The union of the players of all chunks from index `k` on.
pub open spec fn merge_all_users(
    acc: Seq<(Seq<char>, UserCoord)>,
    ms: Seq<(GamestateCoord, ChunkModel)>,
    k: int,
) -> Seq<(Seq<char>, UserCoord)>
    decreases ms.len() - k,
{
    if !(0 <= k < ms.len()) {
        acc
    } else {
        merge_all_users(merge_chunk_users(acc, ms[k].1.users, 0), ms, k + 1)
    }
}

/// All nine window chunks are present in the keyed list.
pub open spec fn window_ok(ms: Seq<(GamestateCoord, ChunkModel)>, centre: GamestateCoord) -> bool {
    &&& find_c(ms, wcoord(centre, -1, -1)) >= 0
    &&& find_c(ms, wcoord(centre, -1, 0)) >= 0
    &&& find_c(ms, wcoord(centre, -1, 1)) >= 0
    &&& find_c(ms, wcoord(centre, 0, -1)) >= 0
    &&& find_c(ms, wcoord(centre, 0, 0)) >= 0
    &&& find_c(ms, wcoord(centre, 0, 1)) >= 0
    &&& find_c(ms, wcoord(centre, 1, -1)) >= 0
    &&& find_c(ms, wcoord(centre, 1, 0)) >= 0
    &&& find_c(ms, wcoord(centre, 1, 1)) >= 0
}

/// Every chunk of the list is a full square grid.
pub open spec fn window_wf(ms: Seq<(GamestateCoord, ChunkModel)>) -> bool {
    forall|i: int| 0 <= i < ms.len() ==> wf_chunk((#[trigger] ms[i]).1)
}

/// Composes the visible window from the nine chunks around `centre`.
/// The terrain is the exact row-major concatenation of the 3x3 chunk
/// grid; the player map is the union of all chunks' players.
#[verifier::loop_isolation(false)]
pub fn create_visible_gamestate(
    centre: GamestateCoord,
    chunks: Vec<(GamestateCoord, GamestateChunk)>,
) -> (r: VisibleGamestate)
    requires
        i32::MIN < centre.x < i32::MAX,
        i32::MIN < centre.y < i32::MAX,
        window_ok(cmodels(chunks@), centre),
        bands_ok(cmodels(chunks@), centre),
    ensures
        terrain_view(r.terrain@) == window_terrain(cmodels(chunks@), centre),
        users_view(r.users@) == merge_all_users(
            Seq::empty(),
            cmodels(chunks@),
            0,
        ),
{
    let ghost ms = cmodels(chunks@);
    let mut users: Vec<(String, UserCoord)> = Vec::new();
    proof {
        assert(users_view(users@) =~= Seq::<(Seq<char>, UserCoord)>::empty());
    }
    let mut k: usize = 0;
    while k < chunks.len()
        invariant
            0 <= k <= chunks.len(),
            merge_all_users(Seq::empty(), ms, 0) == merge_all_users(
                users_view(users@),
                ms,
                k as int,
            ),
        decreases chunks.len() - k,
    {
        let mut j: usize = 0;
        proof {
            assert(merge_all_users(users_view(users@), ms, k as int) == merge_all_users(
                merge_chunk_users(users_view(users@), ms[k as int].1.users, 0),
                ms,
                k + 1,
            ));
        }
        while j < chunks[k].1.users.len()
            invariant
                0 <= k < chunks.len(),
                0 <= j <= chunks[k as int].1.users.len(),
                merge_all_users(Seq::empty(), ms, 0) == merge_all_users(
                    merge_chunk_users(users_view(users@), ms[k as int].1.users, j as int),
                    ms,
                    k + 1,
                ),
            decreases chunks[k as int].1.users.len() - j,
        {
            let u = chunks[k].1.users[j].1;
            proof {
                assert(ms[k as int].1.users[j as int] == (chunks@[k as int].1.users@[j as int].0@, u));
            }
            crate::create::users_set(&mut users, chunks[k].1.users[j].0.as_str(), u);
            j += 1;
        }
        k += 1;
    }
    proof {
        assert(users_view(users@) == merge_all_users(Seq::empty(), ms, 0));
    }
    let mut terrain: Vec<Vec<char>> = Vec::new();
    let ghost done0 = Seq::<Seq<char>>::empty();
    let ghost done1 = band_rows(ms, centre, -1);
    let ghost done2 = band_rows(ms, centre, -1) + band_rows(ms, centre, 0);
    let mut dyi: usize = 0;
    while dyi < 3
        invariant
            0 <= dyi <= 3,
            terrain_view(terrain@) == (if dyi == 0 {
                done0
            } else if dyi == 1 {
                done1
            } else if dyi == 2 {
                done2
            } else {
                window_terrain(ms, centre)
            }),
        decreases 3 - dyi,
    {
        let ghost done = terrain_view(terrain@);
        let dy: i32 = (dyi as i32) - 1;
        let li = find_chunk(&chunks, centre.x - 1, centre.y + dy);
        let mi = find_chunk(&chunks, centre.x, centre.y + dy);
        let ri = find_chunk(&chunks, centre.x + 1, centre.y + dy);
        let rows = chunks[li].1.terrain.len();
        proof {
            assert(terrain_at(ms, centre, -1, dy as int) == ms[li as int].1.terrain);
            assert(terrain_at(ms, centre, 0, dy as int) == ms[mi as int].1.terrain);
            assert(terrain_at(ms, centre, 1, dy as int) == ms[ri as int].1.terrain);
            assert(ms[mi as int].1.terrain.len() == rows as int);
            assert(ms[ri as int].1.terrain.len() == rows as int);
        }
        let mut w: usize = 0;
        while w < rows
            invariant
                0 <= w <= rows,
                0 <= dyi < 3,
                dy == dyi as int - 1,
                li < chunks.len(),
                mi < chunks.len(),
                ri < chunks.len(),
                rows as int == chunks@[li as int].1.terrain@.len(),
                rows as int == chunks@[mi as int].1.terrain@.len(),
                rows as int == chunks@[ri as int].1.terrain@.len(),
                li as int == find_c(ms, wcoord(centre, -1, dy as int)),
                mi as int == find_c(ms, wcoord(centre, 0, dy as int)),
                ri as int == find_c(ms, wcoord(centre, 1, dy as int)),
                done == (if dyi == 0 {
                    done0
                } else if dyi == 1 {
                    done1
                } else {
                    done2
                }),
                terrain_view(terrain@) == done + band_rows(ms, centre, dy as int).take(w as int),
            decreases rows - w,
        {
            let mut nr: Vec<char> = Vec::new();
            crate::text::push_chars(&mut nr, &chunks[li].1.terrain[w]);
            crate::text::push_chars(&mut nr, &chunks[mi].1.terrain[w]);
            crate::text::push_chars(&mut nr, &chunks[ri].1.terrain[w]);
            terrain.push(nr);
            proof {
                assert(nr@ == band_rows(ms, centre, dy as int)[w as int]);
                assert(band_rows(ms, centre, dy as int).take(w + 1) =~= band_rows(
                    ms,
                    centre,
                    dy as int,
                ).take(w as int).push(nr@));
                assert(terrain_view(terrain@) =~= (done + band_rows(ms, centre, dy as int).take(
                    w as int,
                )).push(nr@));
                assert(terrain_view(terrain@) =~= done + band_rows(ms, centre, dy as int).take(
                    w + 1,
                ));
            }
            w += 1;
        }
        proof {
            assert(band_rows(ms, centre, dy as int).take(rows as int) =~= band_rows(
                ms,
                centre,
                dy as int,
            ));
            if dyi == 0 {
                assert(done0 + band_rows(ms, centre, -1) =~= done1);
            } else if dyi == 1 {
                assert(done1 + band_rows(ms, centre, 0) =~= done2);
            } else {
                assert(done2 + band_rows(ms, centre, 1) =~= window_terrain(ms, centre));
            }
        }
        dyi += 1;
    }
    VisibleGamestate { terrain, users }
}

// ------------------------------------------------------------------
// The window, over the store
// ------------------------------------------------------------------

/// The chunk of the world containing the world position `u`.
pub open spec fn centre_of(u: UserCoord) -> GamestateCoord {
    GamestateCoord {
        x: chunk_axis(u.x as int, CHUNK_LENGTH as int) as i32,
        y: chunk_axis(u.y as int, CHUNK_LENGTH as int) as i32,
    }
}

/// A chunk index along one axis stays far inside the `i32` range.
pub proof fn lemma_chunk_axis_bound(v: int)
    requires
        -0x8000_0000 <= v <= 0x7fff_ffff,
    ensures
        -0x1000_0000 < chunk_axis(v, 9) < 0x1000_0000,
{
    vstd::arithmetic::div_mod::lemma_div_multiples_vanish(4, 2);
    assert(crate::coord::half_len(9) == 4);
    lemma_div_is_ordered(v + 4, 0x8000_0003, 9);
    lemma_div_multiples_vanish_fancy(238609294, 5, 9);
    lemma_div_is_ordered(-0x7fff_fffc, v + 4, 9);
    lemma_div_multiples_vanish_fancy(-238609294, 2, 9);
}

/// The model of the chunk stored under `gid` at coordinate `c`, when a
/// parsable record is there.
pub open spec fn stored_chunk(
    db: Map<Seq<char>, Seq<char>>,
    gid: Seq<char>,
    c: GamestateCoord,
) -> Option<ChunkModel> {
    let key = chunk_key(gid, coord_id(c));
    if db.contains_key(key) {
        parse_chunk_spec(db[key])
    } else {
        None
    }
}

/// The stored chunk, or an empty placeholder where none parses.
pub open spec fn chunk_or_empty(o: Option<ChunkModel>) -> ChunkModel {
    match o {
        Some(m) => m,
        None => ChunkModel {
            coord: GamestateCoord { x: 0, y: 0 },
            terrain: Seq::empty(),
            users: Seq::empty(),
        },
    }
}

/// Whether a full square chunk record is stored at `c`.
pub open spec fn stored_wf(db: Map<Seq<char>, Seq<char>>, gid: Seq<char>, c: GamestateCoord) -> bool {
    match stored_chunk(db, gid, c) {
        Some(m) => wf_chunk(m),
        None => false,
    }
}

/// All nine window chunk records around `centre` are stored and square.
pub open spec fn window_all_stored(
    db: Map<Seq<char>, Seq<char>>,
    gid: Seq<char>,
    centre: GamestateCoord,
) -> bool {
    let nc = neighbour_coords(centre);
    &&& stored_wf(db, gid, centre)
    &&& stored_wf(db, gid, nc[0])
    &&& stored_wf(db, gid, nc[1])
    &&& stored_wf(db, gid, nc[2])
    &&& stored_wf(db, gid, nc[3])
    &&& stored_wf(db, gid, nc[4])
    &&& stored_wf(db, gid, nc[5])
    &&& stored_wf(db, gid, nc[6])
    &&& stored_wf(db, gid, nc[7])
}

/// The coordinates of the nine window chunks in read order: the center
/// first, then its neighbours in enumeration order.
pub open spec fn window_coord_at(centre: GamestateCoord, i: int) -> GamestateCoord {
    if i == 0 {
        centre
    } else {
        neighbour_coords(centre)[i - 1]
    }
}

/// The nine stored window chunks in read order, each keyed by its
/// queried coordinate.
pub open spec fn window_models_of(
    db: Map<Seq<char>, Seq<char>>,
    gid: Seq<char>,
    centre: GamestateCoord,
) -> Seq<(GamestateCoord, ChunkModel)> {
    Seq::new(
        9,
        |i: int|
            {
                let c = window_coord_at(centre, i);
                (c, chunk_or_empty(stored_chunk(db, gid, c)))
            },
    )
}

/// What a visible-window read yields, as a function of the store: the
/// composed window when all nine chunks are stored, square, the center
/// record sits at its own coordinate and the reader is in it; nothing
/// otherwise.
pub open spec fn visible_ok(
    db: Map<Seq<char>, Seq<char>>,
    gid: Seq<char>,
    username: Seq<char>,
    u: UserCoord,
) -> Option<(Seq<Seq<char>>, Seq<(Seq<char>, UserCoord)>)> {
    let centre = centre_of(u);
    let cm = chunk_or_empty(stored_chunk(db, gid, centre));
    if window_all_stored(db, gid, centre) && cm.coord == centre && crate::create::lookup_user(
        cm.users,
        username,
    ) is Some {
        let ms = window_models_of(db, gid, centre);
        Some(
            (
                window_terrain(ms, centre),
                merge_all_users(Seq::empty(), ms, 0),
            ),
        )
    } else {
        None
    }
}

/// Fetches and parses the chunk record stored under `gid` at `c`.
fn fetch_chunk<D: Database>(db: &D, game_id: &str, c: GamestateCoord) -> (r: Option<
    GamestateChunk,
>)
    ensures
        match r {
            Some(ch) => stored_chunk(db.db(), game_id@, c) == Some(ch.model()),
            None => stored_chunk(db.db(), game_id@, c) is None,
        },
{
    let id = c.id();
    let key = crate::rrr_game::make_chunk_key(game_id, id.as_str());
    match db.get(key.as_str()) {
        Some(s) => crate::create::parse_chunk(s.as_str()),
        None => None,
    }
}

/// Whether a chunk's terrain is a full square grid of the chunk side.
pub(crate) fn chunk_is_square(ch: &GamestateChunk) -> (r: bool)
    ensures
        r == wf_chunk(ch.model()),
{
    if ch.terrain.len() != CHUNK_LENGTH {
        return false;
    }
    let mut i: usize = 0;
    while i < ch.terrain.len()
        invariant
            0 <= i <= ch.terrain@.len(),
            ch.terrain@.len() == CHUNK_LENGTH,
            forall|j: int| 0 <= j < i ==> (#[trigger] ch.terrain@[j])@.len() == CHUNK_LENGTH,
        decreases ch.terrain.len() - i,
    {
        if ch.terrain[i].len() != CHUNK_LENGTH {
            proof {
                assert(ch.model().terrain[i as int].len() != CHUNK_LENGTH);
            }
            return false;
        }
        i += 1;
    }
    proof {
        assert forall|j: int| 0 <= j < ch.model().terrain.len() implies (#[trigger] ch.model()
            .terrain[j]).len() == CHUNK_LENGTH by {
            assert(ch.model().terrain[j] == ch.terrain@[j]@);
        }
    }
    true
}

/// A store lookup failure while assembling the window: the data the
/// engine relies on is gone or corrupt, fatal to this request.
fn window_error() -> (r: HttpError)
    ensures
        r.code == HttpErrorCode::Error500InternalServerError,
{
    HttpError {
        code: HttpErrorCode::Error500InternalServerError,
        message: crate::text::str_to_string("Gamestate chunk missing or malformed."),
    }
}

/// Fetches the nine window chunk records around `centre`, each keyed by
/// its queried coordinate, in read order.
#[verifier::loop_isolation(false)]
#[verifier::rlimit(60)]
fn fetch_window<D: Database>(db: &D, game_id: &str, centre: GamestateCoord) -> (r: Result<
    Vec<(GamestateCoord, GamestateChunk)>,
    HttpError,
>)
    requires
        i32::MIN < centre.x < i32::MAX,
        i32::MIN < centre.y < i32::MAX,
    ensures
        match r {
            Ok(chunks) => {
                &&& chunks@.len() == 9
                &&& cmodels(chunks@) == window_models_of(db.db(), game_id@, centre)
                &&& window_all_stored(db.db(), game_id@, centre)
                &&& window_ok(cmodels(chunks@), centre)
                &&& window_wf(cmodels(chunks@))
            },
            Err(e) => !window_all_stored(db.db(), game_id@, centre) && e.code
                == HttpErrorCode::Error500InternalServerError,
        },
{
    let centre_chunk = match fetch_chunk(db, game_id, centre) {
        Some(ch) => ch,
        None => {
            return Err(window_error());
        },
    };
    if !chunk_is_square(&centre_chunk) {
        return Err(window_error());
    }
    let mut chunks: Vec<(GamestateCoord, GamestateChunk)> = Vec::new();
    chunks.push((centre, centre_chunk));
    let mut i: usize = 0;
    let ns: Vec<GamestateCoord> = neighbour_list(centre);
    while i < 8
        invariant
            0 <= i <= 8,
            ns@ == neighbour_coords(centre),
            chunks@.len() == i + 1,
            chunks@[0].0 == centre,
            chunks@[0].1.model() == chunk_or_empty(stored_chunk(db.db(), game_id@, centre)),
            stored_wf(db.db(), game_id@, centre),
            forall|j: int| 1 <= j < i + 1 ==> (#[trigger] chunks@[j]).0 == neighbour_coords(
                centre,
            )[j - 1],
            forall|j: int| 1 <= j < i + 1 ==> (#[trigger] chunks@[j]).1.model() == chunk_or_empty(
                stored_chunk(db.db(), game_id@, neighbour_coords(centre)[j - 1]),
            ),
            forall|j: int| 0 <= j < i ==> stored_wf(
                db.db(),
                game_id@,
                (#[trigger] neighbour_coords(centre)[j]),
            ),
        decreases 8 - i,
    {
        let nc = ns[i];
        let nch = match fetch_chunk(db, game_id, nc) {
            Some(ch) => ch,
            None => {
                return Err(window_error());
            },
        };
        if !chunk_is_square(&nch) {
            return Err(window_error());
        }
        chunks.push((nc, nch));
        i += 1;
    }
    proof {
        assert(cmodels(chunks@) =~= window_models_of(db.db(), game_id@, centre));
        lemma_window_ok_of_models(cmodels(chunks@), centre);
        assert(window_all_stored(db.db(), game_id@, centre));
        assert forall|j: int| 0 <= j < cmodels(chunks@).len() implies wf_chunk(
            (#[trigger] cmodels(chunks@)[j]).1,
        ) by {
            if j == 0 {
                assert(stored_wf(db.db(), game_id@, centre));
            } else {
                assert(stored_wf(db.db(), game_id@, neighbour_coords(centre)[j - 1]));
            }
        }
    }
    Ok(chunks)
}

/// The eight neighbour coordinates of `centre`, in enumeration order.
fn neighbour_list(centre: GamestateCoord) -> (ns: Vec<GamestateCoord>)
    requires
        i32::MIN < centre.x < i32::MAX,
        i32::MIN < centre.y < i32::MAX,
    ensures
        ns@ == neighbour_coords(centre),
{
    let x = centre.x;
    let y = centre.y;
    let mut ns: Vec<GamestateCoord> = Vec::new();
    ns.push(GamestateCoord { x: x - 1, y: y - 1 });
    ns.push(GamestateCoord { x: x - 1, y: y });
    ns.push(GamestateCoord { x: x - 1, y: y + 1 });
    ns.push(GamestateCoord { x: x, y: y - 1 });
    ns.push(GamestateCoord { x: x, y: y + 1 });
    ns.push(GamestateCoord { x: x + 1, y: y - 1 });
    ns.push(GamestateCoord { x: x + 1, y: y });
    ns.push(GamestateCoord { x: x + 1, y: y + 1 });
    proof {
        assert(ns@ =~= neighbour_coords(centre));
    }
    ns
}

/// Reads the visible window around `user_coord` for `username`: the
/// center chunk is selected by the caller-supplied coordinate, the
/// reader must be recorded in it, and all eight neighbour chunks must be
/// stored.
#[verifier::rlimit(60)]
pub fn get_visible_gamestate<D: Database>(
    user_coord: &UserCoord,
    username: String,
    game_id: &String,
    db: &D,
) -> (r: Result<VisibleGamestate, HttpError>)
    ensures
        match r {
            Ok(v) => visible_ok(db.db(), game_id@, username@, *user_coord) == Some(
                (terrain_view(v.terrain@), users_view(v.users@)),
            ),
            Err(e) => visible_ok(db.db(), game_id@, username@, *user_coord) is None && e.code
                == HttpErrorCode::Error500InternalServerError,
        },
{
    let centre = crate::coord::user_coord_to_gamestate_coord(user_coord, CHUNK_LENGTH);
    proof {
        assert(centre == centre_of(*user_coord));
        lemma_chunk_axis_bound(user_coord.x as int);
        lemma_chunk_axis_bound(user_coord.y as int);
    }
    let chunks = match fetch_window(db, game_id.as_str(), centre) {
        Ok(cs) => cs,
        Err(e) => {
            return Err(e);
        },
    };
    if !(chunks[0].1.coord == centre) {
        return Err(window_error());
    }
    if match crate::create::users_find(&chunks[0].1.users, username.as_str()) {
        Some(_) => false,
        None => true,
    } {
        return Err(
            HttpError {
                code: HttpErrorCode::Error500InternalServerError,
                message: crate::text::str_to_string("Can't find user in the gamestate chunk"),
            },
        );
    }
    let ghost ms = cmodels(chunks@);
    proof {
        assert(ms[0].1 == chunk_or_empty(stored_chunk(db.db(), game_id@, centre)));
        assert(ms[0].1.coord == centre);
        assert forall|dy: int| -1 <= dy <= 1 implies (#[trigger] terrain_at(
            ms,
            centre,
            0,
            dy,
        )).len() == terrain_at(ms, centre, -1, dy).len() && terrain_at(ms, centre, 1, dy).len()
            == terrain_at(ms, centre, -1, dy).len() by {
            lemma_find_c_range(ms, wcoord(centre, -1, dy));
            lemma_find_c_range(ms, wcoord(centre, 0, dy));
            lemma_find_c_range(ms, wcoord(centre, 1, dy));
            if dy == -1 {
                assert(find_c(ms, wcoord(centre, -1, -1)) >= 0);
                assert(find_c(ms, wcoord(centre, 0, -1)) >= 0);
                assert(find_c(ms, wcoord(centre, 1, -1)) >= 0);
            } else if dy == 0 {
                assert(find_c(ms, wcoord(centre, -1, 0)) >= 0);
                assert(find_c(ms, wcoord(centre, 0, 0)) >= 0);
                assert(find_c(ms, wcoord(centre, 1, 0)) >= 0);
            } else {
                assert(find_c(ms, wcoord(centre, -1, 1)) >= 0);
                assert(find_c(ms, wcoord(centre, 0, 1)) >= 0);
                assert(find_c(ms, wcoord(centre, 1, 1)) >= 0);
            }
            assert(wf_chunk(ms[find_c(ms, wcoord(centre, -1, dy))].1));
            assert(wf_chunk(ms[find_c(ms, wcoord(centre, 0, dy))].1));
            assert(wf_chunk(ms[find_c(ms, wcoord(centre, 1, dy))].1));
        }
        assert(bands_ok(ms, centre));
    }
    let v = create_visible_gamestate(centre, chunks);
    Ok(v)
}

/// A nine-chunk list keyed by the window coordinates has every window
/// chunk findable.
proof fn lemma_window_ok_of_models(ms: Seq<(GamestateCoord, ChunkModel)>, centre: GamestateCoord)
    requires
        i32::MIN < centre.x < i32::MAX,
        i32::MIN < centre.y < i32::MAX,
        ms.len() == 9,
        ms[0].0 == centre,
        forall|j: int| 1 <= j < 9 ==> (#[trigger] ms[j]).0 == neighbour_coords(centre)[j - 1],
    ensures
        window_ok(ms, centre),
{
    lemma_find_c_found(ms, wcoord(centre, 0, 0), 0);
    lemma_find_c_found(ms, wcoord(centre, -1, -1), 1);
    lemma_find_c_found(ms, wcoord(centre, -1, 0), 2);
    lemma_find_c_found(ms, wcoord(centre, -1, 1), 3);
    lemma_find_c_found(ms, wcoord(centre, 0, -1), 4);
    lemma_find_c_found(ms, wcoord(centre, 0, 1), 5);
    lemma_find_c_found(ms, wcoord(centre, 1, -1), 6);
    lemma_find_c_found(ms, wcoord(centre, 1, 0), 7);
    lemma_find_c_found(ms, wcoord(centre, 1, 1), 8);
}

// ------------------------------------------------------------------
// The window, on the wire
// ------------------------------------------------------------------

/// The JSON form of a visible window.
pub open spec fn enc_visible(t: Seq<Seq<char>>, u: Seq<(Seq<char>, UserCoord)>) -> Seq<char> {
    seq!['{'] + enc_key("terrain"@) + enc_list(t, row_ev(), '[', ']') + seq![','] + enc_key(
        "users"@,
    ) + enc_obj(u, ucoord_ev()) + seq!['}']
}

/// Renders a visible window as its JSON response body.
pub fn encode_visible(v: &VisibleGamestate) -> (s: String)
    ensures
        s@ == enc_visible(terrain_view(v.terrain@), users_view(v.users@)),
{
    let ktv = crate::text::str_to_chars("terrain");
    let kuv = crate::text::str_to_chars("users");
    let mut out: Vec<char> = Vec::new();
    out.push('{');
    crate::codec::push_key(&mut out, &ktv);
    crate::create::push_terrain(&mut out, &v.terrain);
    out.push(',');
    crate::codec::push_key(&mut out, &kuv);
    crate::create::push_users(&mut out, &v.users);
    out.push('}');
    proof {
        assert(out@ =~= enc_visible(terrain_view(v.terrain@), users_view(v.users@)));
    }
    crate::text::chars_to_string(&out)
}

/// The world position named by the `x` and `y` query parameters, if both
/// are present and parse.
pub open spec fn params_coord(parameters: Option<Seq<(Seq<char>, Seq<char>)>>) -> Option<
    UserCoord,
> {
    match parameters {
        Some(ps) => match (
            crate::coord::param_i32(ps, "x"@),
            crate::coord::param_i32(ps, "y"@),
        ) {
            (Some(x), Some(y)) => Some(UserCoord { x, y }),
            _ => None,
        },
        None => None,
    }
}

/// What a visible-window request returns, as a function of the store and
/// the request: the window as JSON, a bad request for unusable
/// coordinates, or an internal error when the window cannot be read.
pub open spec fn get_gamestate_spec(
    db: Map<Seq<char>, Seq<char>>,
    username: Seq<char>,
    parameters: Option<Seq<(Seq<char>, Seq<char>)>>,
    gid: Seq<char>,
) -> Result<Seq<char>, HttpErrorCode> {
    match params_coord(parameters) {
        None => Err(HttpErrorCode::Error400BadRequest),
        Some(u) => match visible_ok(db, gid, username, u) {
            None => Err(HttpErrorCode::Error500InternalServerError),
            Some((t, us)) => Ok(enc_visible(t, us)),
        },
    }
}

/// The view of an optional parameter list.
pub open spec fn params_view(parameters: Option<Vec<(String, String)>>) -> Option<
    Seq<(Seq<char>, Seq<char>)>,
> {
    match parameters {
        Some(ps) => Some(crate::text::pairs_view(ps@)),
        None => None,
    }
}

/// Reading the visible window is idempotent: the response is a function
/// of the store and the request alone, so two reads with the same
/// coordinates and no intervening write return identical results.  The
/// executable read ties each call's outcome to this function of the
/// store, and its shared-reference store parameter rules out writes.
pub proof fn lemma_gamestate_read_idempotent(
    db: Map<Seq<char>, Seq<char>>,
    username: Seq<char>,
    parameters: Option<Seq<(Seq<char>, Seq<char>)>>,
    gid: Seq<char>,
    r1: Result<Seq<char>, HttpErrorCode>,
    r2: Result<Seq<char>, HttpErrorCode>,
)
    requires
        r1 == get_gamestate_spec(db, username, parameters, gid),
        r2 == get_gamestate_spec(db, username, parameters, gid),
    ensures
        r1 == r2,
{
}

/// Serves a visible-window read: the caller-supplied `x`/`y` parameters
/// select the chunk to read, and the merged window is returned as JSON.
pub fn get_gamestate<D: Database>(
    username: String,
    parameters: Option<Vec<(String, String)>>,
    game_id: String,
    db: &D,
) -> (r: Result<String, HttpError>)
    ensures
        match r {
            Ok(s) => get_gamestate_spec(db.db(), username@, params_view(parameters), game_id@)
                == Ok::<Seq<char>, HttpErrorCode>(s@),
            Err(e) => get_gamestate_spec(db.db(), username@, params_view(parameters), game_id@)
                == Err::<Seq<char>, HttpErrorCode>(e.code),
        },
{
    let parameters = match parameters {
        Some(p) => p,
        None => {
            return Err(
                HttpError {
                    code: HttpErrorCode::Error400BadRequest,
                    message: crate::text::str_to_string(
                        "User coords not supplied in GET gamestate request.",
                    ),
                },
            );
        },
    };
    let user_coord = match crate::coord::get_usercoord_from_params(parameters) {
        Ok(u) => u,
        Err(e) => {
            return Err(e);
        },
    };
    let visible = match get_visible_gamestate(&user_coord, username, &game_id, db) {
        Ok(v) => v,
        Err(e) => {
            return Err(e);
        },
    };
    Ok(encode_visible(&visible))
}

} // verus!
