//! User accounts: registration, login, lookup, and the stored account
//! record.  Password hashing and token issuance are external
//! collaborators, relied on through the trusted items below.

use vstd::prelude::*;
use crate::codec::{
    enc_key, enc_obj, enc_quoted, lemma_p_key, lemma_p_obj, lemma_p_quoted, lemma_ws_stay, p_char,
    p_key, p_obj, p_quoted, parse_sobj_spec, ws,
};
use crate::database::Database;
use crate::http::{HttpError, HttpErrorCode};
use argon2::password_hash::{PasswordHasher, PasswordVerifier};

verus! {

/// A user's membership in one game: the game's id and the id of the
/// chunk the user was last known to be in.
#[derive(Clone, Debug)]
pub struct UserGameInfo {
    pub game_id: String,
    pub chunk_id: String,
}

/// One stored account record.
pub struct UserEntry {
    pub email: String,
    pub hash: String,
    pub salt: String,
    pub current_games: Vec<(String, UserGameInfo)>,
}

/// The mathematical model of an account record.
pub ghost struct EntryModel {
    pub email: Seq<char>,
    pub hash: Seq<char>,
    pub salt: Seq<char>,
    pub games: Seq<(Seq<char>, (Seq<char>, Seq<char>))>,
}

/// The model of an executable game list.
pub open spec fn games_view(g: Seq<(String, UserGameInfo)>) -> Seq<
    (Seq<char>, (Seq<char>, Seq<char>)),
> {
    Seq::new(g.len(), |i: int| (g[i].0@, (g[i].1.game_id@, g[i].1.chunk_id@)))
}

impl UserEntry {
    /// The model of this record.
    pub open spec fn model(&self) -> EntryModel {
        EntryModel {
            email: self.email@,
            hash: self.hash@,
            salt: self.salt@,
            games: games_view(self.current_games@),
        }
    }
}

// ------------------------------------------------------------------
// Stored form
// ------------------------------------------------------------------

/// Encoder of one game-membership value.
pub open spec fn ginfo_ev() -> spec_fn((Seq<char>, Seq<char>)) -> Seq<char> {
    |g: (Seq<char>, Seq<char>)|
        seq!['{'] + enc_key("game_id"@) + enc_quoted(g.0) + seq![','] + enc_key("chunk_id"@)
            + enc_quoted(g.1) + seq!['}']
}

/// Parser of one game-membership value.
pub open spec fn ginfo_pv() -> spec_fn(Seq<char>, int) -> Option<((Seq<char>, Seq<char>), int)> {
    |s: Seq<char>, i: int| p_ginfo(s, i)
}

/// Consumes a `{"game_id":..,"chunk_id":..}` object.
pub open spec fn p_ginfo(s: Seq<char>, i: int) -> Option<((Seq<char>, Seq<char>), int)> {
    match p_char(s, i, '{') {
        None => None,
        Some(j0) => match p_key(s, j0, "game_id"@) {
            None => None,
            Some(j1) => match p_quoted(s, j1) {
                None => None,
                Some((gid, j2)) => match p_char(s, j2, ',') {
                    None => None,
                    Some(j3) => match p_key(s, j3, "chunk_id"@) {
                        None => None,
                        Some(j4) => match p_quoted(s, j4) {
                            None => None,
                            Some((cid, j5)) => match p_char(s, j5, '}') {
                                None => None,
                                Some(j6) => Some(((gid, cid), j6)),
                            },
                        },
                    },
                },
            },
        },
    }
}

/// Canonical stored form of an account record.
pub open spec fn enc_user_entry(m: EntryModel) -> Seq<char> {
    seq!['{'] + enc_key("email"@) + enc_quoted(m.email) + seq![','] + enc_key("hash"@)
        + enc_quoted(m.hash) + seq![','] + enc_key("salt"@) + enc_quoted(m.salt) + seq![',']
        + enc_key("current_games"@) + enc_obj(m.games, ginfo_ev()) + seq!['}']
}

/// Consumes a whole account record.
pub open spec fn p_entry(s: Seq<char>, i: int) -> Option<(EntryModel, int)> {
    match p_char(s, i, '{') {
        None => None,
        Some(j0) => match p_key(s, j0, "email"@) {
            None => None,
            Some(j1) => match p_quoted(s, j1) {
                None => None,
                Some((email, j2)) => match p_char(s, j2, ',') {
                    None => None,
                    Some(j3) => match p_key(s, j3, "hash"@) {
                        None => None,
                        Some(j4) => match p_quoted(s, j4) {
                            None => None,
                            Some((hash, j5)) => match p_char(s, j5, ',') {
                                None => None,
                                Some(j6) => match p_key(s, j6, "salt"@) {
                                    None => None,
                                    Some(j7) => match p_quoted(s, j7) {
                                        None => None,
                                        Some((salt, j8)) => match p_char(s, j8, ',') {
                                            None => None,
                                            Some(j9) => match p_key(s, j9, "current_games"@) {
                                                None => None,
                                                Some(j10) => match p_obj(s, j10, ginfo_pv()) {
                                                    None => None,
                                                    Some((games, j11)) => match p_char(
                                                        s,
                                                        j11,
                                                        '}',
                                                    ) {
                                                        None => None,
                                                        Some(j12) => Some(
                                                            (
                                                                EntryModel {
                                                                    email,
                                                                    hash,
                                                                    salt,
                                                                    games,
                                                                },
                                                                j12,
                                                            ),
                                                        ),
                                                    },
                                                },
                                            },
                                        },
                                    },
                                },
                            },
                        },
                    },
                },
            },
        },
    }
}

/// What a stored account string means: a whole-text parse of one record,
/// with nothing but whitespace after it.
#[verifier::opaque]
pub open spec fn parse_user_entry_spec(s: Seq<char>) -> Option<EntryModel> {
    match p_entry(s, 0) {
        Some((m, j)) => if 0 <= j <= s.len() && ws(s, j) == s.len() {
            Some(m)
        } else {
            None
        },
        None => None,
    }
}

/// One encoded game membership parses back, when followed by a comma or
/// a closing brace.
pub proof fn lemma_p_ginfo(s: Seq<char>, i: int, gid: Seq<char>, cid: Seq<char>)
    requires
        0 <= i,
        i + ginfo_ev()((gid, cid)).len() <= s.len(),
        s.subrange(i, i + ginfo_ev()((gid, cid)).len() as int) == ginfo_ev()((gid, cid)),
    ensures
        p_ginfo(s, i) == Some(((gid, cid), i + ginfo_ev()((gid, cid)).len())),
{
    let e = ginfo_ev()((gid, cid));
    let ekg = enc_key("game_id"@);
    let eg = enc_quoted(gid);
    let ekc = enc_key("chunk_id"@);
    let ec = enc_quoted(cid);
    assert(s[i] == e[0]);
    lemma_ws_stay(s, i);
    let j0 = i + 1;
    assert(s.subrange(j0, j0 + ekg.len() as int) =~= ekg) by {
        assert forall|t: int| 0 <= t < ekg.len() implies s.subrange(j0, j0 + ekg.len() as int)[t]
            == ekg[t] by {
            assert(s[j0 + t] == e[1 + t]);
        }
    }
    lemma_p_key(s, j0, "game_id"@);
    let j1 = j0 + ekg.len() as int;
    assert(s.subrange(j1, j1 + eg.len() as int) =~= eg) by {
        assert forall|t: int| 0 <= t < eg.len() implies s.subrange(j1, j1 + eg.len() as int)[t]
            == eg[t] by {
            assert(s[j1 + t] == e[j1 - i + t]);
        }
    }
    lemma_p_quoted(s, j1, gid);
    let j2 = j1 + eg.len() as int;
    assert(s[j2] == e[j2 - i]);
    assert(s[j2] == ',');
    lemma_ws_stay(s, j2);
    let j3 = j2 + 1;
    assert(s.subrange(j3, j3 + ekc.len() as int) =~= ekc) by {
        assert forall|t: int| 0 <= t < ekc.len() implies s.subrange(j3, j3 + ekc.len() as int)[t]
            == ekc[t] by {
            assert(s[j3 + t] == e[j3 - i + t]);
        }
    }
    lemma_p_key(s, j3, "chunk_id"@);
    let j4 = j3 + ekc.len() as int;
    assert(s.subrange(j4, j4 + ec.len() as int) =~= ec) by {
        assert forall|t: int| 0 <= t < ec.len() implies s.subrange(j4, j4 + ec.len() as int)[t]
            == ec[t] by {
            assert(s[j4 + t] == e[j4 - i + t]);
        }
    }
    lemma_p_quoted(s, j4, cid);
    let j5 = j4 + ec.len() as int;
    assert(s[j5] == e[j5 - i]);
    assert(s[j5] == '}');
    lemma_ws_stay(s, j5);
}

/// The encoded game map parses back, when followed by a comma or a
/// closing brace.
pub proof fn lemma_p_games(s: Seq<char>, i: int, games: Seq<(Seq<char>, (Seq<char>, Seq<char>))>)
    requires
        0 <= i,
        i + enc_obj(games, ginfo_ev()).len() <= s.len(),
        s.subrange(i, i + enc_obj(games, ginfo_ev()).len() as int) == enc_obj(games, ginfo_ev()),
    ensures
        p_obj(s, i, ginfo_pv()) == Some((games, i + enc_obj(games, ginfo_ev()).len())),
{
    assert forall|k: int, i2: int|
        #![trigger ginfo_pv()(s, i2), ginfo_ev()(games[k].1)]
        0 <= k < games.len() && 0 <= i2 && i2 + ginfo_ev()(games[k].1).len() < s.len()
            && s.subrange(i2, i2 + ginfo_ev()(games[k].1).len() as int) == ginfo_ev()(games[k].1)
            && (s[i2 + ginfo_ev()(games[k].1).len()] == ',' || s[i2 + ginfo_ev()(
            games[k].1,
        ).len()] == '}') implies ginfo_pv()(s, i2) == Some(
        (games[k].1, i2 + ginfo_ev()(games[k].1).len()),
    ) by {
        let g = games[k].1;
        lemma_p_ginfo(s, i2, g.0, g.1);
        assert((g.0, g.1) == g);
    }
    lemma_p_obj::<(Seq<char>, Seq<char>)>(s, i, games, ginfo_ev(), ginfo_pv());
}

/// The account parser accepts exactly what the account encoder wrote.
#[verifier::rlimit(60)]
pub proof fn lemma_parse_user_entry_roundtrip(m: EntryModel)
    ensures
        parse_user_entry_spec(enc_user_entry(m)) == Some(m),
{
    reveal(crate::users::parse_user_entry_spec);
    let s = enc_user_entry(m);
    let e = s;
    let eke = enc_key("email"@);
    let ee = enc_quoted(m.email);
    let ekh = enc_key("hash"@);
    let eh = enc_quoted(m.hash);
    let eks = enc_key("salt"@);
    let es = enc_quoted(m.salt);
    let ekg = enc_key("current_games"@);
    let eg = enc_obj(m.games, ginfo_ev());
    assert(s[0] == '{');
    lemma_ws_stay(s, 0);
    let j0 = 1;
    assert(s.subrange(j0, j0 + eke.len() as int) =~= eke) by {
        assert forall|t: int| 0 <= t < eke.len() implies s.subrange(j0, j0 + eke.len() as int)[t]
            == eke[t] by {
            assert(s[j0 + t] == e[1 + t]);
        }
    }
    lemma_p_key(s, j0, "email"@);
    let j1 = j0 + eke.len() as int;
    assert(s.subrange(j1, j1 + ee.len() as int) =~= ee) by {
        assert forall|t: int| 0 <= t < ee.len() implies s.subrange(j1, j1 + ee.len() as int)[t]
            == ee[t] by {
            assert(s[j1 + t] == e[j1 + t]);
        }
    }
    lemma_p_quoted(s, j1, m.email);
    let j2 = j1 + ee.len() as int;
    assert(s[j2] == ',');
    lemma_ws_stay(s, j2);
    let j3 = j2 + 1;
    assert(s.subrange(j3, j3 + ekh.len() as int) =~= ekh) by {
        assert forall|t: int| 0 <= t < ekh.len() implies s.subrange(j3, j3 + ekh.len() as int)[t]
            == ekh[t] by {
            assert(s[j3 + t] == e[j3 + t]);
        }
    }
    lemma_p_key(s, j3, "hash"@);
    let j4 = j3 + ekh.len() as int;
    assert(s.subrange(j4, j4 + eh.len() as int) =~= eh) by {
        assert forall|t: int| 0 <= t < eh.len() implies s.subrange(j4, j4 + eh.len() as int)[t]
            == eh[t] by {
            assert(s[j4 + t] == e[j4 + t]);
        }
    }
    lemma_p_quoted(s, j4, m.hash);
    let j5 = j4 + eh.len() as int;
    assert(s[j5] == ',');
    lemma_ws_stay(s, j5);
    let j6 = j5 + 1;
    assert(s.subrange(j6, j6 + eks.len() as int) =~= eks) by {
        assert forall|t: int| 0 <= t < eks.len() implies s.subrange(j6, j6 + eks.len() as int)[t]
            == eks[t] by {
            assert(s[j6 + t] == e[j6 + t]);
        }
    }
    lemma_p_key(s, j6, "salt"@);
    let j7 = j6 + eks.len() as int;
    assert(s.subrange(j7, j7 + es.len() as int) =~= es) by {
        assert forall|t: int| 0 <= t < es.len() implies s.subrange(j7, j7 + es.len() as int)[t]
            == es[t] by {
            assert(s[j7 + t] == e[j7 + t]);
        }
    }
    lemma_p_quoted(s, j7, m.salt);
    let j8 = j7 + es.len() as int;
    assert(s[j8] == ',');
    lemma_ws_stay(s, j8);
    let j9 = j8 + 1;
    assert(s.subrange(j9, j9 + ekg.len() as int) =~= ekg) by {
        assert forall|t: int| 0 <= t < ekg.len() implies s.subrange(j9, j9 + ekg.len() as int)[t]
            == ekg[t] by {
            assert(s[j9 + t] == e[j9 + t]);
        }
    }
    lemma_p_key(s, j9, "current_games"@);
    let j10 = j9 + ekg.len() as int;
    assert(s.subrange(j10, j10 + eg.len() as int) =~= eg) by {
        assert forall|t: int| 0 <= t < eg.len() implies s.subrange(j10, j10 + eg.len() as int)[t]
            == eg[t] by {
            assert(s[j10 + t] == e[j10 + t]);
        }
    }
    lemma_p_games(s, j10, m.games);
    let j11 = j10 + eg.len() as int;
    assert(s[j11] == '}');
    lemma_ws_stay(s, j11);
    let j12 = j11 + 1;
    assert(j12 == s.len());
    lemma_ws_stay(s, j12);
    assert(p_entry(s, 0) == Some(
        (EntryModel { email: m.email, hash: m.hash, salt: m.salt, games: m.games }, j12),
    ));
    assert(EntryModel { email: m.email, hash: m.hash, salt: m.salt, games: m.games } == m);
}

// ------------------------------------------------------------------
// Executable account codec
// ------------------------------------------------------------------

/// Consumes a `{"game_id":..,"chunk_id":..}` object.
fn p_ginfo_exec(v: &Vec<char>, i: usize) -> (r: Option<(UserGameInfo, usize)>)
    requires
        i <= v.len(),
    ensures
        match r {
            Some((g, j)) => p_ginfo(v@, i as int) == Some(((g.game_id@, g.chunk_id@), j as int))
                && i < j <= v.len(),
            None => p_ginfo(v@, i as int) is None,
        },
{
    let kgv = crate::text::str_to_chars("game_id");
    let kcv = crate::text::str_to_chars("chunk_id");
    let j0 = match crate::codec::p_char_exec(v, i, '{') {
        Some(j) => j,
        None => {
            return None;
        },
    };
    let j1 = match crate::codec::p_key_exec(v, j0, &kgv) {
        Some(j) => j,
        None => {
            return None;
        },
    };
    let (gid, j2) = match crate::codec::p_quoted_exec(v, j1) {
        Some(p) => p,
        None => {
            return None;
        },
    };
    let j3 = match crate::codec::p_char_exec(v, j2, ',') {
        Some(j) => j,
        None => {
            return None;
        },
    };
    let j4 = match crate::codec::p_key_exec(v, j3, &kcv) {
        Some(j) => j,
        None => {
            return None;
        },
    };
    let (cid, j5) = match crate::codec::p_quoted_exec(v, j4) {
        Some(p) => p,
        None => {
            return None;
        },
    };
    let j6 = match crate::codec::p_char_exec(v, j5, '}') {
        Some(j) => j,
        None => {
            return None;
        },
    };
    let g = UserGameInfo {
        game_id: crate::text::chars_to_string(&gid),
        chunk_id: crate::text::chars_to_string(&cid),
    };
    Some((g, j6))
}

/// Consumes one or more comma-separated game memberships up to a closing
/// brace.
fn p_games_items(v: &Vec<char>, i: usize) -> (r: Option<(Vec<(String, UserGameInfo)>, usize)>)
    requires
        i <= v.len(),
    ensures
        match r {
            Some((gs, j)) => crate::codec::p_pairs(v@, i as int, ginfo_pv()) == Some(
                (games_view(gs@), j as int),
            ) && i < j <= v.len(),
            None => crate::codec::p_pairs(v@, i as int, ginfo_pv()) is None,
        },
    decreases v.len() - i,
{
    let (key, j1) = match crate::codec::p_quoted_exec(v, i) {
        Some(p) => p,
        None => {
            return None;
        },
    };
    let j2 = match crate::codec::p_char_exec(v, j1, ':') {
        Some(j) => j,
        None => {
            return None;
        },
    };
    let (g, j3) = match p_ginfo_exec(v, j2) {
        Some(p) => p,
        None => {
            return None;
        },
    };
    let name = crate::text::chars_to_string(&key);
    let k = crate::codec::ws_exec(v, j3);
    if k < v.len() && v[k] == ',' {
        match p_games_items(v, k + 1) {
            Some((mut rest, e)) => {
                rest.insert(0, (name, g));
                proof {
                    assert(games_view(rest@) =~= seq![
                        (rest@[0].0@, (rest@[0].1.game_id@, rest@[0].1.chunk_id@)),
                    ] + games_view(rest@.drop_first()));
                }
                Some((rest, e))
            },
            None => None,
        }
    } else if k < v.len() && v[k] == '}' {
        let mut one: Vec<(String, UserGameInfo)> = Vec::new();
        one.push((name, g));
        proof {
            assert(games_view(one@) =~= seq![
                (one@[0].0@, (one@[0].1.game_id@, one@[0].1.chunk_id@)),
            ]);
        }
        Some((one, k + 1))
    } else {
        None
    }
}

/// Consumes the braced game map.
fn p_games_exec(v: &Vec<char>, i: usize) -> (r: Option<(Vec<(String, UserGameInfo)>, usize)>)
    requires
        i <= v.len(),
    ensures
        match r {
            Some((gs, j)) => p_obj(v@, i as int, ginfo_pv()) == Some(
                (games_view(gs@), j as int),
            ) && i < j <= v.len(),
            None => p_obj(v@, i as int, ginfo_pv()) is None,
        },
{
    let j = match crate::codec::p_char_exec(v, i, '{') {
        Some(j) => j,
        None => {
            return None;
        },
    };
    let k = crate::codec::ws_exec(v, j);
    if k < v.len() && v[k] == '}' {
        let gs: Vec<(String, UserGameInfo)> = Vec::new();
        proof {
            assert(games_view(gs@) =~= Seq::<(Seq<char>, (Seq<char>, Seq<char>))>::empty());
        }
        Some((gs, k + 1))
    } else {
        p_games_items(v, j)
    }
}

/// Reads a stored account string back into a record.  Returns `None`
/// exactly when the text is not a well-formed account record.
pub fn parse_user_entry(s: &str) -> (r: Option<UserEntry>)
    ensures
        match r {
            Some(e) => parse_user_entry_spec(s@) == Some(e.model()),
            None => parse_user_entry_spec(s@) is None,
        },
{
    proof {
        reveal(crate::users::parse_user_entry_spec);
    }
    let v = crate::text::str_to_chars(s);
    let kev = crate::text::str_to_chars("email");
    let khv = crate::text::str_to_chars("hash");
    let ksv = crate::text::str_to_chars("salt");
    let kgv = crate::text::str_to_chars("current_games");
    let j0 = match crate::codec::p_char_exec(&v, 0, '{') {
        Some(j) => j,
        None => {
            return None;
        },
    };
    let j1 = match crate::codec::p_key_exec(&v, j0, &kev) {
        Some(j) => j,
        None => {
            return None;
        },
    };
    let (email, j2) = match crate::codec::p_quoted_exec(&v, j1) {
        Some(p) => p,
        None => {
            return None;
        },
    };
    let j3 = match crate::codec::p_char_exec(&v, j2, ',') {
        Some(j) => j,
        None => {
            return None;
        },
    };
    let j4 = match crate::codec::p_key_exec(&v, j3, &khv) {
        Some(j) => j,
        None => {
            return None;
        },
    };
    let (hash, j5) = match crate::codec::p_quoted_exec(&v, j4) {
        Some(p) => p,
        None => {
            return None;
        },
    };
    let j6 = match crate::codec::p_char_exec(&v, j5, ',') {
        Some(j) => j,
        None => {
            return None;
        },
    };
    let j7 = match crate::codec::p_key_exec(&v, j6, &ksv) {
        Some(j) => j,
        None => {
            return None;
        },
    };
    let (salt, j8) = match crate::codec::p_quoted_exec(&v, j7) {
        Some(p) => p,
        None => {
            return None;
        },
    };
    let j9 = match crate::codec::p_char_exec(&v, j8, ',') {
        Some(j) => j,
        None => {
            return None;
        },
    };
    let j10 = match crate::codec::p_key_exec(&v, j9, &kgv) {
        Some(j) => j,
        None => {
            return None;
        },
    };
    let (games, j11) = match p_games_exec(&v, j10) {
        Some(p) => p,
        None => {
            return None;
        },
    };
    let j12 = match crate::codec::p_char_exec(&v, j11, '}') {
        Some(j) => j,
        None => {
            return None;
        },
    };
    let j13 = crate::codec::ws_exec(&v, j12);
    if j13 != v.len() {
        return None;
    }
    let e = UserEntry {
        email: crate::text::chars_to_string(&email),
        hash: crate::text::chars_to_string(&hash),
        salt: crate::text::chars_to_string(&salt),
        current_games: games,
    };
    proof {
        assert(e.model() =~~= p_entry(s@, 0).unwrap().0);
    }
    Some(e)
}

/// Appends one encoded game membership pair list, from index `k` on.
fn push_games_items(out: &mut Vec<char>, gs: &Vec<(String, UserGameInfo)>, k: usize)
    requires
        k < gs.len(),
    ensures
        final(out)@ == old(out)@ + crate::codec::enc_pairs_from(games_view(gs@), k as int, ginfo_ev()),
    decreases gs.len() - k,
{
    let kgv = crate::text::str_to_chars("game_id");
    let kcv = crate::text::str_to_chars("chunk_id");
    let name = crate::text::str_to_chars(gs[k].0.as_str());
    crate::codec::push_quoted(out, &name);
    out.push(':');
    out.push('{');
    crate::codec::push_key(out, &kgv);
    let gv = crate::text::str_to_chars(gs[k].1.game_id.as_str());
    crate::codec::push_quoted(out, &gv);
    out.push(',');
    crate::codec::push_key(out, &kcv);
    let cv = crate::text::str_to_chars(gs[k].1.chunk_id.as_str());
    crate::codec::push_quoted(out, &cv);
    out.push('}');
    if k + 1 < gs.len() {
        out.push(',');
        push_games_items(out, gs, k + 1);
    }
    proof {
        assert(games_view(gs@)[k as int] == (gs@[k as int].0@, (gs@[k as int].1.game_id@, gs@[
            k as int].1.chunk_id@)));
        assert(ginfo_ev()(games_view(gs@)[k as int].1) =~= seq!['{'] + enc_key("game_id"@)
            + enc_quoted(gs@[k as int].1.game_id@) + seq![','] + enc_key("chunk_id"@) + enc_quoted(
            gs@[k as int].1.chunk_id@,
        ) + seq!['}']);
        assert(out@ =~= old(out)@ + crate::codec::enc_pairs_from(
            games_view(gs@),
            k as int,
            ginfo_ev(),
        ));
    }
}

/// Renders an account record into its canonical stored form.
pub fn encode_user_entry(e: &UserEntry) -> (s: String)
    ensures
        s@ == enc_user_entry(e.model()),
{
    let kev = crate::text::str_to_chars("email");
    let khv = crate::text::str_to_chars("hash");
    let ksv = crate::text::str_to_chars("salt");
    let kgv = crate::text::str_to_chars("current_games");
    let mut out: Vec<char> = Vec::new();
    out.push('{');
    crate::codec::push_key(&mut out, &kev);
    let ev = crate::text::str_to_chars(e.email.as_str());
    crate::codec::push_quoted(&mut out, &ev);
    out.push(',');
    crate::codec::push_key(&mut out, &khv);
    let hv = crate::text::str_to_chars(e.hash.as_str());
    crate::codec::push_quoted(&mut out, &hv);
    out.push(',');
    crate::codec::push_key(&mut out, &ksv);
    let sv = crate::text::str_to_chars(e.salt.as_str());
    crate::codec::push_quoted(&mut out, &sv);
    out.push(',');
    crate::codec::push_key(&mut out, &kgv);
    out.push('{');
    if e.current_games.len() > 0 {
        push_games_items(&mut out, &e.current_games, 0);
    }
    out.push('}');
    out.push('}');
    proof {
        assert(out@ =~= enc_user_entry(e.model()));
    }
    crate::text::chars_to_string(&out)
}

// ------------------------------------------------------------------
// The password collaborator
// ------------------------------------------------------------------

/// The salted, memory-hard hash that the password collaborator computes
/// for a password and a salt; a function of the two alone.
pub uninterp spec fn hash_of(password: Seq<char>, salt: Seq<char>) -> Seq<char>;

/// Whether the password collaborator accepts `password` against a stored
/// hash string; a function of the two alone.
pub uninterp spec fn password_verifies(password: Seq<char>, hash: Seq<char>) -> bool;

/// Whether the password collaborator accepts a salt string for hashing;
/// a function of the salt alone (the password never makes hashing fail).
pub uninterp spec fn salt_accepted(salt: Seq<char>) -> bool;

/// Relies on `password_hash::SaltString::generate` over the operating
/// system's randomness: a fresh salt.  Nothing is promised of the drawn
/// value itself, but every generated salt is accepted for hashing: it is
/// the unpadded B64 form of sixteen bytes, which is within the salt
/// length bounds and character class that `Salt::from_b64` checks,
/// decodes back to those sixteen bytes, and sixteen bytes satisfy the
/// salt length bounds of the hash function itself.
#[verifier::external_body]
fn generate_salt() -> (r: String)
    ensures
        salt_accepted(r@),
{
    argon2::password_hash::SaltString::generate(&mut rand_core::OsRng).to_string()
}

/// Relies on `argon2::Argon2::hash_password` with the default parameters:
/// the PHC hash string is a deterministic function of the password and
/// the salt, verifying that password against it succeeds, and hashing
/// fails only on a salt the collaborator rejects (any password of any
/// length is hashed).
#[verifier::external_body]
fn hash_password(password: &str, salt: &str) -> (r: Option<String>)
    ensures
        r matches Some(h) ==> h@ == hash_of(password@, salt@) && password_verifies(
            password@,
            hash_of(password@, salt@),
        ),
        salt_accepted(salt@) ==> r is Some,
{
    match argon2::password_hash::Salt::from_b64(salt) {
        Ok(s) => match argon2::Argon2::default().hash_password(password.as_bytes(), s) {
            Ok(h) => Some(h.to_string()),
            Err(_) => None,
        },
        Err(_) => None,
    }
}

/// Relies on `argon2::Argon2::verify_password` against a parsed PHC hash
/// string: acceptance is a deterministic function of the password and
/// the hash string (which embeds its own salt and parameters).
#[verifier::external_body]
fn verify_password(password: &str, hash: &str) -> (r: bool)
    ensures
        r == password_verifies(password@, hash@),
{
    match argon2::password_hash::PasswordHash::new(hash) {
        Ok(parsed) => argon2::Argon2::default().verify_password(
            password.as_bytes(),
            &parsed,
        ).is_ok(),
        Err(_) => false,
    }
}

// ------------------------------------------------------------------
// Handlers
// ------------------------------------------------------------------

/// The shared token secret.
fn token_secret() -> (s: String)
    ensures
        s@ == "test"@,
{
    crate::text::str_to_string("test")
}

/// The JSON body carrying a fresh access token.
pub open spec fn token_body(token: Seq<char>) -> Seq<char> {
    seq!['{'] + enc_key("access_token"@) + enc_quoted(token) + seq!['}']
}

/// Renders the JSON body carrying a fresh access token.
fn encode_token_body(token: &str) -> (s: String)
    ensures
        s@ == token_body(token@),
{
    let kv = crate::text::str_to_chars("access_token");
    let tv = crate::text::str_to_chars(token);
    let mut out: Vec<char> = Vec::new();
    out.push('{');
    crate::codec::push_key(&mut out, &kv);
    crate::codec::push_quoted(&mut out, &tv);
    out.push('}');
    proof {
        assert(out@ =~= token_body(token@));
    }
    crate::text::chars_to_string(&out)
}

/// The username, email and password named in a registration body.
pub open spec fn create_user_fields(body: Seq<char>) -> Option<(Seq<char>, Seq<char>, Seq<char>)> {
    match parse_sobj_spec(body) {
        Some(ps) => match (
            crate::text::pair_lookup(ps, "username"@),
            crate::text::pair_lookup(ps, "email"@),
            crate::text::pair_lookup(ps, "password"@),
        ) {
            (Some(u), Some(e), Some(p)) => Some((u, e, p)),
            _ => None,
        },
        None => None,
    }
}

/// A handler result reduced to its observable parts: the body text on
/// success, the error kind and message otherwise.
pub open spec fn abs_result(r: Result<String, HttpError>) -> Result<
    Seq<char>,
    (HttpErrorCode, Seq<char>),
> {
    match r {
        Ok(s) => Ok(s@),
        Err(e) => Err((e.code, e.message@)),
    }
}

/// What a registration does, as a function of the store, the request
/// body, the generated salt, and the clock: the response text and the
/// store afterwards.
pub open spec fn create_user_trans(
    db: Map<Seq<char>, Seq<char>>,
    body: Seq<char>,
    salt: Seq<char>,
    now: u64,
) -> (Result<Seq<char>, HttpErrorCode>, Map<Seq<char>, Seq<char>>) {
    match create_user_fields(body) {
        None => (Err(HttpErrorCode::Error400BadRequest), db),
        Some((username, email, password)) => {
            if db.contains_key(username) {
                (Err(HttpErrorCode::Error409Conflict), db)
            } else {
                let entry = EntryModel {
                    email,
                    hash: hash_of(password, salt),
                    salt,
                    games: Seq::empty(),
                };
                let token = crate::jwt::jwt_token_of(
                    username,
                    crate::jwt::day_after(now),
                    "test"@,
                );
                (Ok(token_body(token)), db.insert(username, enc_user_entry(entry)))
            }
        },
    }
}

/// Everything a registration is answerable for, relating the store
/// before and after to the observable result: on success, the outcome of
/// the registration transition for some generated salt and some reading
/// of the clock, with a stored hash that verifies the registered
/// password; on failure, the transition's error for every salt and
/// clock, with the store untouched.
pub open spec fn create_user_post(
    dbo: Map<Seq<char>, Seq<char>>,
    dbn: Map<Seq<char>, Seq<char>>,
    body: Seq<char>,
    a: Result<Seq<char>, (HttpErrorCode, Seq<char>)>,
) -> bool {
    match a {
        Ok(s) => exists|salt: Seq<char>, now: u64|
            #![auto]
            create_user_trans(dbo, body, salt, now).0 == Ok::<Seq<char>, HttpErrorCode>(s) && dbn
                == create_user_trans(dbo, body, salt, now).1 && (match create_user_fields(body) {
                Some((u, e, p)) => password_verifies(p, hash_of(p, salt)),
                None => false,
            }),
        Err((c, _)) => dbn == dbo && (forall|salt: Seq<char>, now: u64|
            #![auto]
            create_user_trans(dbo, body, salt, now).0 == Err::<Seq<char>, HttpErrorCode>(c)),
    }
}

/// Registers a new user: the body must name a username, an email and a
/// password; a duplicate username is a conflict and leaves the store
/// unchanged; on success the account record is stored under the username
/// and a fresh token is returned.
pub fn create_user<D: Database>(body: String, db: &mut D) -> (r: Result<String, HttpError>)
    ensures
        create_user_post(old(db).db(), final(db).db(), body@, abs_result(r)),
{
    let fields = match crate::codec::parse_sobj(body.as_str()) {
        Some(ps) => ps,
        None => {
            return Err(bad_body("Create user request body has invalid format."));
        },
    };
    let username = match crate::text::pairs_find(&fields, "username") {
        Some(u) => u,
        None => {
            return Err(bad_body("Create user request body has invalid format."));
        },
    };
    let email = match crate::text::pairs_find(&fields, "email") {
        Some(e) => e,
        None => {
            return Err(bad_body("Create user request body has invalid format."));
        },
    };
    let password = match crate::text::pairs_find(&fields, "password") {
        Some(p) => p,
        None => {
            return Err(bad_body("Create user request body has invalid format."));
        },
    };
    if match db.get(username.as_str()) {
        Some(_) => true,
        None => false,
    } {
        return Err(
            HttpError {
                code: HttpErrorCode::Error409Conflict,
                message: crate::text::str_to_string("User already exists."),
            },
        );
    }
    let salt = generate_salt();
    // A generated salt is always accepted for hashing, so the failure arm
    // below cannot be reached; it stays as a defensive error.
    let hash = match hash_password(password.as_str(), salt.as_str()) {
        Some(h) => h,
        None => {
            return Err(
                HttpError {
                    code: HttpErrorCode::Error500InternalServerError,
                    message: crate::text::str_to_string("Password hashing failed."),
                },
            );
        },
    };
    let ghost uname = username@;
    let ghost mail = email@;
    let ghost pw = password@;
    let ghost saltv = salt@;
    let entry = UserEntry { email, hash, salt, current_games: Vec::new() };
    proof {
        assert(entry.model().games =~= Seq::<(Seq<char>, (Seq<char>, Seq<char>))>::empty());
    }
    let encoded = encode_user_entry(&entry);
    db.set(username.clone(), encoded);
    let secret = token_secret();
    let token = crate::jwt::create_jwt(username.as_str(), &secret);
    let rsp = encode_token_body(token.as_str());
    proof {
        let now0 = choose|now: u64|
            token@ == crate::jwt::jwt_token_of(uname, crate::jwt::day_after(now), "test"@);
        let t = create_user_trans(old(db).db(), body@, saltv, now0);
        assert(create_user_fields(body@) == Some((uname, mail, pw)));
        assert(entry.model() == (EntryModel {
            email: mail,
            hash: crate::users::hash_of(pw, saltv),
            salt: saltv,
            games: Seq::<(Seq<char>, (Seq<char>, Seq<char>))>::empty(),
        }));
        assert(t.0 == Ok::<Seq<char>, HttpErrorCode>(rsp@));
        assert(db.db() == t.1);
    }
    Ok(rsp)
}

/// A malformed request body.
fn bad_body(msg: &str) -> (r: HttpError)
    ensures
        r.code == HttpErrorCode::Error400BadRequest,
{
    HttpError {
        code: HttpErrorCode::Error400BadRequest,
        message: crate::text::str_to_string(msg),
    }
}

/// The username and password named in a login body.
pub open spec fn login_fields(body: Seq<char>) -> Option<(Seq<char>, Seq<char>)> {
    match parse_sobj_spec(body) {
        Some(ps) => match (
            crate::text::pair_lookup(ps, "username"@),
            crate::text::pair_lookup(ps, "password"@),
        ) {
            (Some(u), Some(p)) => Some((u, p)),
            _ => None,
        },
        None => None,
    }
}

/// What a login returns, as a function of the store, the request body
/// and the clock.  The store is never written.
pub open spec fn login_spec(db: Map<Seq<char>, Seq<char>>, body: Seq<char>, now: u64) -> Result<
    Seq<char>,
    HttpErrorCode,
> {
    match login_fields(body) {
        None => Err(HttpErrorCode::Error400BadRequest),
        Some((username, password)) => {
            if !db.contains_key(username) {
                Err(HttpErrorCode::Error401Unauthorized)
            } else {
                match parse_user_entry_spec(db[username]) {
                    None => Err(HttpErrorCode::Error500InternalServerError),
                    Some(entry) => if password_verifies(password, entry.hash) {
                        Ok(
                            token_body(
                                crate::jwt::jwt_token_of(
                                    username,
                                    crate::jwt::day_after(now),
                                    "test"@,
                                ),
                            ),
                        )
                    } else {
                        Err(HttpErrorCode::Error401Unauthorized)
                    },
                }
            }
        },
    }
}

/// Logs a user in: with the correct password a fresh token is returned;
/// a wrong password or an unknown username is unauthorized; a malformed
/// body is a bad request.
pub fn login<D: Database>(body: String, db: &D) -> (r: Result<String, HttpError>)
    ensures
        match r {
            Ok(s) => exists|now: u64| login_spec(db.db(), body@, now) == Ok::<
                Seq<char>,
                HttpErrorCode,
            >(s@),
            Err(e) => forall|now: u64|
                login_spec(db.db(), body@, now) == Err::<Seq<char>, HttpErrorCode>(e.code),
        },
{
    let fields = match crate::codec::parse_sobj(body.as_str()) {
        Some(ps) => ps,
        None => {
            return Err(bad_body("Login request body has invalid format."));
        },
    };
    let username = match crate::text::pairs_find(&fields, "username") {
        Some(u) => u,
        None => {
            return Err(bad_body("Login request body has invalid format."));
        },
    };
    let password = match crate::text::pairs_find(&fields, "password") {
        Some(p) => p,
        None => {
            return Err(bad_body("Login request body has invalid format."));
        },
    };
    let stored = match db.get(username.as_str()) {
        Some(s) => s,
        None => {
            return Err(
                HttpError {
                    code: HttpErrorCode::Error401Unauthorized,
                    message: crate::text::str_to_string("User doesn't exist"),
                },
            );
        },
    };
    let entry = match parse_user_entry(stored.as_str()) {
        Some(e) => e,
        None => {
            return Err(
                HttpError {
                    code: HttpErrorCode::Error500InternalServerError,
                    message: crate::text::str_to_string("Stored user entry is malformed."),
                },
            );
        },
    };
    if verify_password(password.as_str(), entry.hash.as_str()) {
        let secret = token_secret();
        let token = crate::jwt::create_jwt(username.as_str(), &secret);
        let rsp = encode_token_body(token.as_str());
        proof {
            let now0 = choose|now: u64|
                token@ == crate::jwt::jwt_token_of(username@, crate::jwt::day_after(now), "test"@);
            assert(login_spec(db.db(), body@, now0) == Ok::<Seq<char>, HttpErrorCode>(rsp@));
        }
        Ok(rsp)
    } else {
        Err(
            HttpError {
                code: HttpErrorCode::Error401Unauthorized,
                message: crate::text::str_to_string("Password incorrect"),
            },
        )
    }
}

/// The stored account record of `username`, as the store holds it.
pub open spec fn user_entry_of(db: Map<Seq<char>, Seq<char>>, username: Seq<char>) -> Option<
    EntryModel,
> {
    if db.contains_key(username) {
        parse_user_entry_spec(db[username])
    } else {
        None
    }
}

/// Reads a user's account record from the store.
fn get_user_raw<D: Database>(username: &str, db: &D) -> (r: Result<UserEntry, HttpError>)
    ensures
        match r {
            Ok(e) => user_entry_of(db.db(), username@) == Some(e.model()),
            Err(e) => match e.code {
                HttpErrorCode::Error404NotFround => !db.db().contains_key(username@),
                HttpErrorCode::Error500InternalServerError => user_entry_of(
                    db.db(),
                    username@,
                ) is None && db.db().contains_key(username@),
                _ => false,
            },
        },
{
    let stored = match db.get(username) {
        Some(s) => s,
        None => {
            return Err(
                HttpError {
                    code: HttpErrorCode::Error404NotFround,
                    message: crate::text::str_to_string("User doesn't exist"),
                },
            );
        },
    };
    match parse_user_entry(stored.as_str()) {
        Some(e) => Ok(e),
        None => Err(
            HttpError {
                code: HttpErrorCode::Error500InternalServerError,
                message: crate::text::str_to_string("Stored user entry is malformed."),
            },
        ),
    }
}

/// The public JSON view of an account: only the username and email.
pub open spec fn pub_user_info(username: Seq<char>, email: Seq<char>) -> Seq<char> {
    seq!['{'] + enc_key("username"@) + enc_quoted(username) + seq![','] + enc_key("email"@)
        + enc_quoted(email) + seq!['}']
}

/// What a user lookup returns, as a function of the store.
pub open spec fn get_user_spec(db: Map<Seq<char>, Seq<char>>, username: Seq<char>) -> Result<
    Seq<char>,
    HttpErrorCode,
> {
    if !db.contains_key(username) {
        Err(HttpErrorCode::Error404NotFround)
    } else {
        match parse_user_entry_spec(db[username]) {
            None => Err(HttpErrorCode::Error500InternalServerError),
            Some(entry) => Ok(pub_user_info(username, entry.email)),
        }
    }
}

/// Serves the public view of a user's account: the username and the
/// email, never the credentials.
pub fn get_user<D: Database>(username: String, db: &D) -> (r: Result<String, HttpError>)
    ensures
        match r {
            Ok(s) => get_user_spec(db.db(), username@) == Ok::<Seq<char>, HttpErrorCode>(s@),
            Err(e) => get_user_spec(db.db(), username@) == Err::<Seq<char>, HttpErrorCode>(e.code),
        },
{
    let user_info = match get_user_raw(username.as_str(), db) {
        Ok(e) => e,
        Err(e) => {
            return Err(e);
        },
    };
    let kuv = crate::text::str_to_chars("username");
    let kev = crate::text::str_to_chars("email");
    let uv = crate::text::str_to_chars(username.as_str());
    let ev = crate::text::str_to_chars(user_info.email.as_str());
    let mut out: Vec<char> = Vec::new();
    out.push('{');
    crate::codec::push_key(&mut out, &kuv);
    crate::codec::push_quoted(&mut out, &uv);
    out.push(',');
    crate::codec::push_key(&mut out, &kev);
    crate::codec::push_quoted(&mut out, &ev);
    out.push('}');
    proof {
        assert(out@ =~= pub_user_info(username@, user_info.model().email));
    }
    Ok(crate::text::chars_to_string(&out))
}

/// What a current-game lookup yields, as a function of the store: the
/// game id and chunk id recorded for `game`, if the user exists and has
/// one.
pub open spec fn curr_game_spec(
    db: Map<Seq<char>, Seq<char>>,
    username: Seq<char>,
    game: Seq<char>,
) -> Result<Option<(Seq<char>, Seq<char>)>, HttpErrorCode> {
    if !db.contains_key(username) {
        Err(HttpErrorCode::Error404NotFround)
    } else {
        match parse_user_entry_spec(db[username]) {
            None => Err(HttpErrorCode::Error500InternalServerError),
            Some(entry) => Ok(crate::text::pair_lookup(entry.games, game)),
        }
    }
}

/// Looks up the game membership recorded for `username` under the game
/// type `game`.
#[verifier::loop_isolation(false)]
pub fn get_user_curr_game_info<D: Database>(username: &str, db: &D, game: &str) -> (r: Result<
    Option<UserGameInfo>,
    HttpError,
>)
    ensures
        match r {
            Ok(Some(g)) => curr_game_spec(db.db(), username@, game@) == Ok::<
                Option<(Seq<char>, Seq<char>)>,
                HttpErrorCode,
            >(Some((g.game_id@, g.chunk_id@))),
            Ok(None) => curr_game_spec(db.db(), username@, game@) == Ok::<
                Option<(Seq<char>, Seq<char>)>,
                HttpErrorCode,
            >(None),
            Err(e) => curr_game_spec(db.db(), username@, game@) == Err::<
                Option<(Seq<char>, Seq<char>)>,
                HttpErrorCode,
            >(e.code),
        },
{
    let user_info = match get_user_raw(username, db) {
        Ok(e) => e,
        Err(e) => {
            return Err(e);
        },
    };
    let ghost gv = games_view(user_info.current_games@);
    let mut i: usize = 0;
    while i < user_info.current_games.len()
        invariant
            0 <= i <= user_info.current_games@.len(),
            gv == games_view(user_info.current_games@),
            forall|j: int| 0 <= j < i ==> (#[trigger] gv[j]).0 != game@,
        decreases user_info.current_games.len() - i,
    {
        if crate::text::str_eq(user_info.current_games[i].0.as_str(), game) {
            proof {
                crate::text::lemma_pair_index_found(gv, game@, i as int);
            }
            let g = UserGameInfo {
                game_id: user_info.current_games[i].1.game_id.clone(),
                chunk_id: user_info.current_games[i].1.chunk_id.clone(),
            };
            proof {
                assert((g.game_id@, g.chunk_id@) == gv[i as int].1);
            }
            return Ok(Some(g));
        }
        i += 1;
    }
    proof {
        crate::text::lemma_pair_index_none(gv, game@);
    }
    Ok(None)
}

// ------------------------------------------------------------------
// Laws
// ------------------------------------------------------------------

/// Creating the same username twice is a conflict on the second
/// attempt, and the failed attempt leaves the store exactly as it was.
pub proof fn lemma_duplicate_create_user(
    db: Map<Seq<char>, Seq<char>>,
    body: Seq<char>,
    salt: Seq<char>,
    now: u64,
    username: Seq<char>,
    email: Seq<char>,
    password: Seq<char>,
)
    requires
        create_user_fields(body) == Some((username, email, password)),
        db.contains_key(username),
    ensures
        create_user_trans(db, body, salt, now).0 == Err::<Seq<char>, HttpErrorCode>(
            HttpErrorCode::Error409Conflict,
        ),
        create_user_trans(db, body, salt, now).1 == db,
{
}

/// Registration then login: after creating a user, logging in with the
/// same username and the correct password returns a fresh token.  The
/// connection between the password and the stored hash is the password
/// collaborator's guarantee, taken as a premise.
pub proof fn lemma_register_then_login(
    db: Map<Seq<char>, Seq<char>>,
    body: Seq<char>,
    body2: Seq<char>,
    salt: Seq<char>,
    now: u64,
    now2: u64,
    username: Seq<char>,
    email: Seq<char>,
    password: Seq<char>,
)
    requires
        create_user_fields(body) == Some((username, email, password)),
        login_fields(body2) == Some((username, password)),
        !db.contains_key(username),
        password_verifies(password, hash_of(password, salt)),
    ensures
        login_spec(create_user_trans(db, body, salt, now).1, body2, now2) == Ok::<
            Seq<char>,
            HttpErrorCode,
        >(token_body(crate::jwt::jwt_token_of(username, crate::jwt::day_after(now2), "test"@))),
{
    let entry = EntryModel {
        email,
        hash: hash_of(password, salt),
        salt,
        games: Seq::empty(),
    };
    let db2 = create_user_trans(db, body, salt, now).1;
    assert(db2 == db.insert(username, enc_user_entry(entry)));
    assert(db2.contains_key(username));
    assert(db2[username] == enc_user_entry(entry));
    lemma_parse_user_entry_roundtrip(entry);
}

} // verus!
