//! The chunk-based multiplayer movement game: game creation, visible
//! window reads, and move handling, over the key-value store.

use vstd::prelude::*;

verus! {

/// Side length of one square chunk.  It is odd, so every chunk has an
/// exact center cell.
pub const CHUNK_LENGTH: usize = 9;

/// The key prefix under which this game stores its chunks.
pub open spec fn game_name() -> Seq<char> {
    "rrr-game"@
}

/// Key of a chunk record in the store: `rrr-game:<game-id>:<chunk-id>`.
pub open spec fn chunk_key(game_id: Seq<char>, chunk_id: Seq<char>) -> Seq<char> {
    game_name() + seq![':'] + game_id + seq![':'] + chunk_id
}

/// Builds the store key of a chunk record.
pub fn make_chunk_key(game_id: &str, chunk_id: &str) -> (s: String)
    ensures
        s@ == chunk_key(game_id@, chunk_id@),
{
    let mut out: Vec<char> = Vec::new();
    crate::text::push_str_chars(&mut out, "rrr-game");
    out.push(':');
    crate::text::push_str_chars(&mut out, game_id);
    out.push(':');
    crate::text::push_str_chars(&mut out, chunk_id);
    proof {
        assert(out@ =~= chunk_key(game_id@, chunk_id@));
    }
    crate::text::chars_to_string(&out)
}

} // verus!
