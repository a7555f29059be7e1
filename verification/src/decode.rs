//! Decoding of a player-list response.  The buffer mixes fixed-width fields
//! with zero-terminated names, so the decoder tracks a running cursor, and
//! every length it trusts is checked against the end of the buffer first:
//! a short buffer yields `Truncated`, never an out-of-bounds read.
//!
//! Layout, after the 4 marker bytes and the header byte:
//! byte 5 is the record count; from byte 6 on, each record is one index
//! byte, the name bytes up to and including a zero terminator, 4 score
//! bytes (skipped), and the 4 little-endian bytes of the duration float.

use vstd::prelude::*;

use crate::player::{Player, PlayerView};
use crate::wire::{le_u32, ProtocolError};

verus! {

/// The position of the first zero byte at or after `i`, if any.
pub open spec fn spec_find_nul(b: Seq<u8>, i: int) -> Option<int>
    decreases b.len() - i,
{
    if i < 0 || i >= b.len() {
        None
    } else if b[i] == 0 {
        Some(i)
    } else {
        spec_find_nul(b, i + 1)
    }
}

/// The meaning of `n` consecutive records starting at cursor `i`: the
/// decoded players in wire order, or `Truncated` as soon as a record would
/// run past the end of the buffer.
pub open spec fn spec_parse_players(b: Seq<u8>, i: int, n: nat) -> Result<
    Seq<PlayerView>,
    ProtocolError,
>
    decreases n,
{
    if n == 0 {
        Ok(Seq::empty())
    } else {
        match spec_find_nul(b, i + 1) {
            None => Err(ProtocolError::Truncated),
            Some(z) => if z + 9 > b.len() {
                Err(ProtocolError::Truncated)
            } else {
                let p = PlayerView {
                    name: b.subrange(i + 1, z),
                    duration_bits: le_u32(b[z + 5], b[z + 6], b[z + 7], b[z + 8]),
                };
                match spec_parse_players(b, z + 9, (n - 1) as nat) {
                    Ok(rest) => Ok(seq![p] + rest),
                    Err(e) => Err(e),
                }
            },
        }
    }
}

/// The meaning of a whole player-list response buffer (the header byte at
/// position 4 has already been inspected by the caller): byte 5 declares the
/// record count, and the records follow from byte 6.
pub open spec fn spec_decode_player_list(b: Seq<u8>) -> Result<Seq<PlayerView>, ProtocolError> {
    if b.len() < 6 {
        Err(ProtocolError::Truncated)
    } else {
        spec_parse_players(b, 6, b[5] as nat)
    }
}

/// The views of a decoded roster, for stating that an executable result
/// matches the specification record for record.
pub open spec fn players_view(r: Result<Vec<Player>, ProtocolError>) -> Result<
    Seq<PlayerView>,
    ProtocolError,
> {
    match r {
        Ok(v) => Ok(v@.map_values(|p: Player| p@)),
        Err(e) => Err(e),
    }
}

/// A partial parse continued by the outcome of the remaining records.
pub open spec fn with_prefix(
    acc: Seq<PlayerView>,
    rest: Result<Seq<PlayerView>, ProtocolError>,
) -> Result<Seq<PlayerView>, ProtocolError> {
    match rest {
        Ok(s) => Ok(acc + s),
        Err(e) => Err(e),
    }
}

/// Decodes the player records of a player-list response buffer.  Returns
/// exactly what [`spec_decode_player_list`] says: the declared number of
/// records in wire order on success, and `Truncated` if and only if the
/// buffer ends before the declared records do.  Never panics and never
/// reads out of bounds, whatever bytes the peer sent.
pub fn decode_player_list(buf: &[u8]) -> (r: Result<Vec<Player>, ProtocolError>)
    ensures
        players_view(r) == spec_decode_player_list(buf@),
{
    if buf.len() < 6 {
        return Err(ProtocolError::Truncated);
    }
    let count = buf[5];
    let mut players: Vec<Player> = Vec::new();
    let mut off: usize = 6;
    let mut k: u8 = 0;
    while k < count
        invariant
            buf@.len() >= 6,
            count == buf@[5],
            6 <= off <= buf@.len(),
            k <= count,
            players@.len() == k,
            spec_decode_player_list(buf@) == with_prefix(
                players@.map_values(|p: Player| p@),
                spec_parse_players(buf@, off as int, (count - k) as nat),
            ),
        decreases count - k,
    {
        let ghost rem: nat = (count - k) as nat;
        let ghost acc: Seq<PlayerView> = players@.map_values(|p: Player| p@);

        // The index byte sits at `off`; the name begins right after it.
        if off >= buf.len() {
            // No room even for the name terminator.
            return Err(ProtocolError::Truncated);
        }
        let mut j: usize = off + 1;
        while j < buf.len() && buf[j] != 0
            invariant
                off + 1 <= j <= buf@.len(),
                spec_find_nul(buf@, off + 1) == spec_find_nul(buf@, j as int),
            decreases buf@.len() - j,
        {
            j = j + 1;
        }
        if j == buf.len() {
            // The buffer ended before the name terminator.
            return Err(ProtocolError::Truncated);
        }
        proof {
            assert(spec_find_nul(buf@, off + 1) == Some(j as int));
        }
        if buf.len() - j < 9 {
            // Index, name and terminator fit, but score or duration do not.
            return Err(ProtocolError::Truncated);
        }
        let ghost off0: int = off as int;
        let name = vstd::slice::slice_to_vec(&buf[off + 1..j]);
        let bits = crate::wire::read_le_u32(buf[j + 5], buf[j + 6], buf[j + 7], buf[j + 8]);
        let p = Player::new(name, bits);
        players.push(p);
        off = j + 9;
        k = k + 1;
        proof {
            let b = buf@;
            let z = j as int;
            assert(p@ == (PlayerView { name: b.subrange(off0 + 1, z), duration_bits: le_u32(b[z + 5], b[z + 6], b[z + 7], b[z + 8]) }));
            assert(players@.map_values(|q: Player| q@) =~= acc.push(p@));
            assert(acc.push(p@) =~= acc + seq![p@]);
            match spec_parse_players(b, off as int, (rem - 1) as nat) {
                Ok(rest) => {
                    assert(acc + (seq![p@] + rest) =~= (acc + seq![p@]) + rest);
                },
                Err(e) => {},
            }
        }
    }
    proof {
        let b = buf@;
        assert(spec_parse_players(b, off as int, 0) == Ok::<Seq<PlayerView>, ProtocolError>(
            Seq::empty(),
        ));
        assert(players@.map_values(|p: Player| p@) + Seq::<PlayerView>::empty() =~= players@.map_values(
            |p: Player| p@,
        ));
    }
    Ok(players)
}

} // verus!
