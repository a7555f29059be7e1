//! Wire-level building blocks of the A2S_PLAYER query protocol: the error
//! kinds, the header bytes, little-endian integer views of raw bytes, and the
//! encoding of the 9-byte player-list request.

use vstd::prelude::*;

verus! {

/// Every way a query can fail, apart from transport-level I/O (which the
/// unverified transport reports on its own).
#[derive(Clone, Copy, Debug, PartialEq, Eq, Structural)]
pub enum ProtocolError {
    /// The buffer ended before the format said it would.
    Truncated,
    /// Byte 4 of a response was neither a challenge nor a player-list header.
    UnexpectedHeader,
    /// The retry cap was exhausted without a player-list response.
    NoResponse,
}

/// Header byte of an outgoing player-list request.
pub const A2S_PLAYER_HEADER: u8 = 0x55;

/// Header byte of an incoming player-list response.
pub const A2S_PLAYER_RESPONSE_HEADER: u8 = 0x44;

/// Header byte of an incoming challenge response.
pub const CHALLENGE_RESPONSE_HEADER: u8 = 0x41;

/// The unsigned 32-bit value that four little-endian bytes spell.
pub open spec fn le_u32(b0: u8, b1: u8, b2: u8, b3: u8) -> u32 {
    b0 as u32 | (b1 as u32) << 8u32 | (b2 as u32) << 16u32 | (b3 as u32) << 24u32
}

/// The signed 32-bit value that four little-endian bytes spell
/// (two's complement).
pub open spec fn le_i32(b0: u8, b1: u8, b2: u8, b3: u8) -> i32 {
    le_u32(b0, b1, b2, b3) as i32
}

/// The four little-endian bytes of a challenge token.
pub open spec fn challenge_bytes(c: i32) -> Seq<u8> {
    seq![
        (c as u32 & 0xff) as u8,
        ((c as u32 >> 8u32) & 0xff) as u8,
        ((c as u32 >> 16u32) & 0xff) as u8,
        ((c as u32 >> 24u32) & 0xff) as u8,
    ]
}

/// The full 9-byte player-list request: the simple-response marker, the
/// request header, then the challenge token in little-endian order.
pub open spec fn request_bytes(c: i32) -> Seq<u8> {
    seq![0xffu8, 0xffu8, 0xffu8, 0xffu8, A2S_PLAYER_HEADER] + challenge_bytes(c)
}

/// Reads an unsigned 32-bit integer from four little-endian bytes.
pub fn read_le_u32(b0: u8, b1: u8, b2: u8, b3: u8) -> (r: u32)
    ensures
        r == le_u32(b0, b1, b2, b3),
{
    b0 as u32 | (b1 as u32) << 8u32 | (b2 as u32) << 16u32 | (b3 as u32) << 24u32
}

/// Reads a signed 32-bit integer from four little-endian bytes.
pub fn read_le_i32(b0: u8, b1: u8, b2: u8, b3: u8) -> (r: i32)
    ensures
        r == le_i32(b0, b1, b2, b3),
{
    #[verifier::truncate]
    (read_le_u32(b0, b1, b2, b3) as i32)
}

/// Encodes a player-list request that echoes the given challenge token.
/// Always succeeds and always yields exactly 9 bytes.
pub fn encode_player_request(challenge: i32) -> (r: Vec<u8>)
    ensures
        r@ == request_bytes(challenge),
{
    #[verifier::truncate]
    let v: u32 = (challenge as u32);
    let mut r: Vec<u8> = Vec::new();
    r.push(0xff);
    r.push(0xff);
    r.push(0xff);
    r.push(0xff);
    r.push(A2S_PLAYER_HEADER);
    r.push(#[verifier::truncate] ((v & 0xff) as u8));
    r.push(#[verifier::truncate] (((v >> 8u32) & 0xff) as u8));
    r.push(#[verifier::truncate] (((v >> 16u32) & 0xff) as u8));
    r.push(#[verifier::truncate] (((v >> 24u32) & 0xff) as u8));
    proof {
        assert(r@ =~= request_bytes(challenge));
    }
    r
}

/// Law: decoding the four challenge bytes of an encoded request gives back
/// the challenge that was encoded, for every 32-bit token.
pub proof fn lemma_challenge_round_trip(c: i32)
    ensures
        le_i32(
            request_bytes(c)[5],
            request_bytes(c)[6],
            request_bytes(c)[7],
            request_bytes(c)[8],
        ) == c,
{
    let v = c as u32;
    assert({
        let b0 = (v & 0xff) as u8;
        let b1 = ((v >> 8u32) & 0xff) as u8;
        let b2 = ((v >> 16u32) & 0xff) as u8;
        let b3 = ((v >> 24u32) & 0xff) as u8;
        (b0 as u32 | (b1 as u32) << 8u32 | (b2 as u32) << 16u32 | (b3 as u32) << 24u32) == v
    }) by (bit_vector);
    assert((c as u32) as i32 == c) by (bit_vector);
}

} // verus!
