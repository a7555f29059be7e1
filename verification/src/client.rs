//! The challenge-handshake state machine of the protocol client.
//!
//! The client caches at most one challenge token per instance; the token is
//! replaced only as one atomic unit when a complete, validated challenge
//! packet arrives.  A query is a bounded loop that an unverified driver
//! runs: it sends the bytes [`Client::begin_query`] yields, then feeds every
//! received packet to [`Client::on_packet`] and performs the step it
//! returns, until the step is `Done` or `Fail`.  The iteration cap makes
//! the loop terminate even against a misbehaving peer.

use vstd::prelude::*;

use crate::decode::{decode_player_list, spec_decode_player_list};
use crate::player::Player;
use crate::wire::{
    encode_player_request, le_i32, read_le_i32, request_bytes, ProtocolError,
    A2S_PLAYER_RESPONSE_HEADER, CHALLENGE_RESPONSE_HEADER,
};

verus! {

/// How many packets a single query may consume before it gives up with
/// `NoResponse`.
pub const DEFAULT_RETRY_CAP: u32 = 50;

/// What the driver of a query loop must do next.
pub enum Step {
    /// Send these bytes to the remote and wait for the next packet.
    Resend(Vec<u8>),
    /// Drop the packet and wait for the next one without resending.
    Discard,
    /// The query is over; here is the roster, in wire order.
    Done(Vec<Player>),
    /// The query failed; do not retry within this call.
    Fail(ProtocolError),
}

/// The protocol client's state: the cached challenge token and the budget
/// of the query in progress.
pub struct Client {
    /// The cached challenge token; `-1` asks the server for a fresh one.
    pub challenge: i32,
    /// How many received packets one query may look at.
    pub retry_cap: u32,
    /// How many more packets the query in progress may look at.
    pub tries_left: u32,
}

impl Client {
    /// A fresh client with no cached token and the default retry cap.
    pub fn new() -> (c: Client)
        ensures
            c.challenge == -1i32,
            c.retry_cap == DEFAULT_RETRY_CAP,
            c.tries_left == 0,
    {
        Client { challenge: -1, retry_cap: DEFAULT_RETRY_CAP, tries_left: 0 }
    }

    /// A fresh client with no cached token and the given retry cap.
    pub fn with_retry_cap(cap: u32) -> (c: Client)
        ensures
            c.challenge == -1i32,
            c.retry_cap == cap,
            c.tries_left == 0,
    {
        Client { challenge: -1, retry_cap: cap, tries_left: 0 }
    }

    /// Starts a query: arms the retry budget and yields the request bytes
    /// that echo the cached token (`-1` when none is cached yet).
    pub fn begin_query(&mut self) -> (r: Vec<u8>)
        ensures
            r@ == request_bytes(old(self).challenge),
            final(self).challenge == old(self).challenge,
            final(self).retry_cap == old(self).retry_cap,
            final(self).tries_left == old(self).retry_cap,
    {
        self.tries_left = self.retry_cap;
        encode_player_request(self.challenge)
    }

    /// Feeds one received packet to the state machine and says what to do
    /// next.  `from_remote` says whether the packet's sender equals the
    /// queried remote address.
    ///
    /// The contract pins every case down:
    /// - a packet from another sender is discarded: the cached token is
    ///   untouched and the call goes on waiting (or gives up when the
    ///   budget is spent), and nothing else changes;
    /// - a packet shorter than 5 bytes fails with `Truncated`;
    /// - a challenge response (header `0x41`) replaces the cached token
    ///   unconditionally and causes exactly one resend whose bytes echo
    ///   the new token — unless the budget is spent, which is `NoResponse`;
    /// - a player-list response (header `0x44`) ends the query with
    ///   exactly the roster that [`spec_decode_player_list`] assigns to the
    ///   buffer, or with its decode error;
    /// - any other header fails with `UnexpectedHeader`.
    pub fn on_packet(&mut self, from_remote: bool, data: &[u8]) -> (s: Step)
        ensures
            final(self).retry_cap == old(self).retry_cap,
            (if !from_remote {
                &&& final(self).challenge == old(self).challenge
                &&& if old(self).tries_left == 0 {
                    s == Step::Fail(ProtocolError::NoResponse) && final(self).tries_left == 0
                } else {
                    s == Step::Discard && final(self).tries_left == old(self).tries_left - 1
                }
            } else if data@.len() < 5 {
                *final(self) == *old(self) && s == Step::Fail(ProtocolError::Truncated)
            } else if data@[4] == CHALLENGE_RESPONSE_HEADER {
                if data@.len() < 9 {
                    *final(self) == *old(self) && s == Step::Fail(ProtocolError::Truncated)
                } else {
                    &&& final(self).challenge == le_i32(data@[5], data@[6], data@[7], data@[8])
                    &&& if old(self).tries_left == 0 {
                        s == Step::Fail(ProtocolError::NoResponse) && final(self).tries_left == 0
                    } else {
                        &&& final(self).tries_left == old(self).tries_left - 1
                        &&& s matches Step::Resend(b) && b@ == request_bytes(
                            le_i32(data@[5], data@[6], data@[7], data@[8]),
                        )
                    }
                }
            } else if data@[4] == A2S_PLAYER_RESPONSE_HEADER {
                &&& *final(self) == *old(self)
                &&& match spec_decode_player_list(data@) {
                    Ok(ps) => s matches Step::Done(v) && v@.map_values(|p: Player| p@) == ps,
                    Err(e) => s == Step::Fail(e),
                }
            } else {
                *final(self) == *old(self) && s == Step::Fail(ProtocolError::UnexpectedHeader)
            }),
    {
        if !from_remote {
            // Spoofed or stray traffic: never touch the token (and never
            // end the call for it, while the budget lasts).
            if self.tries_left == 0 {
                return Step::Fail(ProtocolError::NoResponse);
            }
            self.tries_left = self.tries_left - 1;
            return Step::Discard;
        }
        if data.len() < 5 {
            return Step::Fail(ProtocolError::Truncated);
        }
        let header = data[4];
        if header == CHALLENGE_RESPONSE_HEADER {
            if data.len() < 9 {
                return Step::Fail(ProtocolError::Truncated);
            }
            // A validated challenge packet replaces the token as one
            // atomic unit, whatever was cached before.
            self.challenge = read_le_i32(data[5], data[6], data[7], data[8]);
            if self.tries_left == 0 {
                return Step::Fail(ProtocolError::NoResponse);
            }
            self.tries_left = self.tries_left - 1;
            return Step::Resend(encode_player_request(self.challenge));
        }
        if header != A2S_PLAYER_RESPONSE_HEADER {
            return Step::Fail(ProtocolError::UnexpectedHeader);
        }
        match decode_player_list(data) {
            Ok(players) => Step::Done(players),
            Err(e) => Step::Fail(e),
        }
    }
}

} // verus!
