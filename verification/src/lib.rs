//! A verified client core for the Source-engine A2S_PLAYER query protocol.
//!
//! The crate covers the parts of a player-watching tool that deserve proof:
//! the 9-byte request encoding, the two-phase challenge handshake expressed
//! as a state machine, and the decoding of the variable-length player-record
//! stream that an untrusted server sends back.  The UDP transport and the
//! terminal glue around it live outside the library and only hand plain
//! values in and out.

pub mod client;
pub mod decode;
pub mod display;
pub mod ignoreable;
pub mod parse;
pub mod strutil;
pub mod player;
pub mod wire;
