//! One connected player, as the server reports it.  The wire gives a name as
//! raw bytes (servers emit non-standard encodings, so the client never
//! decodes them as text) and a connection duration as a little-endian
//! IEEE-754 32-bit float, which the client stores as its raw bits; only the
//! presentation boundary outside the library turns either into text.

use vstd::prelude::*;

verus! {

/// The mathematical content of a [`Player`]: the name bytes without their
/// wire terminator, and the raw bits of the connected-seconds float.
pub ghost struct PlayerView {
    pub name: Seq<u8>,
    pub duration_bits: u32,
}

/// One player of the decoded roster.  Immutable once constructed.
#[derive(Debug, PartialEq, Eq)]
pub struct Player {
    name: Vec<u8>,
    duration_bits: u32,
}

impl View for Player {
    type V = PlayerView;

    closed spec fn view(&self) -> PlayerView {
        PlayerView { name: self.name@, duration_bits: self.duration_bits }
    }
}

impl Player {
    /// Builds a player record from its name bytes (without a terminating
    /// zero) and the raw bits of its connected-seconds float.
    pub fn new(name: Vec<u8>, duration_bits: u32) -> (p: Player)
        ensures
            p@ == (PlayerView { name: name@, duration_bits }),
    {
        Player { name, duration_bits }
    }

    /// The name exactly as the server sent it, a raw byte string.
    pub fn get_name(&self) -> (r: &[u8])
        ensures
            r@ == self@.name,
    {
        self.name.as_slice()
    }

    /// The raw bits of the little-endian IEEE-754 32-bit connected-seconds
    /// value.  The library never interprets them as a float itself.
    pub fn duration_bits(&self) -> (r: u32)
        ensures
            r == self@.duration_bits,
    {
        self.duration_bits
    }
}

/// Whether two byte strings hold the same bytes.
pub fn bytes_eq(a: &[u8], b: &[u8]) -> (r: bool)
    ensures
        r == (a@ == b@),
{
    if a.len() != b.len() {
        proof {
            assert(a@ != b@);
        }
        return false;
    }
    let n = a.len();
    let mut i: usize = 0;
    while i < n
        invariant
            n == a@.len() == b@.len(),
            0 <= i <= n,
            forall|j: int| 0 <= j < i ==> a@[j] == b@[j],
        decreases n - i,
    {
        if a[i] != b[i] {
            proof {
                assert(a@[i as int] != b@[i as int]);
            }
            return false;
        }
        i = i + 1;
    }
    proof {
        assert(a@ =~= b@);
    }
    true
}

/// Whether some player of the roster bears exactly the given name.  This is
/// the decision the listening loop makes on every poll tick.
pub fn contains_player(players: &Vec<Player>, name: &[u8]) -> (r: bool)
    ensures
        r == (exists|i: int| 0 <= i < players@.len() && players@[i]@.name == name@),
{
    let n = players.len();
    let mut i: usize = 0;
    while i < n
        invariant
            n == players@.len(),
            0 <= i <= n,
            forall|j: int| 0 <= j < i ==> players@[j]@.name != name@,
        decreases n - i,
    {
        if bytes_eq(players[i].get_name(), name) {
            return true;
        }
        i = i + 1;
    }
    false
}

} // verus!
