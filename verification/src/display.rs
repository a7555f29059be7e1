//! Presentation helpers for a decoded roster: turning the raw bits of the
//! connected-seconds float into whole seconds by integer bit arithmetic,
//! rendering decimal numbers, and building the byte text of a roster dump.
//! Names pass through as raw bytes; only code outside the library turns
//! bytes into printable text.

use vstd::arithmetic::power2::{lemma2_to64_rest, lemma_pow2_pos, pow2};
use vstd::bits::{lemma_u64_shl_is_mul, lemma_u64_shr_is_div};
use vstd::prelude::*;

use crate::player::{Player, PlayerView};

verus! {

/// The exponent field of an IEEE-754 32-bit float.
pub open spec fn f32_exp(bits: u32) -> u32 {
    (bits / 0x80_0000) % 0x100
}

/// The fraction field of an IEEE-754 32-bit float.
pub open spec fn f32_frac(bits: u32) -> u32 {
    bits % 0x80_0000
}

/// Whether the sign bit of an IEEE-754 32-bit float is set.
pub open spec fn f32_sign(bits: u32) -> bool {
    bits >= 0x8000_0000
}

/// The whole seconds that an IEEE-754 32-bit duration amounts to: the float
/// rounded towards zero, clamped to `0` below (a duration cannot be
/// negative; a negative or NaN wire value counts as none) and saturated at
/// `u64::MAX` above (infinities and values past 2^64 count as forever).
pub open spec fn spec_whole_seconds(bits: u32) -> u64 {
    if f32_sign(bits) {
        0
    } else {
        let e = f32_exp(bits) as int;
        let m = (f32_frac(bits) + 0x80_0000) as nat;  // the implied leading 1
        if e == 0xff {
            u64::MAX  // infinity or NaN
        } else if e < 127 {
            0  // the value is below 1, subnormals included
        } else if e <= 150 {
            (m / pow2((150 - e) as nat)) as u64
        } else if e <= 190 {
            (m * pow2((e - 150) as nat)) as u64
        } else {
            u64::MAX  // 2^64 or more
        }
    }
}

/// Rounds the duration float whose raw bits are given towards zero, in
/// pure integer arithmetic.  See [`spec_whole_seconds`] for the treatment
/// of negative, NaN and oversized values.
pub fn whole_seconds(bits: u32) -> (r: u64)
    ensures
        r == spec_whole_seconds(bits),
{
    if bits >= 0x8000_0000 {
        return 0;
    }
    let e: u32 = (bits / 0x80_0000) % 0x100;
    let m: u64 = ((bits % 0x80_0000) + 0x80_0000) as u64;
    if e == 0xff {
        u64::MAX
    } else if e < 127 {
        0
    } else if e <= 150 {
        let shift: u64 = (150 - e) as u64;
        proof {
            lemma_u64_shr_is_div(m, shift);
        }
        m >> shift
    } else if e <= 190 {
        let shift: u64 = (e - 150) as u64;
        proof {
            assert(m < 0x100_0000);
            assert(shift <= 40);
            lemma_pow2_pos(shift as nat);
            lemma2_to64_rest();
            // pow2(shift) <= pow2(40), so m * pow2(shift) stays under 2^64.
            if shift < 40 {
                vstd::arithmetic::power2::lemma_pow2_strictly_increases(shift as nat, 40);
            }
            let p = pow2(shift as nat) as int;
            assert(0 < p <= 0x100_0000_0000);
            assert((m as int) * p <= 0xff_ffff * 0x100_0000_0000) by (nonlinear_arith)
                requires
                    0 <= m as int <= 0xff_ffff,
                    0 < p <= 0x100_0000_0000,
            ;
            lemma_u64_shl_is_mul(m, shift);
        }
        m << shift
    } else {
        u64::MAX
    }
}

/// The decimal digits of `n` as ASCII bytes, most significant first, with
/// no leading zeros (a single `0` for zero).
pub open spec fn spec_dec_digits(n: nat) -> Seq<u8>
    decreases n,
{
    if n < 10 {
        seq![(n + 0x30) as u8]
    } else {
        spec_dec_digits(n / 10).push((n % 10 + 0x30) as u8)
    }
}

/// Renders `n` in decimal as ASCII bytes.
pub fn dec_digits(n: u64) -> (r: Vec<u8>)
    ensures
        r@ == spec_dec_digits(n as nat),
    decreases n,
{
    if n < 10 {
        let mut r: Vec<u8> = Vec::new();
        r.push((n as u8) + 0x30);
        proof {
            assert(r@ =~= spec_dec_digits(n as nat));
        }
        r
    } else {
        let mut r = dec_digits(n / 10);
        r.push(((n % 10) as u8) + 0x30);
        proof {
            assert(r@ =~= spec_dec_digits(n as nat));
        }
        r
    }
}

/// The display line of one player: the raw name bytes, then the whole
/// minutes in brackets, as in `name [42min]`.
pub open spec fn spec_player_line(p: PlayerView) -> Seq<u8> {
    p.name + seq![0x20u8, 0x5bu8] + spec_dec_digits(
        (spec_whole_seconds(p.duration_bits) / 60) as nat,
    ) + seq![0x6du8, 0x69u8, 0x6eu8, 0x5du8]
}

/// The byte text of a whole roster dump: one line per player, each ended
/// by a newline byte.
pub open spec fn spec_dump(ps: Seq<PlayerView>) -> Seq<u8>
    decreases ps.len(),
{
    if ps.len() == 0 {
        Seq::empty()
    } else {
        spec_player_line(ps[0]) + seq![0x0au8] + spec_dump(ps.skip(1))
    }
}

impl Player {
    /// Renders this player's display line, `name [Nmin]`, as raw bytes.
    pub fn line(&self) -> (r: Vec<u8>)
        ensures
            r@ == spec_player_line(self@),
    {
        let mut r: Vec<u8> = Vec::new();
        r.extend_from_slice(self.get_name());
        r.push(0x20);
        r.push(0x5b);
        let minutes = whole_seconds(self.duration_bits()) / 60;
        let digits = dec_digits(minutes);
        r.extend_from_slice(digits.as_slice());
        r.push(0x6d);
        r.push(0x69);
        r.push(0x6e);
        r.push(0x5d);
        proof {
            assert(r@ =~= spec_player_line(self@));
        }
        r
    }
}

/// Renders the dump text of a roster: every player's display line, each on
/// its own line, in roster order.  The bytes are exactly what
/// [`spec_dump`] assigns to the players' views.
pub fn dump(players: &Vec<Player>) -> (r: Vec<u8>)
    ensures
        r@ == spec_dump(players@.map_values(|p: Player| p@)),
{
    let ghost views: Seq<PlayerView> = players@.map_values(|p: Player| p@);
    let mut r: Vec<u8> = Vec::new();
    let n = players.len();
    let mut i: usize = 0;
    proof {
        assert(views.skip(0) =~= views);
        assert(Seq::<u8>::empty() + spec_dump(views) =~= spec_dump(views));
    }
    while i < n
        invariant
            n == players@.len(),
            0 <= i <= n,
            views == players@.map_values(|p: Player| p@),
            r@ + spec_dump(views.skip(i as int)) == spec_dump(views),
        decreases n - i,
    {
        let ghost r0: Seq<u8> = r@;
        let line = players[i].line();
        r.extend_from_slice(line.as_slice());
        r.push(0x0a);
        i = i + 1;
        proof {
            let i0 = i - 1;
            let tail = views.skip(i0);
            assert(tail[0] == views[i0]);
            assert(tail.skip(1) =~= views.skip(i as int));
            assert(spec_dump(tail) == spec_player_line(views[i0]) + seq![0x0au8] + spec_dump(
                views.skip(i as int),
            ));
            assert(r@ + spec_dump(views.skip(i as int)) =~= r0 + spec_dump(tail));
        }
    }
    proof {
        assert(views.skip(n as int) =~= Seq::<PlayerView>::empty());
        assert(r@ + Seq::<u8>::empty() =~= r@);
    }
    r
}

/// The banner text shown when the surrounding tool starts.
pub fn print_start_text() -> (r: &'static str)
    ensures
        r@ == "\u{1b}[1m\u{1b}[31mRust Player Checker v0.1.0\u{1b}[0m"@,
{
    "\u{1b}[1m\u{1b}[31mRust Player Checker v0.1.0\u{1b}[0m"
}

} // verus!
