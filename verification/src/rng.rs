//! Per-ant random streams.
//!
//! Each ant owns an independent, reproducible stream: a ChaCha8 keystream
//! identified by a 64-bit seed, read at an explicit word offset. Because the
//! state is just the pair (seed, offset), a draw is a pure function of the
//! ant's own stream, independent of the order ants are processed in.

use vstd::prelude::*;
use rand_core::{RngCore, SeedableRng};
use crate::fixed::{FP, tdiv, tdiv_spec};

verus! {

/// The 64-bit value that the ChaCha8 stream of `seed` yields at 32-bit-word
/// offset `word_pos`: two consecutive keystream words, low word first.
pub uninterp spec fn chacha8_word(seed: u64, word_pos: u64) -> u64;

/// Relies on rand_chacha's ChaCha8Rng, a portable keystream generator:
/// `seed_from_u64` expands the seed by the fixed PCG32 scheme that rand_core
/// documents as value-stable, `set_word_pos` seeks to the given word offset,
/// and `next_u64` reads the next two 32-bit words. The result depends on
/// `seed` and `word_pos` alone, identically in every process and machine.
#[verifier::external_body]
fn chacha8_word_at(seed: u64, word_pos: u64) -> (r: u64)
    ensures
        r == chacha8_word(seed, word_pos),
{
    let mut rng = rand_chacha::ChaCha8Rng::seed_from_u64(seed);
    rng.set_word_pos(word_pos as u128);
    rng.next_u64()
}

/// The stream offset after one 64-bit draw: two words further, frozen at the
/// (unreachable) end of the offset range.
pub open spec fn advanced_pos_spec(p: u64) -> u64 {
    if p <= u64::MAX - 2 {
        (p + 2) as u64
    } else {
        p
    }
}

/// The uniform scalar encoded by one raw draw: the low 32 bits mapped
/// affinely onto `[-FP, FP]` counts, i.e. onto `[-1, 1]` world units.
pub open spec fn rand_unit_spec(w: u64) -> int {
    let low = (w as int) % 0x1_0000_0000;
    tdiv_spec((low - 0x7fff_ffff) * FP, 0x7fff_ffff)
}

/// One ant's private random stream: a seed and a read offset into its
/// ChaCha8 keystream.
#[derive(Clone, Copy, Debug, PartialEq, Eq, Structural)]
pub struct AntRng {
    pub seed: u64,
    pub word_pos: u64,
}

impl AntRng {
    /// A fresh stream at its start.
    pub fn from_seed(seed: u64) -> (r: AntRng)
        ensures
            r == (AntRng { seed, word_pos: 0 }),
    {
        AntRng { seed, word_pos: 0 }
    }

    /// Draws the next raw 64-bit value and advances the stream.
    pub fn next_raw(&mut self) -> (r: u64)
        ensures
            r == chacha8_word(old(self).seed, old(self).word_pos),
            *final(self) == (AntRng {
                seed: old(self).seed,
                word_pos: advanced_pos_spec(old(self).word_pos),
            }),
    {
        let r: u64 = chacha8_word_at(self.seed, self.word_pos);
        if self.word_pos <= u64::MAX - 2 {
            self.word_pos = self.word_pos + 2;
        }
        r
    }

    /// Draws a uniform scalar in `[-FP, FP]` counts (i.e. `[-1.0, 1.0]`
    /// world units) and advances the stream.
    pub fn rand_uniform(&mut self) -> (r: i64)
        ensures
            r == rand_unit_spec(chacha8_word(old(self).seed, old(self).word_pos)),
            -FP <= r <= FP,
            *final(self) == (AntRng {
                seed: old(self).seed,
                word_pos: advanced_pos_spec(old(self).word_pos),
            }),
    {
        let w: u64 = self.next_raw();
        let low: u64 = w % 0x1_0000_0000;
        let centered: i64 = (low as i64) - 0x7fff_ffff;
        proof {
            assert(-0x7fff_ffff <= centered <= 0x8000_0000);
            assert(-0x7fff_ffff * FP <= centered * FP <= 0x8000_0000 * FP) by (nonlinear_arith)
                requires
                    -0x7fff_ffff <= centered <= 0x8000_0000,
                    FP == 1_000_000,
            ;
            crate::fixed::lemma_tdiv_bounds(centered * FP, 0x7fff_ffff);
            let q = tdiv_spec(centered * FP, 0x7fff_ffff);
            assert(crate::fixed::abs_spec(q) <= FP) by (nonlinear_arith)
                requires
                    crate::fixed::abs_spec(q) * 0x7fff_ffff <= crate::fixed::abs_spec(
                        centered * FP,
                    ),
                    crate::fixed::abs_spec(centered * FP) <= 0x8000_0000 * FP,
                    FP == 1_000_000,
            ;
        }
        tdiv(centered * FP, 0x7fff_ffff)
    }
}

} // verus!
