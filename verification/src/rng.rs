//! The pseudo-random source.
//!
//! The stream is that of xoshiro256++, seeded from a `u64` through
//! SplitMix64, as `rand_xoshiro` implements both; lengths and bytes are taken
//! from it by `rand`. The algorithm is named and has no word-size or platform
//! branch, so a seed gives the same stream in every process. What a draw
//! returns depends on the state of the generator and on the arguments of the
//! call, and on nothing else.
//!
//! Nothing in this file is proved: every contract here describes the two
//! crates. The results of the calls are not computed here; they are named,
//! so that the rest of the library can say which draws are equal.

use rand::Rng;
use rand::SeedableRng;
use rand_xoshiro::Xoshiro256PlusPlus;
use vstd::prelude::*;

verus! {

/// `rand_xoshiro::Xoshiro256PlusPlus`, held and handed on as it is: nothing
/// here looks inside one.
#[verifier::external_type_specification]
#[verifier::external_body]
pub struct ExXoshiro256PlusPlus(Xoshiro256PlusPlus);

/// What a generator holds: the words of its state, on which alone its
/// further output depends.
pub uninterp spec fn rng_words(rng: Xoshiro256PlusPlus) -> Seq<u64>;

/// The state words of a generator fresh from `seed_from_u64(seed)`.
pub uninterp spec fn seeded_words(seed: u64) -> Seq<u64>;

/// What `gen_range(lo..hi)` on `i32` returns from the state `words`, and the
/// state it leaves.
pub uninterp spec fn range_i32_draw(words: Seq<u64>, lo: i32, hi: i32) -> (i32, Seq<u64>);

/// What `gen_range(lo..hi)` on `u64` returns from the state `words`, and the
/// state it leaves.
pub uninterp spec fn range_u64_draw(words: Seq<u64>, lo: u64, hi: u64) -> (u64, Seq<u64>);

/// What `fill` writes into a byte slice of length `len` from the state
/// `words`, and the state it leaves.
pub uninterp spec fn bytes_draw(words: Seq<u64>, len: nat) -> (Seq<u8>, Seq<u64>);

/// `Xoshiro256PlusPlus::seed_from_u64`: the state is derived from the seed
/// alone (by SplitMix64), so equal seeds start equal streams.
#[verifier::external_body]
pub(crate) fn rng_from_seed(seed: u64) -> (rng: Xoshiro256PlusPlus)
    ensures
        rng_words(rng) == seeded_words(seed),
{
    Xoshiro256PlusPlus::seed_from_u64(seed)
}

/// `Rng::gen_range` on a half-open `i32` range: the pick lies in the range,
/// and pick and next state depend on the state and the bounds alone. The
/// call panics on an empty range, which `requires` leaves out.
#[verifier::external_body]
pub(crate) fn draw_i32(rng: &mut Xoshiro256PlusPlus, lo: i32, hi: i32) -> (n: i32)
    requires
        lo < hi,
    ensures
        lo <= n < hi,
        n == range_i32_draw(rng_words(*old(rng)), lo, hi).0,
        rng_words(*final(rng)) == range_i32_draw(rng_words(*old(rng)), lo, hi).1,
{
    rng.gen_range(lo..hi)
}

/// `Rng::gen_range` on a half-open `u64` range: the pick lies in the range,
/// and pick and next state depend on the state and the bounds alone. The
/// call panics on an empty range, which `requires` leaves out.
#[verifier::external_body]
pub(crate) fn draw_u64(rng: &mut Xoshiro256PlusPlus, lo: u64, hi: u64) -> (n: u64)
    requires
        lo < hi,
    ensures
        lo <= n < hi,
        n == range_u64_draw(rng_words(*old(rng)), lo, hi).0,
        rng_words(*final(rng)) == range_u64_draw(rng_words(*old(rng)), lo, hi).1,
{
    rng.gen_range(lo..hi)
}

/// `Rng::fill` on a byte slice: every byte of the buffer is overwritten, its
/// length stays, and bytes and next state depend on the state and the length
/// alone.
#[verifier::external_body]
pub(crate) fn fill_bytes(rng: &mut Xoshiro256PlusPlus, buf: &mut Vec<u8>)
    ensures
        final(buf)@.len() == old(buf)@.len(),
        final(buf)@ == bytes_draw(rng_words(*old(rng)), old(buf)@.len()).0,
        rng_words(*final(rng)) == bytes_draw(rng_words(*old(rng)), old(buf)@.len()).1,
{
    rng.fill(buf.as_mut_slice())
}

} // verus!
