//! The generator that spreads the bandwidth probes of a flow.
use rand::{RngExt, SeedableRng};
use rand_pcg::Pcg32;
use vstd::prelude::*;

verus! {

/// The factor of a generator's step.
pub const PCG_MULTIPLIER: u64 = 6364136223846793005;

/// The number that `bytes` hold, the lowest byte first.
pub open spec fn little_endian(bytes: Seq<u8>) -> nat
    decreases bytes.len(),
{
    if bytes.len() == 0 {
        0
    } else {
        bytes[0] as nat + 256 * little_endian(bytes.skip(1))
    }
}

/// The state and the stream of a PCG generator that was seeded with `seed`: the second
/// half, without its lowest bit, selects the stream; the first half, one step on, is the
/// state.
pub open spec fn pcg_seeded(seed: Seq<u8>) -> (u64, u64) {
    let stream = little_endian(seed.subrange(8, 16)) / 2;
    let increment = 2 * stream + 1;
    let start = little_endian(seed.subrange(0, 8)) + increment;
    (((start * PCG_MULTIPLIER + increment) % 0x1_0000_0000_0000_0000) as u64, stream as u64)
}

/// What a PCG generator with this state and stream draws where the odds are
/// `numerator` in `denominator`, and the state that follows.
pub uninterp spec fn pcg_ratio(
    state: u64,
    stream: u64,
    numerator: u32,
    denominator: u32,
) -> (bool, u64);

/// A number from zero to `most` of a PCG generator with this state and stream,
/// and the state that follows.
pub uninterp spec fn pcg_up_to(state: u64, stream: u64, most: u64) -> (u64, u64);

/// Some seed of sixteen bytes leads to this state and stream.
pub open spec fn comes_from_seed(parts: (u64, u64)) -> bool {
    exists|seed: Seq<u8>| seed.len() == 16 && parts == #[trigger] pcg_seeded(seed)
}

/// Calls `Pcg32::from_seed` of `rand_pcg`, which reads the seed as two little-endian
/// words and takes one step of the generator.
#[verifier::external_body]
fn seeded_parts(seed: [u8; 16]) -> (r: (u64, u64))
    ensures
        r == pcg_seeded(seed@),
{
    let rng = Pcg32::from_seed(seed);
    (rng.state(), rng.stream())
}

/// Calls `Pcg32::from_rng` with the thread's generator `rand::rng()`, which fills a
/// seed of sixteen bytes from the system's entropy and seeds with it. Nothing is
/// claimed of the seed. Where the system has no entropy to give, `rand::rng()` panics;
/// no argument could rule that out.
#[verifier::external_body]
fn fresh_parts() -> (r: (u64, u64))
    ensures
        comes_from_seed(r),
{
    let rng = Pcg32::from_rng(&mut rand::rng());
    (rng.state(), rng.stream())
}

/// Calls `random_ratio` of `rand` on the generator with this state and stream. The
/// outcome and the next state depend on these and on the odds alone.
#[verifier::external_body]
fn ratio_parts(state: u64, stream: u64, numerator: u32, denominator: u32) -> (r: (bool, u64))
    requires
        numerator <= denominator,
        denominator > 0,
    ensures
        r == pcg_ratio(state, stream, numerator, denominator),
{
    let mut rng = Pcg32::from_state(state, stream);
    let drawn: bool = rng.random_ratio(numerator, denominator);
    (drawn, rng.state())
}

/// Calls `random_range(0..=most)` of `rand` on the generator with this state and
/// stream. The number is at most `most`; it and the next state depend on the
/// state, the stream and `most` alone.
#[verifier::external_body]
fn up_to_parts(state: u64, stream: u64, most: u64) -> (r: (u64, u64))
    ensures
        r == pcg_up_to(state, stream, most),
        r.0 <= most,
{
    let mut rng = Pcg32::from_state(state, stream);
    let number: u64 = rng.random_range(0..=most);
    (number, rng.state())
}

/// A small general-purpose generator. The numbers only decide when to probe
/// next; nothing secret depends on them.
#[derive(Clone, Copy, Debug, PartialEq, Eq, Structural)]
pub struct ProbeRng {
    pub state: u64,
    pub stream: u64,
}

impl ProbeRng {
    pub open spec fn seeded(seed: Seq<u8>) -> ProbeRng {
        ProbeRng { state: pcg_seeded(seed).0, stream: pcg_seeded(seed).1 }
    }

    /// The outcome of a fair coin flip.
    pub open spec fn next_flip(self) -> bool {
        pcg_ratio(self.state, self.stream, 1, 2).0
    }

    pub open spec fn after_flip(self) -> ProbeRng {
        ProbeRng { state: pcg_ratio(self.state, self.stream, 1, 2).1, stream: self.stream }
    }

    pub open spec fn next_up_to(self, most: u64) -> u64 {
        pcg_up_to(self.state, self.stream, most).0
    }

    pub open spec fn after_up_to(self, most: u64) -> ProbeRng {
        ProbeRng { state: pcg_up_to(self.state, self.stream, most).1, stream: self.stream }
    }

    pub fn from_seed(seed: [u8; 16]) -> (rng: ProbeRng)
        ensures
            rng == ProbeRng::seeded(seed@),
    {
        let (state, stream) = seeded_parts(seed);
        ProbeRng { state, stream }
    }

    /// A generator with a seed of its own.
    pub fn from_entropy() -> (rng: ProbeRng)
        ensures
            comes_from_seed((rng.state, rng.stream)),
    {
        let (state, stream) = fresh_parts();
        ProbeRng { state, stream }
    }

    pub fn flip(&mut self) -> (heads: bool)
        ensures
            heads == old(self).next_flip(),
            *final(self) == old(self).after_flip(),
    {
        let (heads, state) = ratio_parts(self.state, self.stream, 1, 2);
        self.state = state;
        heads
    }

    pub fn up_to(&mut self, most: u64) -> (number: u64)
        ensures
            number == old(self).next_up_to(most),
            number <= most,
            *final(self) == old(self).after_up_to(most),
    {
        let (number, state) = up_to_parts(self.state, self.stream, most);
        self.state = state;
        number
    }
}

} // verus!
