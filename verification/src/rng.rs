use vstd::prelude::*;

verus! {

/// State increment of the generator, one step per draw.
pub const GAMMA: u64 = 0x9E37_79B9_7F4A_7C15;

/// First mixing multiplier.
pub const MIX1: u64 = 0xBF58_476D_1CE4_E5B9;

/// Second mixing multiplier.
pub const MIX2: u64 = 0x94D0_49BB_1331_11EB;

/// The library's seeded pseudo-random source (a 64-bit counter-and-mix
/// generator). Every draw is a pure function of the state, so a seeded
/// run is reproducible bit for bit across runs and across engines; this
/// is what the determinism contracts of the engines rest on. When the
/// caller supplies no seed, one is drawn once from machine entropy and
/// the run is deterministic in that drawn seed.
pub struct SeededRng {
    pub state: u64,
}

/// The generator state after one more draw.
pub open spec fn spec_next_state(s: u64) -> u64 {
    vstd::wrapping::u64_specs::wrapping_add(s, GAMMA)
}

/// The value a draw yields from the stepped state `z`.
pub open spec fn spec_mix(z: u64) -> u64 {
    let z1 = vstd::wrapping::u64_specs::wrapping_mul(z ^ (z >> 30), MIX1);
    let z2 = vstd::wrapping::u64_specs::wrapping_mul(z1 ^ (z1 >> 27), MIX2);
    z2 ^ (z2 >> 31)
}

impl SeededRng {
    /// Generator state is nothing but the 64-bit value it was seeded with,
    /// stepped once per draw.
    pub fn new(seed: u64) -> (rng: SeededRng)
        ensures
            rng.state == seed,
    {
        SeededRng { state: seed }
    }

    /// Draws the next 64-bit value; steps the state by `GAMMA` and mixes it.
    pub fn next_u64(&mut self) -> (r: u64)
        ensures
            final(self).state == spec_next_state(old(self).state),
            r == spec_mix(final(self).state),
    {
        self.state = self.state.wrapping_add(GAMMA);
        let z0 = self.state;
        let z1 = (z0 ^ (z0 >> 30u64)).wrapping_mul(MIX1);
        let z2 = (z1 ^ (z1 >> 27u64)).wrapping_mul(MIX2);
        z2 ^ (z2 >> 31u64)
    }

    /// Draws a value below `n` by reducing the next draw modulo `n`.
    pub fn next_below(&mut self, n: u64) -> (r: u64)
        requires
            n > 0,
        ensures
            final(self).state == spec_next_state(old(self).state),
            r == spec_mix(final(self).state) % n,
            r < n,
    {
        let v = self.next_u64();
        v % n
    }
}

/// Relies on `rand::random`: one 64-bit value from the process's
/// entropy source, used only to seed unseeded runs. Nothing is promised
/// of the value.
#[verifier::external_body]
pub(crate) fn entropy_u64() -> u64 {
    rand::random::<u64>()
}

} // verus!
