use vstd::prelude::*;
use std::collections::hash_map::{DefaultHasher, RandomState};
use std::hash::{BuildHasher, Hasher};

verus! {

/// Multiplier applied to the raw xorshift state to whiten the output.
pub const OUTPUT_MULTIPLIER: u64 = 0x2545f4914f6cdd1d;

/// One xorshift update of the generator state.
pub open spec fn xorshift_next(x: u64) -> u64 {
    let a = x ^ (x >> 12);
    let b = a ^ (a << 25);
    b ^ (b >> 27)
}

/// The value handed out by a draw whose state before the draw is `x`.
pub open spec fn xorshift_output(x: u64) -> u64 {
    vstd::wrapping::u64_specs::wrapping_mul(xorshift_next(x), OUTPUT_MULTIPLIER)
}

/// A xorshift update never maps a non-zero state to zero: each of its three
/// steps is invertible, so only zero reaches zero.
pub proof fn lemma_xorshift_next_nonzero(x: u64)
    requires
        x != 0,
    ensures
        xorshift_next(x) != 0,
{
    assert((x ^ (x >> 12)) != 0) by (bit_vector)
        requires
            x != 0,
    ;
    let a = x ^ (x >> 12);
    assert((a ^ (a << 25)) != 0) by (bit_vector)
        requires
            a != 0,
    ;
    let b = a ^ (a << 25);
    assert((b ^ (b >> 27)) != 0) by (bit_vector)
        requires
            b != 0,
    ;
}

/// A non-cryptographic pseudo-random generator in the xorshift family.
/// Each caller owns its own instance, so sequences on different threads
/// are independent by construction.
pub struct XorShiftRng {
    state: u64,
}

impl View for XorShiftRng {
    type V = u64;

    closed spec fn view(&self) -> u64 {
        self.state
    }
}

impl XorShiftRng {
    /// The generator state is never zero: zero is the one fixed point of the
    /// xorshift update, and a generator stuck there would only hand out zeros.
    pub open spec fn wf(&self) -> bool {
        self@ != 0
    }

    /// A generator seeded from the process's random hasher keys.
    pub fn new() -> (r: Self)
        ensures
            r.wf(),
    {
        XorShiftRng { state: fresh_seed() }
    }

    /// A generator with a caller-chosen seed, for reproducible sequences.
    pub fn from_seed(seed: u64) -> (r: Self)
        requires
            seed != 0,
        ensures
            r.wf(),
            r@ == seed,
    {
        XorShiftRng { state: seed }
    }
}

/// Advances the generator by one xorshift step and hands out the whitened
/// state.  The successor state and the value drawn are exact functions of
/// the state before the call.
pub fn fast_random(rng: &mut XorShiftRng) -> (r: u64)
    requires
        old(rng).wf(),
    ensures
        final(rng).wf(),
        final(rng)@ == xorshift_next(old(rng)@),
        r == xorshift_output(old(rng)@),
{
    let mut n = rng.state;
    n = n ^ (n >> 12);
    n = n ^ (n << 25);
    n = n ^ (n >> 27);
    proof {
        lemma_xorshift_next_nonzero(old(rng)@);
    }
    rng.state = n;
    n.wrapping_mul(OUTPUT_MULTIPLIER)
}

/// A non-zero seed drawn from a randomly keyed hasher, as high-entropy a
/// source as the standard library offers without extra machinery.
fn fresh_seed() -> (r: u64)
    ensures
        r != 0,
{
    let keys = new_random_state();
    let mut out: u64 = 0;
    let mut attempt: usize = 0;
    while out == 0 && attempt < 64
        invariant
            attempt <= 64,
        decreases 64 - attempt,
    {
        attempt = attempt + 1;
        let mut hasher = build_seed_hasher(&keys);
        hasher_write_usize(&mut hasher, attempt);
        out = hasher.finish();
    }
    if out == 0 {
        // vanishingly unlikely: every draw hashed to zero; any fixed
        // non-zero state is still a sound fallback
        out = OUTPUT_MULTIPLIER;
    }
    out
}

/// Relies on `RandomState::new`: a hasher factory keyed with fresh random
/// keys, the entropy source for seeding.
#[verifier::external_body]
fn new_random_state() -> RandomState {
    RandomState::new()
}

/// Relies on `BuildHasher::build_hasher` for `RandomState`: a hasher using
/// this factory's random keys.  Nothing is promised of the hashes it yields.
#[verifier::external_body]
fn build_seed_hasher(keys: &RandomState) -> DefaultHasher {
    keys.build_hasher()
}

/// Relies on `Hasher::write_usize` for `DefaultHasher`: feeds the integer's
/// bytes into the hasher.  Nothing is promised of the resulting hash.
#[verifier::external_body]
fn hasher_write_usize(hasher: &mut DefaultHasher, n: usize) {
    hasher.write_usize(n)
}

} // verus!
