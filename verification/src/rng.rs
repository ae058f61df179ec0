//! Deterministic pseudo-random source.
//!
//! A linear congruential generator over `u64`, passed explicitly to every
//! sampling routine so that a render is reproducible from its seed. Each
//! draw takes the high 16 bits of the next state, which is exactly a
//! fixed-point fraction in `[0, FP_ONE)`.

use vstd::prelude::*;
use crate::fixed::{FP_ONE, in_fp, fp_sub, fp_mul, fp_add, sub_fp, mul_fp, add_fp};

verus! {

pub const RNG_MUL: u64 = 6364136223846793005;
pub const RNG_INC: u64 = 1442695040888963407;

/// The successor state of the generator. Opaque: callers reason about
/// states symbolically; only the stepping function itself looks inside.
#[verifier::opaque]
pub open spec fn rng_next(s: u64) -> u64 {
    ((s * RNG_MUL + RNG_INC) % 0x1_0000_0000_0000_0000) as u64
}

/// The fixed-point fraction drawn from state `s`: the next state's high 16 bits.
pub open spec fn rng_fp(s: u64) -> int {
    (rng_next(s) >> 48) as int
}

/// The state after `k` draws.
pub open spec fn rng_after(s: u64, k: int) -> u64
    decreases k,
{
    if k <= 0 {
        s
    } else {
        rng_next(rng_after(s, k - 1))
    }
}

/// The scalar a range draw yields from state `s`: `a + (b - a) * fraction`.
pub open spec fn range_draw(s: u64, a: int, b: int) -> int {
    fp_add(a, fp_mul(fp_sub(b, a), rng_fp(s)))
}

pub struct Rng {
    pub state: u64,
}

proof fn lemma_shr48(x: u64)
    by (bit_vector)
    ensures
        x >> 48 < 0x10000,
{
}

impl Rng {
    /// A generator starting from the given seed.
    pub fn new(seed: u64) -> (r: Rng)
        ensures
            r.state == seed,
    {
        Rng { state: seed }
    }

    /// Advance the state once and return it.
    pub fn next_u64(&mut self) -> (r: u64)
        ensures
            final(self).state == rng_next(old(self).state),
            r == rng_next(old(self).state),
    {
        proof {
            reveal(rng_next);
            assert(self.state as int * RNG_MUL as int + RNG_INC as int <= u64::MAX as int * RNG_MUL as int + RNG_INC as int)
                by (nonlinear_arith);
        }
        let w: u128 = (self.state as u128) * (RNG_MUL as u128) + (RNG_INC as u128);
        let n: u64 = (w % 0x1_0000_0000_0000_0000u128) as u64;
        self.state = n;
        n
    }

    /// A fixed-point fraction uniform in `[0, FP_ONE)`.
    pub fn next_fp(&mut self) -> (r: i64)
        ensures
            final(self).state == rng_next(old(self).state),
            r as int == rng_fp(old(self).state),
            0 <= r < FP_ONE,
            in_fp(r as int),
    {
        let n = self.next_u64();
        proof {
            lemma_shr48(n);
        }
        (n >> 48u64) as i64
    }

    /// A fixed-point scalar uniform in `[a, b]`, drawn as `a + (b - a) * fraction`.
    pub fn next_range(&mut self, a: i64, b: i64) -> (r: i64)
        requires
            a <= b,
            in_fp(a as int),
            in_fp(b as int),
        ensures
            final(self).state == rng_next(old(self).state),
            r as int == range_draw(old(self).state, a as int, b as int),
            a <= r <= b,
            in_fp(r as int),
    {
        let f = self.next_fp();
        let d = sub_fp(b, a);
        let e = mul_fp(d, f);
        proof {
            lemma_mul_fraction(d as int, f as int);
        }
        add_fp(a, e)
    }

    /// A uniform index below `n`.
    pub fn next_index(&mut self, n: usize) -> (r: usize)
        requires
            n > 0,
        ensures
            final(self).state == rng_next(old(self).state),
            r < n,
            r as int == rng_fp(old(self).state) % n as int,
    {
        let n16 = self.next_fp();
        (n16 as usize) % n
    }
}

/// Multiplying a nonnegative scalar by a fraction below one cannot grow it.
proof fn lemma_mul_fraction(d: int, f: int)
    by (nonlinear_arith)
    requires
        0 <= d,
        0 <= f < FP_ONE,
    ensures
        0 <= (d * f) / (FP_ONE as int) <= d,
{
}

} // verus!
