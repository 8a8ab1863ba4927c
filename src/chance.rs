//! Randomness primitives: Bernoulli trials, rounded exponential samples and
//! uniform choice, drawn from a seedable generator.
//!
//! Probabilities are given in parts per million: `PPM` stands for certainty.
use vstd::prelude::*;
use rand::Rng;
use rand::SeedableRng;

verus! {

/// rand's seedable `StdRng`, held as an opaque value and advanced only
/// through the trusted calls below.
#[verifier::external_type_specification]
#[verifier::external_body]
pub struct ExStdRng(rand::rngs::StdRng);

/// Certainty, in parts per million.
pub const PPM: u32 = 1000000;

/// The largest count that `exp_rand_int` returns.
pub const EXP_CAP: u64 = 100000;

/// Fixed-point scale of the exponential sampler (2^32).
pub const SCALE: u64 = 4294967296;

/// Relies on `SeedableRng::seed_from_u64` of rand's `StdRng`: a generator whose
/// stream depends on the seed alone.
#[verifier::external_body]
pub(crate) fn seeded(seed: u64) -> rand::rngs::StdRng {
    rand::rngs::StdRng::seed_from_u64(seed)
}

/// Relies on `Rng::gen_range` over `0..n`: a value below `n` (it panics on an
/// empty range, which `requires` rules out).
#[verifier::external_body]
fn below(rng: &mut rand::rngs::StdRng, n: u64) -> (r: u64)
    requires
        n > 0,
    ensures
        r < n,
{
    rng.gen_range(0..n)
}

pub open spec fn hit_spec(draw: u64, ppm: u32) -> bool {
    draw < ppm as u64
}

/// Whether a draw from `[0, PPM)` falls below `ppm`.
pub fn hit(draw: u64, ppm: u32) -> (r: bool)
    ensures
        r == hit_spec(draw, ppm),
{
    draw < ppm as u64
}

/// A Bernoulli trial that succeeds with probability `ppm / PPM`: a uniform
/// draw from `[0, PPM)` that falls below `ppm`.
pub fn chance(rng: &mut rand::rngs::StdRng, ppm: u32) -> (r: bool)
    ensures
        exists|d: u64| d < PPM && r == #[trigger] hit_spec(d, ppm),
        ppm == 0 ==> !r,
        ppm >= PPM ==> r,
{
    let d = below(rng, PPM as u64);
    hit(d, ppm)
}

/// A seed for a generator of its own, drawn from `rng`.
pub fn draw_seed(rng: &mut rand::rngs::StdRng) -> (r: u64)
    ensures
        r < u64::MAX,
{
    below(rng, u64::MAX)
}

/// A uniform index below `len`.
pub fn choose_index(rng: &mut rand::rngs::StdRng, len: usize) -> (r: usize)
    requires
        len > 0,
    ensures
        r < len,
{
    below(rng, len as u64) as usize
}

/// Term `n` of the series of `e^(-1/mean)` in fixed point:
/// `SCALE / (n! * mean^n)`, each step rounded down.
pub open spec fn series_term(mean: nat, n: nat) -> nat
    decreases n,
{
    if n == 0 {
        SCALE as nat
    } else {
        series_term(mean, (n - 1) as nat) / (n * mean)
    }
}

/// The alternating sum of the terms up to `n`.
pub open spec fn series_sum(mean: nat, n: nat) -> int
    decreases n,
{
    if n == 0 {
        SCALE as int
    } else if n % 2 == 1 {
        series_sum(mean, (n - 1) as nat) - series_term(mean, n)
    } else {
        series_sum(mean, (n - 1) as nat) + series_term(mean, n)
    }
}

/// Terms of the series that `decay_per_step` adds up.
pub const SERIES_TERMS: u64 = 12;

/// `e^(-1/mean)` in fixed point with scale `SCALE`: the series up to term
/// `SERIES_TERMS`, kept within `[0, SCALE]`.
pub open spec fn decay_spec(mean: nat) -> nat {
    let s = series_sum(mean, SERIES_TERMS as nat);
    if s < 0 {
        0
    } else if s > SCALE as int {
        SCALE as nat
    } else {
        s as nat
    }
}

pub fn decay_per_step(mean: u32) -> (q: u64)
    requires
        mean > 0,
    ensures
        q as nat == decay_spec(mean as nat),
        q <= SCALE,
{
    let mut term: u64 = SCALE;
    let mut sum: i128 = SCALE as i128;
    let mut n: u64 = 1;
    while n <= SERIES_TERMS
        invariant
            1 <= n <= 13,
            term <= 4294967296,
            term as nat == series_term(mean as nat, (n - 1) as nat),
            sum as int == series_sum(mean as nat, (n - 1) as nat),
            -4294967296 * (n as i128) <= sum <= 4294967296 * (n as i128),
            mean > 0,
        decreases 13 - n,
    {
        let m: u64 = mean as u64;
        proof {
            assert(n * m <= 12 * 4294967295) by (nonlinear_arith)
                requires n <= 12, m <= 4294967295;
            assert(n * m >= 1) by (nonlinear_arith)
                requires n >= 1, m >= 1;
        }
        let d: u64 = n * m;
        term = term / d;
        if n % 2 == 1 {
            sum = sum - term as i128;
        } else {
            sum = sum + term as i128;
        }
        n += 1;
    }
    if sum < 0 {
        0
    } else if sum > SCALE as i128 {
        SCALE
    } else {
        sum as u64
    }
}

/// The tail `q^k` of the count distribution in fixed point, each step
/// rounded down.
pub open spec fn tail(q: nat, k: nat) -> nat
    decreases k,
{
    if k <= 1 {
        q
    } else {
        tail(q, (k - 1) as nat) * q / SCALE as nat
    }
}

/// What `exp_count` returns.
pub open spec fn exp_count_spec(u: u64, q: nat) -> u64 {
    choose|r: u64| 1 <= r <= EXP_CAP
        && (forall|j: nat| 1 <= j < r ==> (u as nat) < #[trigger] tail(q, j))
        && (r < EXP_CAP ==> (u as nat) >= tail(q, r as nat))
}

/// The count for the uniform draw `u` and the per-step factor `q`: the
/// smallest `k >= 1` whose tail `u` reaches, or `EXP_CAP`.
pub fn exp_count(u: u64, q: u64) -> (r: u64)
    requires
        q <= SCALE,
    ensures
        1 <= r <= EXP_CAP,
        forall|j: nat| 1 <= j < r ==> (u as nat) < #[trigger] tail(q as nat, j),
        r < EXP_CAP ==> (u as nat) >= tail(q as nat, r as nat),
        r == exp_count_spec(u, q as nat),
{
    let mut k: u64 = 1;
    let mut t: u64 = q;
    while u < t && k < EXP_CAP
        invariant
            1 <= k <= EXP_CAP,
            t <= SCALE,
            q <= SCALE,
            t as nat == tail(q as nat, k as nat),
            forall|j: nat| 1 <= j < k ==> (u as nat) < #[trigger] tail(q as nat, j),
        decreases EXP_CAP - k,
    {
        proof {
            assert((t as u128) * (q as u128) <= 4294967296u128 * 4294967296u128) by (nonlinear_arith)
                requires t <= 4294967296u64, q <= 4294967296u64;
        }
        let prod: u128 = t as u128 * q as u128;
        proof {
            assert(prod / 4294967296u128 <= 4294967296u128) by (nonlinear_arith)
                requires prod <= 4294967296u128 * 4294967296u128;
        }
        let ghost tk = t;
        t = (prod / SCALE as u128) as u64;
        k += 1;
        proof {
            assert(tail(q as nat, k as nat) == tail(q as nat, (k - 1) as nat) * (q as nat) / (SCALE as nat));
            assert forall|j: nat| 1 <= j < k implies (u as nat) < #[trigger] tail(q as nat, j) by {
                if j == k - 1 {
                    assert(tail(q as nat, j) == tk as nat);
                }
            }
        }
    }
    k
}

/// `n` is a possible outcome of `exp_rand_int(mean)`: zero for a zero mean,
/// else the count for some uniform draw below `SCALE`.
pub open spec fn is_exp_outcome(mean: u32, n: nat) -> bool {
    &&& mean == 0 ==> n == 0
    &&& mean > 0 ==> 1 <= n <= EXP_CAP && exists|u: u64|
        u < SCALE && n == #[trigger] exp_count_spec(u, decay_spec(mean as nat)) as nat
}

/// `⌈-ln(U) * mean⌉` for a uniform `U`: a count of at least one whose tail
/// falls by the factor `e^(-1/mean)` per step, capped at `EXP_CAP`; zero
/// when `mean` is zero.
pub fn exp_rand_int(rng: &mut rand::rngs::StdRng, mean: u32) -> (r: u64)
    ensures
        mean == 0 ==> r == 0,
        mean > 0 ==> 1 <= r <= EXP_CAP,
        mean > 0 ==> exists|u: u64| u < SCALE && r == #[trigger] exp_count_spec(u, decay_spec(mean as nat)),
        is_exp_outcome(mean, r as nat),
{
    if mean == 0 {
        return 0;
    }
    let q = decay_per_step(mean);
    let u = below(rng, SCALE);
    exp_count(u, q)
}

} // verus!
