//! How a socket spaces out its attempts to reach a backend that is down.
use std::time::Duration;

use vstd::arithmetic::power2::{lemma2_to64, lemma_pow2_pos, lemma_pow2_strictly_increases, lemma_pow2_unfold, pow2};
use vstd::prelude::*;

verus! {

/// Shortest wait between two attempts, in milliseconds.
pub const MIN_DELAY: u64 = 10;

/// The longest wait, never below the shortest one.
pub open spec fn clamped_max(max: u64) -> u64 {
    if max < MIN_DELAY {
        MIN_DELAY
    } else {
        max
    }
}

/// The first wait, never below the shortest one nor above the longest one.
pub open spec fn clamped_base(base: u64, max: u64) -> u64 {
    if base > clamped_max(max) {
        clamped_max(max)
    } else if base < MIN_DELAY {
        MIN_DELAY
    } else {
        base
    }
}

/// How many times the first wait the `retry`-th attempt waits for, before the longest wait caps it.
pub open spec fn factor(retry: u32) -> nat {
    if retry == 0 {
        0
    } else if retry <= 32 {
        pow2((retry - 1) as nat)
    } else {
        u32::MAX as nat
    }
}

/// The wait before the `retry`-th consecutive attempt, in milliseconds.
pub open spec fn delay_of(base: u64, max: u64, retry: u32) -> nat {
    let delay = clamped_base(base, max) * factor(retry);
    if delay > clamped_max(max) {
        clamped_max(max) as nat
    } else {
        delay as nat
    }
}

/// The waits between two attempts to reach a backend, in milliseconds.
#[derive(Debug, Clone, Copy, PartialEq, Eq, Structural)]
pub struct Backoff {
    base: u64,
    max: u64,
}

impl Backoff {
    /// The first wait.
    pub closed spec fn spec_base(self) -> u64 {
        self.base
    }

    /// The longest wait.
    pub closed spec fn spec_max(self) -> u64 {
        self.max
    }

    /// The waits are within their limits.
    pub open spec fn wf(self) -> bool {
        MIN_DELAY <= self.spec_base() <= self.spec_max()
    }

    /// A backoff that starts at `base` and never waits more than `max`.
    pub fn new(base: u64, max: u64) -> (r: Backoff)
        ensures
            r.wf(),
            r.spec_base() == clamped_base(base, max),
            r.spec_max() == clamped_max(max),
    {
        let (base, max) = prosa_backoff(base, max);
        Backoff { base, max }
    }

    /// The first wait, in milliseconds.
    pub fn base(&self) -> (r: u64)
        ensures
            r == self.spec_base(),
    {
        self.base
    }

    /// The longest wait, in milliseconds.
    pub fn max(&self) -> (r: u64)
        ensures
            r == self.spec_max(),
    {
        self.max
    }

    /// The wait before the `retry`-th consecutive attempt, in milliseconds. A socket that never
    /// failed does not wait.
    pub fn delay(&self, retry: u32) -> (r: u64)
        ensures
            r == delay_of(self.spec_base(), self.spec_max(), retry),
    {
        prosa_delay(self.base, self.max, retry)
    }

    /// How long a connection that served nothing must have lasted to count as a working one, in
    /// milliseconds.
    pub fn healthy_connection(&self) -> (r: u64)
        ensures
            r == self.spec_base(),
    {
        self.base
    }
}

/// Calls `prosa::io::pool::Backoff::new` and reads back its two delays, in milliseconds.
///
/// Trusted: the longest delay is floored at the shortest wait, and the first one is capped at the
/// longest then floored the same way.
#[verifier::external_body]
fn prosa_backoff(base: u64, max: u64) -> (r: (u64, u64))
    ensures
        r.0 == clamped_base(base, max),
        r.1 == clamped_max(max),
{
    let backoff = prosa::io::pool::Backoff::new(
        Duration::from_millis(base),
        Duration::from_millis(max),
    );
    (backoff.base().as_millis() as u64, backoff.max().as_millis() as u64)
}

/// Calls `prosa::io::pool::Backoff::delay` on the backoff made of `base` and `max`, in milliseconds.
///
/// Trusted: no wait for a socket that never failed, then the first delay times the power of two of
/// the failures before the last, capped at the longest delay. The multiplier itself stops growing
/// where 32 bits end.
#[verifier::external_body]
fn prosa_delay(base: u64, max: u64, retry: u32) -> (r: u64)
    ensures
        r == delay_of(base, max, retry),
{
    let backoff = prosa::io::pool::Backoff::new(
        Duration::from_millis(base),
        Duration::from_millis(max),
    );
    backoff.delay(retry).as_millis() as u64
}

/// The waits of a backoff are clamped once and for all.
pub proof fn lemma_clamped_delay(base: u64, max: u64, retry: u32)
    ensures
        delay_of(clamped_base(base, max), clamped_max(max), retry) == delay_of(base, max, retry),
        delay_of(base, max, retry) <= u64::MAX,
{
}

/// The multiplier never shrinks from one failure to the next.
proof fn lemma_factor_grows(retry: u32, later: u32)
    requires
        retry <= later,
    ensures
        factor(retry) <= factor(later),
        retry > 0 ==> factor(retry) >= 1,
{
    lemma2_to64();
    if 0 < retry {
        if retry <= 32 {
            lemma_pow2_pos((retry - 1) as nat);
            if later <= 32 {
                if retry < later {
                    lemma_pow2_strictly_increases((retry - 1) as nat, (later - 1) as nat);
                }
            } else if retry < 32 {
                lemma_pow2_strictly_increases((retry - 1) as nat, 31);
            }
        }
    }
}

/// A socket that never failed connects without waiting.
pub proof fn law_first_attempt_is_immediate(base: u64, max: u64)
    ensures
        delay_of(base, max, 0) == 0,
{
    assert(clamped_base(base, max) * 0 == 0) by (nonlinear_arith);
}

/// After a failure a socket always waits, no less than the first delay and no more than the
/// longest, whatever was configured.
pub proof fn law_delay_is_bounded(base: u64, max: u64, retry: u32)
    requires
        retry > 0,
    ensures
        MIN_DELAY <= clamped_base(base, max) <= delay_of(base, max, retry) <= clamped_max(max),
{
    lemma_factor_grows(retry, retry);
    let b = clamped_base(base, max) as int;
    let f = factor(retry) as int;
    assert(b <= b * f) by (nonlinear_arith)
        requires
            b >= 0,
            f >= 1,
    ;
}

/// The delay never shrinks while the failures go on.
pub proof fn law_delay_never_shrinks(base: u64, max: u64, retry: u32, later: u32)
    requires
        retry <= later,
    ensures
        delay_of(base, max, retry) <= delay_of(base, max, later),
{
    lemma_factor_grows(retry, later);
    let b = clamped_base(base, max) as int;
    let f = factor(retry) as int;
    let g = factor(later) as int;
    assert(b * f <= b * g) by (nonlinear_arith)
        requires
            b >= 0,
            f <= g,
    ;
}

/// The delay doubles on every consecutive failure until the longest delay caps it, for as long as
/// the multiplier fits in 32 bits.
pub proof fn law_delay_doubles(base: u64, max: u64, retry: u32)
    requires
        0 < retry < 32,
    ensures
        delay_of(base, max, (retry + 1) as u32) == if 2 * delay_of(base, max, retry) > clamped_max(
            max,
        ) {
            clamped_max(max) as int
        } else {
            2 * delay_of(base, max, retry) as int
        },
{
    lemma_pow2_unfold(retry as nat);
    let b = clamped_base(base, max) as int;
    let f = factor(retry) as int;
    let g = factor((retry + 1) as u32) as int;
    assert(g == 2 * f);
    assert(b * g == 2 * (b * f)) by (nonlinear_arith)
        requires
            g == 2 * f,
    ;
    assert(b * f >= 0) by (nonlinear_arith)
        requires
            b >= 0,
            f >= 0,
    ;
}

/// The first wait is the one that is asked for, within ten milliseconds and the longest wait.
pub proof fn law_first_wait(base: u64, max: u64)
    ensures
        delay_of(base, max, 1) == clamped_base(base, max),
        10 <= base <= max ==> clamped_base(base, max) == base,
        base < 10 ==> clamped_base(base, max) == 10,
        10 <= max < base ==> clamped_base(base, max) == max,
        max < 10 ==> clamped_base(base, max) == 10,
{
    lemma2_to64();
    assert(clamped_base(base, max) * 1 == clamped_base(base, max)) by (nonlinear_arith);
}

/// The longest wait is the one that is asked for, and ten milliseconds at least.
pub proof fn law_longest_wait(max: u64)
    ensures
        max >= 10 ==> clamped_max(max) == max,
        max < 10 ==> clamped_max(max) == 10,
{
}

/// The multiplier stops growing where 32 bits end: every wait from the thirty-third failure on is the
/// same, that many times the first one at most.
pub proof fn law_delay_stops_growing(base: u64, max: u64, retry: u32)
    requires
        retry > 32,
    ensures
        delay_of(base, max, retry) == if clamped_base(base, max) * 0xFFFF_FFFF > clamped_max(max) {
            clamped_max(max) as int
        } else {
            clamped_base(base, max) * 0xFFFF_FFFF
        },
{
}

} // verus!
