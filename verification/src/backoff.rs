//! Exponential backoff with a cap, used between orchestrator reconnect
//! attempts: delays double from a base until they reach the cap, and reset
//! to the base on a successful connect.

use vstd::prelude::*;
use vstd::arithmetic::power2::*;

verus! {

/// The mathematical delay sequence: the n-th delay (counting from 0) of a
/// backoff with the given base and cap.
pub open spec fn spec_delay(base: u64, cap: u64, n: nat) -> int {
    vstd::math::min(base * pow2(n), cap as int)
}

pub struct ReconnectBackoff {
    base_secs: u64,
    current_secs: u64,
    max_secs: u64,
}

impl ReconnectBackoff {
    pub closed spec fn base(self) -> u64 {
        self.base_secs
    }

    pub closed spec fn cap(self) -> u64 {
        self.max_secs
    }

    pub closed spec fn current(self) -> u64 {
        self.current_secs
    }

    /// The next delay handed out is always `min(base * 2^k, cap)` for the
    /// number `k` of delays handed out since the last reset.
    pub closed spec fn wf(self) -> bool {
        exists|n: nat| self.current_secs == spec_delay(self.base_secs, self.max_secs, n)
    }

    pub fn new(base: u64, max: u64) -> (r: Self)
        ensures
            r.base() == base,
            r.cap() == max,
            r.current() == spec_delay(base, max, 0),
            r.wf(),
    {
        proof {
            lemma_pow2_unfold_zero();
            assert(spec_delay(base, max, 0) == vstd::math::min(base as int, max as int));
        }
        let current: u64 = if base <= max { base } else { max };
        let r = Self { base_secs: base, current_secs: current, max_secs: max };
        proof {
            assert(r.current_secs == spec_delay(r.base_secs, r.max_secs, 0));
            assert(r.wf());
        }
        r
    }

    /// Hands out the current delay and doubles it, capped at the maximum.
    pub fn next_delay_secs(&mut self) -> (delay: u64)
        ensures
            delay == old(self).current(),
            final(self).current() == vstd::math::min(old(self).current() * 2, old(self).cap() as int),
            final(self).base() == old(self).base(),
            final(self).cap() == old(self).cap(),
            old(self).wf() ==> delay <= old(self).cap(),
            old(self).wf() ==> final(self).wf(),
    {
        let delay = self.current_secs;
        let doubled: u64 = if self.current_secs >= 0x8000_0000_0000_0000 {
            self.max_secs
        } else if self.current_secs * 2 >= self.max_secs {
            self.max_secs
        } else {
            self.current_secs * 2
        };
        proof {
            if self.current_secs >= 0x8000_0000_0000_0000u64 {
                assert(self.current_secs * 2 >= 0x1_0000_0000_0000_0000int);
            }
            assert(doubled == vstd::math::min(self.current_secs * 2, self.max_secs as int));
            if old(self).wf() {
                let n = choose|n: nat|
                    old(self).current_secs == spec_delay(
                        old(self).base_secs,
                        old(self).max_secs,
                        n,
                    );
                lemma_delay_step(old(self).base_secs, old(self).max_secs, n);
                assert(doubled == spec_delay(old(self).base_secs, old(self).max_secs, n + 1));
            }
        }
        self.current_secs = doubled;
        delay
    }

    /// Resets the delay to the base, done after a successful connect.
    pub fn reset(&mut self)
        ensures
            final(self).current() == spec_delay(old(self).base(), old(self).cap(), 0),
            final(self).base() == old(self).base(),
            final(self).cap() == old(self).cap(),
            final(self).wf(),
    {
        proof {
            lemma_pow2_unfold_zero();
        }
        let current: u64 = if self.base_secs <= self.max_secs { self.base_secs } else { self.max_secs };
        self.current_secs = current;
        proof {
            assert(self.current_secs == spec_delay(self.base_secs, self.max_secs, 0));
        }
    }
}

proof fn lemma_pow2_unfold_zero()
    ensures
        pow2(0) == 1,
{
    lemma2_to64();
}

/// Doubling a capped delay advances the delay sequence by one step.
proof fn lemma_delay_step(base: u64, cap: u64, n: nat)
    ensures
        vstd::math::min(spec_delay(base, cap, n) * 2, cap as int) == spec_delay(base, cap, n + 1),
{
    lemma_pow2_strictly_increases(n, n + 1);
    lemma_pow2_adds(n, 1);
    lemma2_to64();
    assert(pow2(n + 1) == pow2(n) * 2);
    if base * pow2(n) >= cap {
        assert(base * pow2(n + 1) >= base * pow2(n)) by (nonlinear_arith)
            requires pow2(n + 1) >= pow2(n), base >= 0;
    } else {
        assert(base * pow2(n + 1) == (base * pow2(n)) * 2) by (nonlinear_arith)
            requires pow2(n + 1) == pow2(n) * 2;
    }
}

/// The law of the backoff sequence: every delay the machine can hand out is
/// `min(base * 2^n, cap)` for some n; in particular no delay ever exceeds
/// the cap, and a reset starts the sequence over at `min(base, cap)`.
pub proof fn lemma_backoff_delay_bounded(b: ReconnectBackoff)
    requires
        b.wf(),
    ensures
        b.current() <= b.cap(),
{
    let n = choose|n: nat| b.current() == spec_delay(b.base(), b.cap(), n);
}

/// The closed form of the delay sequence: starting from a fresh (or freshly
/// reset) backoff, the k-th call of `next_delay_secs` hands out
/// `min(base * 2^k, cap)`.
pub proof fn lemma_backoff_closed_form(base: u64, cap: u64, n: nat)
    requires
        base <= cap,
    ensures
        spec_delay(base, cap, n) <= cap,
        spec_delay(base, cap, 0) == base,
        vstd::math::min(spec_delay(base, cap, n) * 2, cap as int) == spec_delay(base, cap, n + 1),
{
    lemma_pow2_unfold_zero();
    lemma_delay_step(base, cap, n);
    lemma_pow2_pos(n);
    assert(base * pow2(n) >= base * 1) by (nonlinear_arith)
        requires pow2(n) >= 1, base >= 0;
}

} // verus!
