use vstd::prelude::*;

verus! {

/// Length of one period of the reproduction clock, in milliseconds.
pub const CLOCK_PERIOD_MS: u64 = 1000;

/// A repeating interval timer: time accumulates, and each time the
/// accumulated amount reaches the period the timer fires and keeps the
/// remainder.
pub struct TickClock {
    pub elapsed_ms: u64,
}

/// Whether advancing a clock that holds `elapsed` milliseconds by `delta`
/// milliseconds fires it.
pub open spec fn fires(elapsed: int, delta: int) -> bool {
    elapsed + delta >= CLOCK_PERIOD_MS
}

/// What a clock holds after being advanced by `delta` milliseconds.
pub open spec fn elapsed_after(elapsed: int, delta: int) -> int {
    (elapsed + delta) % (CLOCK_PERIOD_MS as int)
}

/// What a fresh clock holds after `k` advances of `delta` milliseconds each.
pub open spec fn elapsed_after_steps(delta: int, k: nat) -> int
    decreases k,
{
    if k == 0 {
        0
    } else {
        elapsed_after(elapsed_after_steps(delta, (k - 1) as nat), delta)
    }
}

/// Whether the `k`-th advance (counting from one) of `delta` milliseconds
/// fires a fresh clock.
pub open spec fn fires_on_step(delta: int, k: nat) -> bool {
    fires(elapsed_after_steps(delta, (k - 1) as nat), delta)
}

/// With a fixed step of `delta` milliseconds, a fresh clock holds the
/// remainder of the total time after `k` steps, and the `k`-th step fires it
/// exactly when the total time passes a whole multiple of the period during
/// that step.
pub proof fn lemma_cadence(delta: int, k: nat)
    requires
        delta >= 0,
        k >= 1,
    ensures
        elapsed_after_steps(delta, k) == (k * delta) % (CLOCK_PERIOD_MS as int),
        fires_on_step(delta, k) == ((k * delta) / (CLOCK_PERIOD_MS as int) > ((k - 1) * delta) / (CLOCK_PERIOD_MS as int)),
    decreases k,
{
    let p = CLOCK_PERIOD_MS as int;
    let a = (k - 1) * delta;
    if k == 1 {
        assert(elapsed_after_steps(delta, 0) == 0);
        assert(a == 0) by (nonlinear_arith)
            requires a == (k - 1) * delta, k == 1;
    } else {
        lemma_cadence(delta, (k - 1) as nat);
    }
    assert(elapsed_after_steps(delta, (k - 1) as nat) == a % p) by {
        if k == 1 {
            vstd::arithmetic::div_mod::lemma_small_mod(0, p as nat);
        }
    }
    assert(a >= 0) by (nonlinear_arith)
        requires a == (k - 1) * delta, k >= 1, delta >= 0;
    assert(k * delta == a + delta) by (nonlinear_arith)
        requires a == (k - 1) * delta;
    vstd::arithmetic::div_mod::lemma_add_mod_noop_right(delta, a, p);
    let q = a / p;
    let r = a % p;
    vstd::arithmetic::div_mod::lemma_fundamental_div_mod(a, p);
    vstd::arithmetic::div_mod::lemma_mod_bound(a, p);
    vstd::arithmetic::div_mod::lemma_hoist_over_denominator(r + delta, q, p as nat);
    assert(r + delta + q * p == a + delta);
}

/// With a fixed step of `delta` milliseconds that divides the period, a
/// fresh clock fires on every `period / delta`-th step and on no other.
pub proof fn lemma_cadence_dividing(delta: int, k: nat)
    requires
        delta > 0,
        (CLOCK_PERIOD_MS as int) % delta == 0,
        k >= 1,
    ensures
        fires_on_step(delta, k) == ((k as int) % ((CLOCK_PERIOD_MS as int) / delta) == 0),
{
    let p = CLOCK_PERIOD_MS as int;
    lemma_cadence(delta, k);
    vstd::arithmetic::div_mod::lemma_fundamental_div_mod(p, delta);
    let m = p / delta;
    assert(p == delta * m);
    assert(m > 0) by (nonlinear_arith)
        requires p == delta * m, delta > 0, p > 0;
    assert forall|j: int| j >= 0 implies (#[trigger] (j * delta)) / p == j / m by {
        vstd::arithmetic::div_mod::lemma_div_multiples_vanish(j, delta);
        vstd::arithmetic::div_mod::lemma_div_denominator(j * delta, delta, m);
        assert(j * delta == delta * j) by (nonlinear_arith);
        assert(j * delta >= 0) by (nonlinear_arith)
            requires j >= 0, delta > 0;
    }
    assert((k * delta) / p == (k as int) / m);
    assert(((k - 1) * delta) / p == (k - 1) / m);
    let q = (k as int) / m;
    let r = (k as int) % m;
    vstd::arithmetic::div_mod::lemma_fundamental_div_mod(k as int, m);
    vstd::arithmetic::div_mod::lemma_mod_bound(k as int, m);
    if r == 0 {
        assert(k - 1 == m * (q - 1) + (m - 1)) by (nonlinear_arith)
            requires k == m * q + r, r == 0;
        vstd::arithmetic::div_mod::lemma_fundamental_div_mod_converse(k - 1, m, q - 1, m - 1);
    } else {
        vstd::arithmetic::div_mod::lemma_fundamental_div_mod_converse(k - 1, m, q, r - 1);
    }
}

impl TickClock {
    pub open spec fn wf(&self) -> bool {
        self.elapsed_ms < CLOCK_PERIOD_MS
    }

    /// A clock with nothing accumulated.
    pub fn new() -> (r: TickClock)
        ensures
            r.elapsed_ms == 0,
            r.wf(),
    {
        TickClock { elapsed_ms: 0 }
    }

    /// Adds `delta_ms` to the accumulated time; returns whether the period
    /// was reached, in which case only the remainder is kept.
    pub fn advance(&mut self, delta_ms: u64) -> (fired: bool)
        requires
            old(self).wf(),
        ensures
            final(self).wf(),
            fired == fires(old(self).elapsed_ms as int, delta_ms as int),
            final(self).elapsed_ms == elapsed_after(old(self).elapsed_ms as int, delta_ms as int),
    {
        let e = self.elapsed_ms;
        let part = delta_ms % CLOCK_PERIOD_MS;
        let fired = delta_ms >= CLOCK_PERIOD_MS - e;
        proof {
            vstd::arithmetic::div_mod::lemma_add_mod_noop(e as int, delta_ms as int, CLOCK_PERIOD_MS as int);
            vstd::arithmetic::div_mod::lemma_small_mod(e as nat, CLOCK_PERIOD_MS as nat);
        }
        self.elapsed_ms = (e + part) % CLOCK_PERIOD_MS;
        fired
    }
}

} // verus!
