//! A fixed-point simulation clock: a tick counter whose low six bits are the
//! fraction of a whole time unit.
use vstd::prelude::*;
use vstd::arithmetic::div_mod::lemma_mod_multiples_vanish;

verus! {

/// Number of fractional bits in a `SimTime`.
pub const FRAC_BITS: u64 = 6;

/// Ticks in one whole time unit (`1 << FRAC_BITS`).
pub const FACTOR: u64 = 64;

/// The number of distinct raw tick counts (the counter wraps past this).
pub open spec fn modulus() -> nat {
    0x1_0000_0000_0000_0000nat
}

/// Elapsed simulation time, counted in ticks of 1/64 of a whole unit.
#[derive(Clone, Copy, Debug, PartialEq, Eq, Hash, Structural)]
pub struct SimTime(u64);

impl View for SimTime {
    type V = nat;

    /// The raw tick count.
    closed spec fn view(&self) -> nat {
        self.0 as nat
    }
}

/// The raw count that follows `r` after one tick, wrapping at the integer width.
pub open spec fn next_tick(r: nat) -> nat {
    (r + 1) % modulus()
}

/// The raw count reached from `r` after `n` ticks.
pub open spec fn after_ticks(r: nat, n: nat) -> nat
    decreases n,
{
    if n == 0 {
        r
    } else {
        next_tick(after_ticks(r, (n - 1) as nat))
    }
}

/// The raw count that `whole_units` packs into, shifted past the fractional bits.
pub open spec fn packed(whole_units: nat) -> nat {
    (whole_units * FACTOR as nat) % modulus()
}

/// Whether `whole_units` has bits that shifting into place would drop.
pub open spec fn overflows_packing(whole_units: nat) -> bool {
    whole_units * FACTOR as nat >= modulus()
}

impl Default for SimTime {
    /// The zero time.
    fn default() -> (r: SimTime)
        ensures
            r@ == 0,
    {
        SimTime(0)
    }
}

/// The process-wide current simulation time, advanced once per step.
#[derive(Clone, Copy, Debug, PartialEq, Eq, Structural)]
pub struct Now(pub SimTime);

impl Default for Now {
    /// The clock at time zero.
    fn default() -> (r: Now)
        ensures
            r.0@ == 0,
    {
        Now(SimTime::default())
    }
}

impl SimTime {
    /// A time of `ticks` raw ticks.
    pub fn from_ticks(ticks: u64) -> (r: SimTime)
        ensures
            r@ == ticks,
    {
        SimTime(ticks)
    }

    /// The raw tick count.
    pub fn ticks(&self) -> (r: u64)
        ensures
            r == self@,
    {
        self.0
    }

    /// Whether packing `secs` whole units into a `SimTime` loses its high bits.
    pub fn loses_precision(secs: u64) -> (r: bool)
        ensures
            r == overflows_packing(secs as nat),
    {
        let r = secs != (secs << FRAC_BITS) >> FRAC_BITS;
        assert(r == (secs >= 0x400_0000_0000_0000u64)) by (bit_vector)
            requires
                r == (secs != (secs << 6u64) >> 6u64),
        ;
        r
    }

    /// The time of `secs` whole units. Where `secs` does not fit beside the
    /// fractional bits (see `loses_precision`) its high bits are dropped.
    pub fn from_secs(secs: u64) -> (r: SimTime)
        ensures
            r@ == packed(secs as nat),
            !overflows_packing(secs as nat) ==> r@ == secs * FACTOR,
    {
        let raw: u64 = secs << FRAC_BITS;
        assert(raw == secs * 64 % 0x1_0000_0000_0000_0000) by (bit_vector)
            requires
                raw == secs << 6u64,
        ;
        SimTime(raw)
    }

    /// Advances the clock by one tick, wrapping at the integer width.
    pub fn tick(&mut self)
        ensures
            final(self)@ == next_tick(old(self)@),
    {
        self.0 = self.0.wrapping_add(1);
    }

    /// The remainder of this time's tick count by `period`'s: the time folded
    /// into one period.
    pub fn rem(self, period: SimTime) -> (r: SimTime)
        requires
            period@ > 0,
        ensures
            r@ == self@ % period@,
            r@ < period@,
    {
        SimTime(self.0 % period.0)
    }
}

/// After `n` ticks the raw count is `r + n`, wrapped at the integer width.
pub proof fn lemma_after_ticks(r: nat, n: nat)
    requires
        r < modulus(),
    ensures
        after_ticks(r, n) == (r + n) % modulus(),
    decreases n,
{
    if n > 0 {
        lemma_after_ticks(r, (n - 1) as nat);
        let m = modulus() as int;
        let q = (r + n - 1) as int;
        assert(((q % m) + 1) % m == (q + 1) % m) by {
            lemma_mod_multiples_vanish(q / m, q % m + 1, m);
            vstd::arithmetic::div_mod::lemma_fundamental_div_mod(q, m);
        }
    }
}

/// Ticking a clock `period@` times brings its time folded into `period` back
/// to where it was, unless the counter wrapped past its width on the way and
/// `period@` does not divide the number of raw counts.
pub proof fn lemma_ticks_cycle_period(t: SimTime, period: SimTime)
    requires
        period@ > 0,
        t@ + period@ < modulus() || modulus() % period@ == 0,
    ensures
        after_ticks(t@, period@) % period@ == t@ % period@,
{
    lemma_after_ticks(t@, period@);
    let p = period@ as int;
    let m = modulus() as int;
    let r = t@ as int;
    if r + p < m {
        assert((r + p) % m == r + p) by {
            vstd::arithmetic::div_mod::lemma_small_mod((r + p) as nat, m as nat);
        }
        lemma_mod_multiples_vanish(1, r, p);
    } else {
        assert(t@ < modulus());
        let k = m / p;
        vstd::arithmetic::div_mod::lemma_fundamental_div_mod(m, p);
        assert(m == p * k);
        assert((r + p) % m == r + p - m) by {
            lemma_mod_multiples_vanish(-1, r + p, m);
            vstd::arithmetic::div_mod::lemma_small_mod((r + p - m) as nat, m as nat);
        }
        assert(r + p - m == p * (1 - k) + r) by (nonlinear_arith)
            requires
                m == p * k,
        ;
        lemma_mod_multiples_vanish(1 - k, r, p);
    }
}

/// Times that differ by whole periods fold to the same time within the period.
pub proof fn lemma_rem_whole_periods(t: SimTime, u: SimTime, period: SimTime, k: nat)
    requires
        period@ > 0,
        u@ == t@ + k * period@,
    ensures
        u@ % period@ == t@ % period@,
{
    let (p, r) = (period@ as int, t@ as int);
    assert(r + k * p == p * k + r) by (nonlinear_arith);
    lemma_mod_multiples_vanish(k as int, r, p);
}

} // verus!
