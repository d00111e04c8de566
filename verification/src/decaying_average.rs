//! An exponentially decaying scalar with wall-clock timestamps.
//!
//! The average halves every half-life with no updates. Decay is computed in
//! exact integer arithmetic: the magnitude is divided by two for every full
//! half-life elapsed, and reduced linearly within a partial half-life. A
//! half-life of zero decays any value to zero as soon as time advances.

use vstd::prelude::*;
use vstd::arithmetic::div_mod::{
    lemma_div_by_self, lemma_div_nonincreasing, lemma_div_pos_is_pos, lemma_fundamental_div_mod,
    lemma_mod_self_0,
};
use vstd::arithmetic::mul::{lemma_mul_inequality, lemma_mul_nonnegative};
use vstd::arithmetic::power2::{
    lemma2_to64, lemma_pow2_adds, lemma_pow2_pos, lemma_pow2_strictly_increases, pow2,
};
use vstd::bits::lemma_u128_shr_is_div;

verus! {

/// Error raised when a sample carries a timestamp earlier than the average's
/// last update.
#[derive(Clone, Copy, PartialEq, Eq, Structural, Debug)]
pub enum ErrDecayingAverage {
    TimeAdditionError,
}

/// A signed scalar held as a sign and a magnitude. Revenue contributions may
/// be negative (an opportunity cost can outweigh a fee), so the decaying
/// averages range over these. Magnitudes saturate at `u128::MAX`.
#[derive(Clone, Copy, PartialEq, Eq, Structural, Debug)]
pub struct SignedValue {
    pub negative: bool,
    pub magnitude: u128,
}

/// Clamps a mathematical integer into the range representable by a
/// `SignedValue`.
pub open spec fn sat_signed(x: int) -> int {
    if x > u128::MAX as int {
        u128::MAX as int
    } else if x < -(u128::MAX as int) {
        -(u128::MAX as int)
    } else {
        x
    }
}

/// The canonical `SignedValue` for an integer with `|x| <= u128::MAX`.
pub open spec fn signed_of(x: int) -> SignedValue {
    if x < 0 {
        SignedValue { negative: true, magnitude: (-x) as u128 }
    } else {
        SignedValue { negative: false, magnitude: x as u128 }
    }
}

impl SignedValue {
    /// Zero is canonically non-negative, so equal values are equal structures.
    pub open spec fn wf(self) -> bool {
        self.negative ==> self.magnitude > 0
    }

    pub open spec fn value(self) -> int {
        if self.negative {
            -(self.magnitude as int)
        } else {
            self.magnitude as int
        }
    }

    pub fn zero() -> (r: SignedValue)
        ensures
            r.wf(),
            r.value() == 0,
    {
        SignedValue { negative: false, magnitude: 0 }
    }

    pub fn new(negative: bool, magnitude: u128) -> (r: SignedValue)
        ensures
            r.wf(),
            r.value() == if negative {
                -(magnitude as int)
            } else {
                magnitude as int
            },
    {
        if magnitude == 0 {
            SignedValue { negative: false, magnitude: 0 }
        } else {
            SignedValue { negative, magnitude }
        }
    }

    pub fn negated(self) -> (r: SignedValue)
        requires
            self.wf(),
        ensures
            r.wf(),
            r.value() == -self.value(),
    {
        if self.magnitude == 0 {
            SignedValue { negative: false, magnitude: 0 }
        } else {
            SignedValue { negative: !self.negative, magnitude: self.magnitude }
        }
    }

    /// Signed addition whose result is clamped to the representable range.
    pub fn saturating_add(self, other: SignedValue) -> (r: SignedValue)
        requires
            self.wf(),
            other.wf(),
        ensures
            r.wf(),
            r == signed_of(sat_signed(self.value() + other.value())),
    {
        if self.negative == other.negative {
            let magnitude: u128 = if self.magnitude > u128::MAX - other.magnitude {
                u128::MAX
            } else {
                self.magnitude + other.magnitude
            };
            SignedValue { negative: self.negative && magnitude > 0, magnitude }
        } else if self.magnitude >= other.magnitude {
            let magnitude: u128 = self.magnitude - other.magnitude;
            SignedValue { negative: self.negative && magnitude > 0, magnitude }
        } else {
            let magnitude: u128 = other.magnitude - self.magnitude;
            SignedValue { negative: other.negative && magnitude > 0, magnitude }
        }
    }
}

/// The magnitude that remains of `m` after `dt` seconds of decay with
/// half-life `h`: one halving per full half-life elapsed, then a linear
/// reduction for the remaining seconds.
pub open spec fn decayed_mag(m: int, dt: int, h: int) -> int {
    if dt <= 0 {
        m
    } else if h <= 0 {
        0
    } else {
        let k = dt / h;
        let rem = dt % h;
        let m1 = m / (pow2(k as nat) as int);
        m1 - (m1 / (2 * h)) * rem
    }
}

/// Decay applied to a signed value: the magnitude decays, the sign is kept
/// (and cleared once the magnitude reaches zero).
pub open spec fn decayed_value(v: SignedValue, dt: int, h: int) -> SignedValue {
    let m = decayed_mag(v.magnitude as int, dt, h);
    SignedValue { negative: v.negative && m > 0, magnitude: m as u128 }
}

/// Executable decay of a magnitude; matches `decayed_mag` exactly.
fn decay_mag(m: u128, dt: u64, h: u64) -> (r: u128)
    ensures
        r as int == decayed_mag(m as int, dt as int, h as int),
        r <= m,
{
    if dt == 0 {
        return m;
    }
    if h == 0 {
        return 0;
    }
    let k: u64 = dt / h;
    let rem: u64 = dt % h;
    let m1: u128 = if k >= 128 {
        proof {
            lemma2_to64();
            lemma_pow2_adds(64, 64);
            if k > 128 {
                lemma_pow2_strictly_increases(128, k as nat);
            }
            assert(pow2(128) > u128::MAX);
            assert(pow2(k as nat) >= pow2(128));
            assert(m < pow2(k as nat));
            assert(m as int / (pow2(k as nat) as int) == 0) by {
                vstd::arithmetic::div_mod::lemma_basic_div(m as int, pow2(k as nat) as int);
            }
        }
        0
    } else {
        proof {
            lemma_u128_shr_is_div(m, k as u128);
        }
        m >> (k as u128)
    };
    proof {
        lemma_pow2_pos(k as nat);
        lemma_div_nonincreasing(m as int, pow2(k as nat) as int);
        lemma_div_pos_is_pos(m as int, pow2(k as nat) as int);
    }
    let denom: u128 = 2 * (h as u128);
    let q: u128 = m1 / denom;
    proof {
        lemma_fundamental_div_mod(m1 as int, denom as int);
        assert((denom as int) * (q as int) <= m1 as int);
        lemma_mul_inequality(rem as int, denom as int, q as int);
        lemma_mul_nonnegative(rem as int, q as int);
        vstd::arithmetic::mul::lemma_mul_is_commutative(q as int, rem as int);
        vstd::arithmetic::mul::lemma_mul_is_commutative(denom as int, q as int);
        assert((q as int) * (rem as int) <= m1 as int);
    }
    let sub: u128 = q * (rem as u128);
    m1 - sub
}

/// A starting state for a `DecayingAverage`, used to seed a tracker with
/// previously accrued value.
#[derive(Clone, Copy, PartialEq, Eq, Structural, Debug)]
pub struct DecayingAverageStart {
    pub last_update: u64,
    pub value: SignedValue,
}

/// An exponentially decaying scalar. The half-life is half the configured
/// period, so the value halves every `period / 2` seconds without updates.
#[derive(Clone, Copy, PartialEq, Eq, Structural, Debug)]
pub struct DecayingAverage {
    pub value: SignedValue,
    pub last_update: u64,
    pub half_life: u64,
}

impl DecayingAverage {
    pub open spec fn wf(self) -> bool {
        self.value.wf()
    }

    /// The timestamp actually used for an update: the wall clock, unless it
    /// lags behind the last update, which would make time run backwards.
    pub open spec fn clamped(self, now: u64) -> u64 {
        if now >= self.last_update {
            now
        } else {
            self.last_update
        }
    }

    /// The state after decaying up to `now` (clamped), as `get_value` leaves
    /// it.
    pub open spec fn spec_observe(self, now: u64) -> DecayingAverage {
        let t = self.clamped(now);
        DecayingAverage {
            value: decayed_value(self.value, t - self.last_update, self.half_life as int),
            last_update: t,
            half_life: self.half_life,
        }
    }

    /// The state after decaying up to `now` (clamped) and adding `delta`, as
    /// `add` leaves it.
    pub open spec fn spec_add(self, delta: int, now: u64) -> DecayingAverage {
        let observed = self.spec_observe(now);
        DecayingAverage {
            value: signed_of(sat_signed(observed.value.value() + delta)),
            last_update: observed.last_update,
            half_life: observed.half_life,
        }
    }

    /// With a non-zero start the stored value and timestamp are adopted;
    /// otherwise the average starts at zero from the current time.
    pub fn new(period_s: u64, start_value: DecayingAverageStart, now: u64) -> (r: DecayingAverage)
        requires
            start_value.value.wf(),
        ensures
            r.wf(),
            r.half_life == period_s / 2,
            start_value.value.magnitude != 0 ==> r.value == start_value.value
                && r.last_update == start_value.last_update,
            start_value.value.magnitude == 0 ==> r.value.value() == 0 && r.last_update == now,
    {
        let half_life: u64 = period_s / 2;
        if start_value.value.magnitude != 0 {
            DecayingAverage { value: start_value.value, last_update: start_value.last_update, half_life }
        } else {
            DecayingAverage {
                value: SignedValue { negative: false, magnitude: 0 },
                last_update: now,
                half_life,
            }
        }
    }

    /// Applies decay from `last_update` up to `update_time`.
    fn update(&mut self, update_time: u64)
        requires
            old(self).wf(),
            update_time >= old(self).last_update,
        ensures
            *final(self) == (DecayingAverage {
                value: decayed_value(
                    old(self).value,
                    update_time - old(self).last_update,
                    old(self).half_life as int,
                ),
                last_update: update_time,
                half_life: old(self).half_life,
            }),
            final(self).wf(),
    {
        let dt: u64 = update_time - self.last_update;
        let m: u128 = decay_mag(self.value.magnitude, dt, self.half_life);
        self.value = SignedValue { negative: self.value.negative && m > 0, magnitude: m };
        self.last_update = update_time;
    }

    /// Decays up to `now` and adds `value` (which may be negative). The last
    /// update never moves backwards, so a lagging clock adds at the last
    /// update time.
    pub fn add(&mut self, value: SignedValue, now: u64)
        requires
            old(self).wf(),
            value.wf(),
        ensures
            final(self).wf(),
            *final(self) == old(self).spec_add(value.value(), now),
            final(self).last_update >= old(self).last_update,
    {
        let t: u64 = if now < self.last_update {
            self.last_update
        } else {
            now
        };
        self.update(t);
        self.value = self.value.saturating_add(value);
    }

    /// Like `add`, but at an explicit timestamp; fails, and changes nothing,
    /// exactly when the timestamp lies before the last update.
    pub fn add_time(&mut self, value: SignedValue, specific_timestamp: u64) -> (r: Result<
        bool,
        ErrDecayingAverage,
    >)
        requires
            old(self).wf(),
            value.wf(),
        ensures
            final(self).wf(),
            final(self).last_update >= old(self).last_update,
            specific_timestamp < old(self).last_update ==> r == Err::<bool, ErrDecayingAverage>(
                ErrDecayingAverage::TimeAdditionError,
            ) && *final(self) == *old(self),
            specific_timestamp >= old(self).last_update ==> r == Ok::<bool, ErrDecayingAverage>(true)
                && *final(self) == old(self).spec_add(value.value(), specific_timestamp),
    {
        if specific_timestamp < self.last_update {
            return Err(ErrDecayingAverage::TimeAdditionError);
        }
        self.update(specific_timestamp);
        self.value = self.value.saturating_add(value);
        Ok(true)
    }

    /// Decays up to `now` and returns the current value.
    pub fn get_value(&mut self, now: u64) -> (r: SignedValue)
        requires
            old(self).wf(),
        ensures
            final(self).wf(),
            *final(self) == old(self).spec_observe(now),
            r == final(self).value,
            final(self).last_update >= old(self).last_update,
    {
        let t: u64 = if now < self.last_update {
            self.last_update
        } else {
            now
        };
        self.update(t);
        self.value
    }
}

/// Law: one half-life of decay halves the magnitude exactly (and keeps the
/// sign while the magnitude stays positive).
pub proof fn lemma_decay_half_life(v: SignedValue, h: u64)
    requires
        v.wf(),
        h >= 1,
    ensures
        decayed_value(v, h as int, h as int).magnitude == v.magnitude / 2,
        decayed_value(v, h as int, h as int).negative == (v.negative && v.magnitude / 2 > 0),
{
    let m = v.magnitude as int;
    lemma_div_by_self(h as int);
    lemma_mod_self_0(h as int);
    assert((h as int) / (h as int) == 1);
    assert((h as int) % (h as int) == 0);
    lemma2_to64();
    assert(pow2(1) == 2);
    assert(decayed_mag(m, h as int, h as int) == m / 2);
    lemma_div_nonincreasing(m, 2);
    lemma_div_pos_is_pos(m, 2);
}

/// Law: observing a decaying average one half-life after its last update
/// halves the stored magnitude exactly.
pub proof fn lemma_half_life_observation(a: DecayingAverage, now: u64)
    requires
        a.wf(),
        a.half_life >= 1,
        now == a.last_update + a.half_life,
    ensures
        a.spec_observe(now).value.magnitude == a.value.magnitude / 2,
{
    lemma_decay_half_life(a.value, a.half_life);
}

} // verus!
