//! Per-incoming-channel reputation tracking: a decaying average of effective
//! fees, and the table of in-flight HTLCs whose outstanding risk charges the
//! channel's reputation until they resolve.
//!
//! The in-flight table is a vector whose records carry pairwise distinct
//! incoming indices, so it behaves as a map keyed by the incoming HTLC
//! index.

use vstd::prelude::*;
use vstd::arithmetic::div_mod::{
    lemma_div_multiples_vanish, lemma_div_nonincreasing, lemma_div_pos_is_pos,
    lemma_fundamental_div_mod,
};
use vstd::arithmetic::mul::{
    lemma_mul_inequality, lemma_mul_is_distributive_add_other_way, lemma_mul_nonnegative,
    lemma_mul_upper_bound,
};
use crate::decaying_average::{sat_signed, DecayingAverage, DecayingAverageStart, SignedValue};
use crate::interface::{Endorsement, ForwardOutcome, InFlightHTLC, IncomingReputation, ProposedHTLC, ResolvedHTLC};

verus! {

/// Errors of the reputation tracker.
#[derive(Clone, Copy, PartialEq, Eq, Structural, Debug)]
pub enum ErrReputation {
    /// A resolution was reported for an incoming index with no in-flight
    /// record.
    ResolutionNotFound,
}

/// Clamps a non-negative integer to the range of a `u128`.
pub open spec fn sat_u128(x: int) -> int {
    if x > u128::MAX as int {
        u128::MAX as int
    } else {
        x
    }
}

/// `u128` multiplication that saturates instead of overflowing.
fn sat_mul_u128(a: u128, b: u128) -> (r: u128)
    ensures
        r as int == sat_u128(a as int * b as int),
{
    if b == 0 {
        return 0;
    }
    let q: u128 = u128::MAX / b;
    if a > q {
        proof {
            lemma_fundamental_div_mod(u128::MAX as int, b as int);
            lemma_mul_inequality(q as int + 1, a as int, b as int);
            lemma_mul_is_distributive_add_other_way(b as int, q as int, 1);
        }
        u128::MAX
    } else {
        proof {
            lemma_fundamental_div_mod(u128::MAX as int, b as int);
            lemma_mul_inequality(a as int, q as int, b as int);
        }
        a * b
    }
}

/// `u128` addition that saturates instead of overflowing.
fn sat_add_u128(a: u128, b: u128) -> (r: u128)
    ensures
        r as int == sat_u128(a as int + b as int),
{
    if a > u128::MAX - b {
        u128::MAX
    } else {
        a + b
    }
}

/// The outstanding risk of a forward held to its full expiry, in
/// milli-satoshi-seconds scaled by the resolution period:
/// `fee * cltv_expiry_delta * block_time * 60 / resolution_period`,
/// with the products clamped to the `u128` range.
pub open spec fn spec_outstanding_risk(fee: int, cltv: int, block_time: int, rp: int) -> int {
    sat_u128(sat_u128(fee * cltv * block_time) * 60) / rp
}

/// The risk an in-flight HTLC charges against its incoming channel: only
/// endorsed forwards charge reputation; unendorsed ones contribute zero.
pub open spec fn spec_htlc_risk(h: InFlightHTLC, block_time: int, rp: int) -> int {
    if h.proposed_htlc.incoming_endorsed == Endorsement::EndorsementTrue {
        spec_outstanding_risk(
            h.proposed_htlc.spec_forwarding_fee(),
            h.proposed_htlc.cltv_expiry_delta as int,
            block_time,
            rp,
        )
    } else {
        0
    }
}

/// The opportunity cost of a resolution after `rt` seconds against a
/// resolution period of `rp` seconds: `(rt - rp) * fee / rp`, rounded
/// towards zero. Fast resolutions produce a negative cost, a bonus.
pub open spec fn spec_opportunity_cost(rt: int, rp: int, fee: int) -> int {
    if rt >= rp {
        (rt - rp) * fee / rp
    } else {
        -((rp - rt) * fee / rp)
    }
}

/// The fee contribution a resolved HTLC makes to its incoming channel's
/// revenue: endorsed forwards are always accounted (fee net of opportunity
/// cost on success, the pure cost on failure); unendorsed forwards earn the
/// fee only when they settle within the resolution period, and cost nothing
/// otherwise.
pub open spec fn spec_effective_fees(rp: int, settled: int, h: InFlightHTLC, success: bool) -> int {
    let rt = if settled >= h.timestamp_added {
        settled - h.timestamp_added
    } else {
        0
    };
    let fee = h.proposed_htlc.spec_forwarding_fee();
    let opp = spec_opportunity_cost(rt, rp, fee);
    let endorsed = h.proposed_htlc.incoming_endorsed == Endorsement::EndorsementTrue;
    if endorsed && success {
        fee - opp
    } else if endorsed {
        -opp
    } else if success && rt <= rp {
        fee
    } else {
        0
    }
}

/// All records of the table describe well-formed HTLCs.
pub open spec fn seq_wf(s: Seq<InFlightHTLC>) -> bool {
    forall|i: int| 0 <= i < s.len() ==> (#[trigger] s[i]).proposed_htlc.wf()
}

/// The records carry pairwise distinct incoming indices, so the table is a
/// map keyed by the incoming index.
pub open spec fn unique_indices(s: Seq<InFlightHTLC>) -> bool {
    forall|i: int, j: int|
        0 <= i < j < s.len() ==> (#[trigger] s[i]).proposed_htlc.incoming_index != (
        #[trigger] s[j]).proposed_htlc.incoming_index
}

/// Whether some record carries the given incoming index.
pub open spec fn has_index(s: Seq<InFlightHTLC>, idx: u32) -> bool {
    exists|i: int| 0 <= i < s.len() && (#[trigger] s[i]).proposed_htlc.incoming_index == idx
}

/// The total outstanding risk of a table of in-flight HTLCs.
pub open spec fn seq_risk(s: Seq<InFlightHTLC>, block_time: int, rp: int) -> int
    decreases s.len(),
{
    if s.len() == 0 {
        0
    } else {
        seq_risk(s.drop_last(), block_time, rp) + spec_htlc_risk(s.last(), block_time, rp)
    }
}

/// A single HTLC's risk is non-negative and representable.
pub proof fn lemma_htlc_risk_bounds(h: InFlightHTLC, block_time: int, rp: int)
    requires
        rp >= 1,
        h.proposed_htlc.wf(),
        block_time >= 0,
    ensures
        0 <= spec_htlc_risk(h, block_time, rp) <= u128::MAX as int,
{
    let fee = h.proposed_htlc.spec_forwarding_fee();
    let cltv = h.proposed_htlc.cltv_expiry_delta as int;
    lemma_mul_nonnegative(fee, cltv);
    lemma_mul_nonnegative(fee * cltv, block_time);
    let p = sat_u128(fee * cltv * block_time);
    lemma_mul_nonnegative(p, 60);
    let n = sat_u128(p * 60);
    lemma_div_pos_is_pos(n, rp);
    lemma_div_nonincreasing(n, rp);
}

/// The total risk of a well-formed table is non-negative.
pub proof fn lemma_seq_risk_nonneg(s: Seq<InFlightHTLC>, block_time: int, rp: int)
    requires
        rp >= 1,
        block_time >= 0,
        seq_wf(s),
    ensures
        0 <= seq_risk(s, block_time, rp),
    decreases s.len(),
{
    if s.len() > 0 {
        lemma_seq_risk_nonneg(s.drop_last(), block_time, rp);
        lemma_htlc_risk_bounds(s.last(), block_time, rp);
    }
}

/// Law: removing one record lowers the total outstanding risk by exactly
/// that record's risk. In particular, resolving an endorsed in-flight HTLC
/// lowers `in_flight_htlc_risk` by exactly its `outstanding_risk`.
pub proof fn lemma_seq_risk_remove(s: Seq<InFlightHTLC>, i: int, block_time: int, rp: int)
    requires
        0 <= i < s.len(),
    ensures
        seq_risk(s.remove(i), block_time, rp) == seq_risk(s, block_time, rp) - spec_htlc_risk(
            s[i],
            block_time,
            rp,
        ),
    decreases s.len(),
{
    if i == s.len() - 1 {
        assert(s.remove(i) =~= s.drop_last());
    } else {
        let s2 = s.drop_last();
        lemma_seq_risk_remove(s2, i, block_time, rp);
        assert(s.remove(i).drop_last() =~= s2.remove(i));
        assert(s.remove(i).last() == s.last());
    }
}

/// Extending the table by one record raises the total risk by exactly that
/// record's risk.
pub proof fn lemma_seq_risk_push(s: Seq<InFlightHTLC>, h: InFlightHTLC, block_time: int, rp: int)
    ensures
        seq_risk(s.push(h), block_time, rp) == seq_risk(s, block_time, rp) + spec_htlc_risk(
            h,
            block_time,
            rp,
        ),
{
    assert(s.push(h).drop_last() =~= s);
    assert(s.push(h).last() == h);
}

/// Finds the position of the record with the given incoming index.
fn find_index(v: &Vec<InFlightHTLC>, idx: u32) -> (r: Option<usize>)
    ensures
        match r {
            Some(i) => i < v@.len() && v@[i as int].proposed_htlc.incoming_index == idx,
            None => !has_index(v@, idx),
        },
{
    let n = v.len();
    let mut k: usize = 0;
    while k < n
        invariant
            n == v@.len(),
            0 <= k <= n,
            forall|j: int| 0 <= j < k ==> (#[trigger] v@[j]).proposed_htlc.incoming_index != idx,
        decreases n - k,
    {
        if v[k].proposed_htlc.incoming_index == idx {
            return Some(k);
        }
        k = k + 1;
    }
    None
}

/// Reputation tracking for one incoming channel.
#[derive(Debug)]
pub struct ReputationTracker {
    /// Decaying average of the effective fees this channel has earned, over
    /// the reputation window.
    pub revenue: DecayingAverage,
    /// The in-flight HTLCs forwarded from this channel, keyed by incoming
    /// index.
    pub in_flight_htlcs: Vec<InFlightHTLC>,
    /// Expected block time, in seconds.
    pub block_time: u64,
    /// The period within which a well-behaved HTLC is expected to resolve,
    /// in seconds.
    pub resolution_period: u64,
}

impl ReputationTracker {
    pub open spec fn wf(self) -> bool {
        &&& self.revenue.wf()
        &&& self.resolution_period >= 1
        &&& seq_wf(self.in_flight_htlcs@)
        &&& unique_indices(self.in_flight_htlcs@)
    }

    /// The total risk currently charged to this channel, as reported by
    /// `in_flight_htlc_risk`.
    pub open spec fn spec_in_flight_risk(self) -> int {
        sat_u128(seq_risk(self.in_flight_htlcs@, self.block_time as int, self.resolution_period as int))
    }

    /// A fresh tracker with no in-flight HTLCs, whose revenue average decays
    /// over the reputation window.
    pub fn new(
        reputation_window_s: u64,
        block_time: u64,
        resolution_period: u64,
        start_value: DecayingAverageStart,
        now: u64,
    ) -> (r: ReputationTracker)
        requires
            resolution_period >= 1,
            start_value.value.wf(),
        ensures
            r.wf(),
            r.revenue.half_life == reputation_window_s / 2,
            start_value.value.magnitude != 0 ==> r.revenue.value == start_value.value
                && r.revenue.last_update == start_value.last_update,
            start_value.value.magnitude == 0 ==> r.revenue.value.value() == 0
                && r.revenue.last_update == now,
            r.in_flight_htlcs@ =~= Seq::<InFlightHTLC>::empty(),
            r.block_time == block_time,
            r.resolution_period == resolution_period,
    {
        ReputationTracker {
            revenue: DecayingAverage::new(reputation_window_s, start_value, now),
            in_flight_htlcs: Vec::new(),
            block_time,
            resolution_period,
        }
    }

    /// The outstanding risk of one proposed HTLC, §`spec_outstanding_risk`.
    pub fn outstanding_risk(block_time: u64, proposed_htlc: &ProposedHTLC, resolution_period: u64) -> (r:
        u128)
        requires
            proposed_htlc.wf(),
            resolution_period >= 1,
        ensures
            r as int == spec_outstanding_risk(
                proposed_htlc.spec_forwarding_fee(),
                proposed_htlc.cltv_expiry_delta as int,
                block_time as int,
                resolution_period as int,
            ),
    {
        let fee = proposed_htlc.forwarding_fee();
        proof {
            lemma_mul_upper_bound(fee as int, u64::MAX as int, proposed_htlc.cltv_expiry_delta as int, u32::MAX as int);
        }
        let p1: u128 = (fee as u128) * (proposed_htlc.cltv_expiry_delta as u128);
        let p2: u128 = sat_mul_u128(p1, block_time as u128);
        let p3: u128 = sat_mul_u128(p2, 60);
        p3 / (resolution_period as u128)
    }

    /// The total outstanding risk of the endorsed in-flight HTLCs from this
    /// channel, clamped to the `u128` range.
    pub fn in_flight_htlc_risk(&self) -> (r: u128)
        requires
            self.wf(),
        ensures
            r as int == self.spec_in_flight_risk(),
    {
        let bt = self.block_time;
        let rp = self.resolution_period;
        let ghost s = self.in_flight_htlcs@;
        let n = self.in_flight_htlcs.len();
        let mut acc: u128 = 0;
        let mut k: usize = 0;
        proof {
            assert(s.take(0) =~= Seq::<InFlightHTLC>::empty());
        }
        while k < n
            invariant
                self.wf(),
                s == self.in_flight_htlcs@,
                bt == self.block_time,
                rp == self.resolution_period,
                n == s.len(),
                0 <= k <= n,
                acc as int == sat_u128(seq_risk(s.take(k as int), bt as int, rp as int)),
            decreases n - k,
        {
            let h = self.in_flight_htlcs[k];
            proof {
                assert(s.take(k as int + 1).drop_last() =~= s.take(k as int));
                assert(s.take(k as int + 1).last() == s[k as int]);
                assert(seq_wf(s.take(k as int)));
                lemma_seq_risk_nonneg(s.take(k as int), bt as int, rp as int);
                lemma_htlc_risk_bounds(s[k as int], bt as int, rp as int);
            }
            if h.proposed_htlc.incoming_endorsed == Endorsement::EndorsementTrue {
                let risk = Self::outstanding_risk(bt, &h.proposed_htlc, rp);
                acc = sat_add_u128(acc, risk);
            }
            k = k + 1;
        }
        proof {
            assert(s.take(n as int) =~= s);
        }
        acc
    }

    /// The effective fee contribution of a resolved HTLC,
    /// §`spec_effective_fees`. The contract is exact: the arithmetic never
    /// saturates.
    pub fn effective_fees(
        &self,
        resolution_period: u64,
        timestamp_settled: u64,
        htlc: &InFlightHTLC,
        success: bool,
    ) -> (r: SignedValue)
        requires
            htlc.proposed_htlc.wf(),
            resolution_period >= 1,
        ensures
            r.wf(),
            r.value() == spec_effective_fees(
                resolution_period as int,
                timestamp_settled as int,
                *htlc,
                success,
            ),
    {
        let rp = resolution_period;
        let rt: u64 = if timestamp_settled >= htlc.timestamp_added {
            timestamp_settled - htlc.timestamp_added
        } else {
            0
        };
        let fee: u64 = htlc.proposed_htlc.forwarding_fee();
        let opp: SignedValue = if rt >= rp {
            proof {
                lemma_mul_upper_bound(rt as int - rp, u64::MAX as int, fee as int, u64::MAX as int);
                lemma_mul_nonnegative(rt as int - rp, fee as int);
                lemma_div_pos_is_pos((rt as int - rp) * fee, rp as int);
                lemma_div_nonincreasing((rt as int - rp) * fee, rp as int);
            }
            let mag: u128 = (((rt - rp) as u128) * (fee as u128)) / (rp as u128);
            SignedValue::new(false, mag)
        } else {
            proof {
                lemma_mul_upper_bound(rp as int - rt, u64::MAX as int, fee as int, u64::MAX as int);
                lemma_mul_nonnegative(rp as int - rt, fee as int);
                lemma_div_pos_is_pos((rp as int - rt) * fee, rp as int);
                lemma_div_nonincreasing((rp as int - rt) * fee, rp as int);
            }
            let mag: u128 = (((rp - rt) as u128) * (fee as u128)) / (rp as u128);
            SignedValue::new(true, mag)
        };
        let endorsed = htlc.proposed_htlc.incoming_endorsed == Endorsement::EndorsementTrue;
        if endorsed && success {
            let r = SignedValue::new(false, fee as u128).saturating_add(opp.negated());
            proof {
                assert(sat_signed(fee as int + -opp.value()) == fee as int - opp.value());
            }
            r
        } else if endorsed {
            opp.negated()
        } else if success && rt <= rp {
            SignedValue::new(false, fee as u128)
        } else {
            SignedValue::new(false, 0)
        }
    }

    /// Records a proposed HTLC as in flight from `now` on. A record with the
    /// same incoming index is replaced: the caller enforces uniqueness at
    /// the protocol layer.
    ///
    /// After the call the table holds the given index, and every other index
    /// exactly as before.
    pub fn add_inflight(
        &mut self,
        proposed_htlc: ProposedHTLC,
        outgoing_decision: ForwardOutcome,
        now: u64,
    ) -> (r: Result<bool, ErrReputation>)
        requires
            old(self).wf(),
            proposed_htlc.wf(),
        ensures
            final(self).wf(),
            r == Ok::<bool, ErrReputation>(true),
            final(self).revenue == old(self).revenue,
            final(self).block_time == old(self).block_time,
            final(self).resolution_period == old(self).resolution_period,
            ({
                let rec = InFlightHTLC {
                    timestamp_added: now,
                    outgoing_decision,
                    proposed_htlc,
                };
                let bt = old(self).block_time as int;
                let rp = old(self).resolution_period as int;
                if has_index(old(self).in_flight_htlcs@, proposed_htlc.incoming_index) {
                    exists|i: int|
                        0 <= i < old(self).in_flight_htlcs@.len() && (#[trigger] old(self).in_flight_htlcs@[i]).proposed_htlc.incoming_index
                            == proposed_htlc.incoming_index && final(self).in_flight_htlcs@ == old(self).in_flight_htlcs@.remove(i).push(rec)
                            && seq_risk(final(self).in_flight_htlcs@, bt, rp) == seq_risk(
                            old(self).in_flight_htlcs@,
                            bt,
                            rp,
                        ) - spec_htlc_risk(old(self).in_flight_htlcs@[i], bt, rp) + spec_htlc_risk(
                            rec,
                            bt,
                            rp,
                        )
                } else {
                    final(self).in_flight_htlcs@ == old(self).in_flight_htlcs@.push(rec)
                        && seq_risk(final(self).in_flight_htlcs@, bt, rp) == seq_risk(
                        old(self).in_flight_htlcs@,
                        bt,
                        rp,
                    ) + spec_htlc_risk(rec, bt, rp)
                }
            }),
            forall|k: u32|
                #[trigger] has_index(final(self).in_flight_htlcs@, k) <==> (has_index(
                    old(self).in_flight_htlcs@,
                    k,
                ) || k == proposed_htlc.incoming_index),
    {
        let rec = InFlightHTLC { timestamp_added: now, outgoing_decision, proposed_htlc };
        let idx = proposed_htlc.incoming_index;
        let found = find_index(&self.in_flight_htlcs, idx);
        match found {
            Some(i) => {
                let ghost s0 = self.in_flight_htlcs@;
                self.in_flight_htlcs.remove(i);
                self.in_flight_htlcs.push(rec);
                proof {
                    lemma_seq_risk_remove(s0, i as int, self.block_time as int, self.resolution_period as int);
                    lemma_seq_risk_push(
                        s0.remove(i as int),
                        rec,
                        self.block_time as int,
                        self.resolution_period as int,
                    );
                    let s1 = self.in_flight_htlcs@;
                    assert forall|k: u32| #[trigger] has_index(s1, k) implies (has_index(s0, k)
                        || k == idx) by {
                        let w = choose|j: int|
                            0 <= j < s1.len() && (#[trigger] s1[j]).proposed_htlc.incoming_index
                                == k;
                        if w < s1.len() - 1 {
                            if w < i {
                                assert(s0[w].proposed_htlc.incoming_index == k);
                            } else {
                                assert(s0[w + 1].proposed_htlc.incoming_index == k);
                            }
                        }
                    }
                    assert forall|k: u32| (has_index(s0, k) || k == idx) implies #[trigger]
                        has_index(s1, k) by {
                        if k == idx {
                            assert(s1[s1.len() - 1].proposed_htlc.incoming_index == k);
                        } else {
                            let w = choose|j: int|
                                0 <= j < s0.len() && (#[trigger] s0[j]).proposed_htlc.incoming_index
                                    == k;
                            if w < i {
                                assert(s1[w].proposed_htlc.incoming_index == k);
                            } else {
                                assert(s1[w - 1].proposed_htlc.incoming_index == k);
                            }
                        }
                    }
                }
            },
            None => {
                let ghost s0 = self.in_flight_htlcs@;
                self.in_flight_htlcs.push(rec);
                proof {
                    lemma_seq_risk_push(s0, rec, self.block_time as int, self.resolution_period as int);
                    let s1 = self.in_flight_htlcs@;
                    assert forall|k: u32| #[trigger] has_index(s1, k) implies (has_index(s0, k)
                        || k == idx) by {
                        let w = choose|j: int|
                            0 <= j < s1.len() && (#[trigger] s1[j]).proposed_htlc.incoming_index
                                == k;
                        if w < s1.len() - 1 {
                            assert(s0[w].proposed_htlc.incoming_index == k);
                        }
                    }
                    assert forall|k: u32| (has_index(s0, k) || k == idx) implies #[trigger]
                        has_index(s1, k) by {
                        if k == idx {
                            assert(s1[s1.len() - 1].proposed_htlc.incoming_index == k);
                        } else {
                            let w = choose|j: int|
                                0 <= j < s0.len() && (#[trigger] s0[j]).proposed_htlc.incoming_index
                                    == k;
                            assert(s1[w].proposed_htlc.incoming_index == k);
                        }
                    }
                }
            },
        }
        Ok(true)
    }

    /// Removes the in-flight record joined by the resolution's incoming
    /// index, credits its effective fees into the revenue average at `now`,
    /// and returns the record. Fails, changing nothing, exactly when no
    /// record matches.
    ///
    /// After a successful call the table holds every index except the
    /// resolved one, and the total in-flight risk has dropped by exactly the
    /// removed record's risk.
    pub fn resolve_inflight(&mut self, resolved_htlc: ResolvedHTLC, now: u64) -> (r: Result<
        InFlightHTLC,
        ErrReputation,
    >)
        requires
            old(self).wf(),
        ensures
            final(self).wf(),
            final(self).block_time == old(self).block_time,
            final(self).resolution_period == old(self).resolution_period,
            !has_index(old(self).in_flight_htlcs@, resolved_htlc.incoming_index) ==> r == Err::<
                InFlightHTLC,
                ErrReputation,
            >(ErrReputation::ResolutionNotFound) && *final(self) == *old(self),
            has_index(old(self).in_flight_htlcs@, resolved_htlc.incoming_index) ==> exists|i: int|
                0 <= i < old(self).in_flight_htlcs@.len() && (#[trigger] old(self).in_flight_htlcs@[i]).proposed_htlc.incoming_index == resolved_htlc.incoming_index
                    && r == Ok::<InFlightHTLC, ErrReputation>(old(self).in_flight_htlcs@[i])
                    && final(self).in_flight_htlcs@ == old(self).in_flight_htlcs@.remove(i)
                    && final(self).revenue == old(self).revenue.spec_add(
                    spec_effective_fees(
                        old(self).resolution_period as int,
                        resolved_htlc.timestamp_settled as int,
                        old(self).in_flight_htlcs@[i],
                        resolved_htlc.success,
                    ),
                    now,
                ) && seq_risk(
                    final(self).in_flight_htlcs@,
                    old(self).block_time as int,
                    old(self).resolution_period as int,
                ) == seq_risk(
                    old(self).in_flight_htlcs@,
                    old(self).block_time as int,
                    old(self).resolution_period as int,
                ) - spec_htlc_risk(
                    old(self).in_flight_htlcs@[i],
                    old(self).block_time as int,
                    old(self).resolution_period as int,
                ),
            forall|k: u32|
                #[trigger] has_index(final(self).in_flight_htlcs@, k) <==> (has_index(
                    old(self).in_flight_htlcs@,
                    k,
                ) && k != resolved_htlc.incoming_index),
    {
        let found = find_index(&self.in_flight_htlcs, resolved_htlc.incoming_index);
        match found {
            None => Err(ErrReputation::ResolutionNotFound),
            Some(i) => {
                let ghost s0 = self.in_flight_htlcs@;
                let rec = self.in_flight_htlcs.remove(i);
                let fees = self.effective_fees(
                    self.resolution_period,
                    resolved_htlc.timestamp_settled,
                    &rec,
                    resolved_htlc.success,
                );
                self.revenue.add(fees, now);
                proof {
                    lemma_seq_risk_remove(
                        s0,
                        i as int,
                        old(self).block_time as int,
                        old(self).resolution_period as int,
                    );
                    let s1 = self.in_flight_htlcs@;
                    assert forall|k: u32| #[trigger]
                        has_index(s1, k) implies (has_index(s0, k) && k
                        != resolved_htlc.incoming_index) by {
                        let w = choose|i2: int|
                            0 <= i2 < s1.len() && (#[trigger] s1[i2]).proposed_htlc.incoming_index
                                == k;
                        if w < i {
                            assert(s0[w].proposed_htlc.incoming_index == k);
                        } else {
                            assert(s0[w + 1].proposed_htlc.incoming_index == k);
                        }
                    }
                    assert forall|k: u32| (has_index(s0, k) && k
                        != resolved_htlc.incoming_index) implies #[trigger] has_index(s1, k) by {
                        let w = choose|i2: int|
                            0 <= i2 < s0.len() && (#[trigger] s0[i2]).proposed_htlc.incoming_index
                                == k;
                        if w < i {
                            assert(s1[w].proposed_htlc.incoming_index == k);
                        } else {
                            assert(s1[w - 1].proposed_htlc.incoming_index == k);
                        }
                    }
                }
                Ok(rec)
            },
        }
    }

    /// Looks up the in-flight record with the given incoming index without
    /// touching any state.
    pub fn get_inflight(&self, incoming_index: u32) -> (r: Option<InFlightHTLC>)
        requires
            self.wf(),
        ensures
            match r {
                Some(h) => exists|i: int|
                    0 <= i < self.in_flight_htlcs@.len() && (#[trigger] self.in_flight_htlcs@[i])
                        == h && h.proposed_htlc.incoming_index == incoming_index,
                None => !has_index(self.in_flight_htlcs@, incoming_index),
            },
    {
        match find_index(&self.in_flight_htlcs, incoming_index) {
            Some(i) => Some(self.in_flight_htlcs[i]),
            None => None,
        }
    }

    /// A snapshot of this channel's standing: its decayed revenue and the
    /// outstanding risk of its endorsed in-flight HTLCs.
    pub fn incoming_reputation(&mut self, now: u64) -> (r: IncomingReputation)
        requires
            old(self).wf(),
        ensures
            final(self).wf(),
            final(self).revenue == old(self).revenue.spec_observe(now),
            final(self).in_flight_htlcs@ == old(self).in_flight_htlcs@,
            final(self).block_time == old(self).block_time,
            final(self).resolution_period == old(self).resolution_period,
            r.incoming_revenue == final(self).revenue.value,
            r.in_flight_risk as int == old(self).spec_in_flight_risk(),
    {
        let incoming_revenue = self.revenue.get_value(now);
        let in_flight_risk = self.in_flight_htlc_risk();
        IncomingReputation { incoming_revenue, in_flight_risk }
    }
}

/// Law: an endorsed HTLC that is forwarded and then successfully resolved
/// with no time elapsed earns exactly twice its forwarding fee. At instant
/// resolution the opportunity cost is `(0 - rp) * fee / rp == -fee`, so the
/// endorsed-success contribution `fee - opp` equals `2 * fee`.
pub proof fn lemma_instant_endorsed_round_trip(h: InFlightHTLC, rp: int)
    requires
        rp >= 1,
        h.proposed_htlc.wf(),
        h.proposed_htlc.incoming_endorsed == Endorsement::EndorsementTrue,
    ensures
        spec_effective_fees(rp, h.timestamp_added as int, h, true) == 2
            * h.proposed_htlc.spec_forwarding_fee(),
{
    let fee = h.proposed_htlc.spec_forwarding_fee();
    lemma_div_multiples_vanish(fee, rp);
    assert((rp - 0) * fee / rp == fee);
}

} // verus!
