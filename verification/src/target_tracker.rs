//! Per-outgoing-channel tracking: a decaying average of booked revenue and
//! the resource bucketer against which forwards are admitted.

use vstd::prelude::*;
use crate::decaying_average::{DecayingAverage, DecayingAverageStart, SignedValue};
use crate::interface::{
    ChannelInfo, Endorsement, ForwardDecision, ForwardOutcome, InFlightHTLC, IncomingReputation,
    ProposedHTLC, ReputationCheck, ResolvedHTLC, ResourceBucketer, spec_forward_outcome,
};
use crate::reputation_tracker::{spec_outstanding_risk, ReputationTracker};
use crate::resource_bucketing::ErrBucketing;
use crate::resource_manager::ManagerConfig;

verus! {

/// Errors of the target tracker.
#[derive(Clone, Copy, PartialEq, Eq, Structural, Debug)]
pub enum ErrTarget {
    /// A resolution for an HTLC that was never allocated resources: such an
    /// HTLC is never tracked here.
    InvalidState,
    /// The bucket could not cover the release.
    Bucket(ErrBucketing),
}

/// Whether the general pool has room for one more HTLC of the given amount.
pub open spec fn spec_fits<B: ResourceBucketer>(b: &B, amount: u64) -> bool {
    &&& b.in_flight_liquidity_msat() + amount <= b.general_liquidity_msat()
    &&& b.in_flight_slots() + 1 <= b.general_slots()
}

/// Revenue tracking and resource bucketing for one outgoing channel.
#[derive(Debug)]
pub struct TargetChannelTracker<B: ResourceBucketer> {
    /// Decaying average of the fees this channel has booked, over the
    /// revenue window.
    pub revenue: DecayingAverage,
    /// Expected block time in seconds, surfaced to account for scenarios
    /// where it is not ten minutes.
    pub block_time: u64,
    /// The period within which a well-behaved HTLC is expected to resolve,
    /// in seconds.
    pub resolution_period: u64,
    /// The bucketer that admits and releases in-flight HTLCs.
    pub resource_buckets: B,
}

impl<B: ResourceBucketer> TargetChannelTracker<B> {
    pub open spec fn wf(self) -> bool {
        &&& self.revenue.wf()
        &&& self.resolution_period >= 1
        &&& self.resource_buckets.bucket_wf()
    }

    /// A tracker whose revenue average decays over the configured revenue
    /// window and whose forwards are admitted by the given bucketer.
    pub fn new(
        manager_config: ManagerConfig,
        chan_info: ChannelInfo,
        start_value: DecayingAverageStart,
        resource_buckets: B,
        now: u64,
    ) -> (r: Result<TargetChannelTracker<B>, ErrTarget>)
        requires
            manager_config.spec_valid(),
            start_value.value.wf(),
            resource_buckets.bucket_wf(),
        ensures
            match r {
                Ok(t) => {
                    &&& t.wf()
                    &&& t.block_time == manager_config.block_time
                    &&& t.resolution_period == manager_config.resolution_period
                    &&& t.revenue.half_life == manager_config.revenue_window / 2
                    &&& start_value.value.magnitude != 0 ==> t.revenue.value == start_value.value
                        && t.revenue.last_update == start_value.last_update
                    &&& start_value.value.magnitude == 0 ==> t.revenue.value.value() == 0
                        && t.revenue.last_update == now
                    &&& t.resource_buckets == resource_buckets
                },
                Err(_) => false,
            },
    {
        let _ = chan_info;
        Ok(
            TargetChannelTracker {
                revenue: DecayingAverage::new(manager_config.revenue_window, start_value, now),
                block_time: manager_config.block_time,
                resolution_period: manager_config.resolution_period,
                resource_buckets,
            },
        )
    }

    /// Classifies a proposed forward against the incoming link's reputation
    /// and this channel's revenue, and admits it to the appropriate bucket.
    ///
    /// The HTLC is protected exactly when the reputation inequality holds
    /// and the upstream peer endorsed it; the outcome reports whether the
    /// bucket admitted the HTLC and, if so, in which tier.
    pub fn add_inflight(
        &mut self,
        incoming_reputation: IncomingReputation,
        proposed_htlc: ProposedHTLC,
        now: u64,
    ) -> (r: Result<ForwardDecision, ErrTarget>)
        requires
            old(self).wf(),
            proposed_htlc.wf(),
            incoming_reputation.incoming_revenue.wf(),
        ensures
            final(self).wf(),
            final(self).block_time == old(self).block_time,
            final(self).resolution_period == old(self).resolution_period,
            final(self).revenue == old(self).revenue.spec_observe(now),
            final(self).resource_buckets.general_liquidity_msat() == old(self).resource_buckets.general_liquidity_msat(),
            final(self).resource_buckets.general_slots() == old(self).resource_buckets.general_slots(),
            match r {
                Ok(d) => {
                    let check = d.reputation_check;
                    let protected = check.spec_sufficient_reputation()
                        && proposed_htlc.incoming_endorsed == Endorsement::EndorsementTrue;
                    let fits = spec_fits(
                        &old(self).resource_buckets,
                        proposed_htlc.outgoing_amount_msat,
                    );
                    let admitted = protected || fits;
                    &&& check.incoming_reputation == incoming_reputation
                    &&& check.outgoing_revenue == old(self).revenue.spec_observe(now).value
                    &&& check.htlc_risk as int == spec_outstanding_risk(
                        proposed_htlc.spec_forwarding_fee(),
                        proposed_htlc.cltv_expiry_delta as int,
                        old(self).block_time as int,
                        old(self).resolution_period as int,
                    )
                    &&& d.forward_outcome == spec_forward_outcome(admitted, protected)
                    &&& ((protected || !fits) ==> final(self).resource_buckets.bucket_unchanged(
                        &old(self).resource_buckets,
                    ))
                    &&& ((!protected && fits) ==> final(self).resource_buckets.in_flight_liquidity_msat() == old(self).resource_buckets.in_flight_liquidity_msat()
                        + proposed_htlc.outgoing_amount_msat && final(self).resource_buckets.in_flight_slots() == old(self).resource_buckets.in_flight_slots() + 1)
                },
                Err(_) => false,
            },
    {
        let outgoing_revenue = self.revenue.get_value(now);
        let htlc_risk = ReputationTracker::outstanding_risk(
            self.block_time,
            &proposed_htlc,
            self.resolution_period,
        );
        let reputation_check = ReputationCheck {
            incoming_reputation,
            outgoing_revenue,
            htlc_risk,
        };
        let htlc_protected = reputation_check.sufficient_reputation()
            && proposed_htlc.incoming_endorsed == Endorsement::EndorsementTrue;
        let can_forward = self.resource_buckets.add_htlc(
            htlc_protected,
            proposed_htlc.outgoing_amount_msat,
        );
        let forward_outcome = if !can_forward {
            ForwardOutcome::ForwardOutcomeNoResources
        } else if htlc_protected {
            ForwardOutcome::ForwardOutcomeEndorsed
        } else {
            ForwardOutcome::ForwardOutcomeUnendorsed
        };
        Ok(ForwardDecision { reputation_check, forward_outcome })
    }

    /// Settles an in-flight HTLC on this channel: releases its bucket
    /// reservation (a no-op for protected, endorsed HTLCs, mirroring their
    /// admission) and, on success, books its forwarding fee as revenue.
    ///
    /// Fails with `InvalidState`, changing nothing, when the HTLC was never
    /// allocated resources, and with the bucket's error, changing nothing,
    /// when the counters do not cover the release.
    pub fn resolve_inflight(
        &mut self,
        resolved_htlc: ResolvedHTLC,
        in_flight_htlc: InFlightHTLC,
        now: u64,
    ) -> (r: Result<bool, ErrTarget>)
        requires
            old(self).wf(),
            in_flight_htlc.proposed_htlc.wf(),
        ensures
            final(self).wf(),
            final(self).block_time == old(self).block_time,
            final(self).resolution_period == old(self).resolution_period,
            final(self).resource_buckets.general_liquidity_msat() == old(self).resource_buckets.general_liquidity_msat(),
            final(self).resource_buckets.general_slots() == old(self).resource_buckets.general_slots(),
            ({
                let amt = in_flight_htlc.proposed_htlc.outgoing_amount_msat;
                let booked = if resolved_htlc.success {
                    old(self).revenue.spec_add(in_flight_htlc.proposed_htlc.spec_forwarding_fee(), now)
                } else {
                    old(self).revenue
                };
                if in_flight_htlc.outgoing_decision == ForwardOutcome::ForwardOutcomeNoResources {
                    r == Err::<bool, ErrTarget>(ErrTarget::InvalidState) && *final(self) == *old(
                        self,
                    )
                } else if in_flight_htlc.outgoing_decision
                    == ForwardOutcome::ForwardOutcomeEndorsed {
                    r == Ok::<bool, ErrTarget>(true) && final(self).revenue == booked && final(self).resource_buckets.bucket_unchanged(&old(self).resource_buckets)
                } else if amt > old(self).resource_buckets.in_flight_liquidity_msat() {
                    r == Err::<bool, ErrTarget>(ErrTarget::Bucket(ErrBucketing::NoInFlightLiquidity))
                        && final(self).revenue == old(self).revenue && final(self).resource_buckets.bucket_unchanged(&old(self).resource_buckets)
                } else if old(self).resource_buckets.in_flight_slots() == 0 {
                    r == Err::<bool, ErrTarget>(ErrTarget::Bucket(ErrBucketing::NoHTLCSlotsOccupied))
                        && final(self).revenue == old(self).revenue && final(self).resource_buckets.bucket_unchanged(&old(self).resource_buckets)
                } else {
                    r == Ok::<bool, ErrTarget>(true) && final(self).revenue == booked && final(self).resource_buckets.in_flight_liquidity_msat() == old(self).resource_buckets.in_flight_liquidity_msat() - amt && final(self).resource_buckets.in_flight_slots() == old(self).resource_buckets.in_flight_slots() - 1
                }
            }),
    {
        if in_flight_htlc.outgoing_decision == ForwardOutcome::ForwardOutcomeNoResources {
            return Err(ErrTarget::InvalidState);
        }
        let protected = in_flight_htlc.outgoing_decision == ForwardOutcome::ForwardOutcomeEndorsed;
        let amount = in_flight_htlc.proposed_htlc.outgoing_amount_msat;
        match self.resource_buckets.remove_htlc(protected, amount) {
            Err(e) => Err(ErrTarget::Bucket(e)),
            Ok(_) => {
                if resolved_htlc.success {
                    let fee = in_flight_htlc.proposed_htlc.forwarding_fee();
                    self.revenue.add(SignedValue::new(false, fee as u128), now);
                }
                Ok(true)
            },
        }
    }
}

} // verus!
