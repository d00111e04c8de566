//! The top-level manager: it owns one reputation tracker per incoming
//! channel and one target tracker per outgoing channel, composes them into a
//! forward decision for each proposed HTLC, and settles both sides when a
//! resolution arrives.
//!
//! Methods take `&mut self`: callers serialize access, which keeps every
//! revenue average's clock monotone.

use std::collections::HashMap;
use vstd::prelude::*;
use vstd::arithmetic::div_mod::lemma_fundamental_div_mod;
use vstd::arithmetic::mul::{lemma_mul_inequality, lemma_mul_is_distributive_add_other_way};
use crate::decaying_average::{DecayingAverageStart, SignedValue};
use crate::interface::{
    ChannelInfo, Endorsement, ForwardDecision, ForwardOutcome, InFlightHTLC, ProposedHTLC,
    ReputationCheck, ResolvedHTLC, ResourceBucketer, spec_forward_outcome,
};
use crate::reputation_tracker::{
    has_index, spec_effective_fees, spec_outstanding_risk, ReputationTracker,
};
use crate::resource_bucketing::ErrBucketing;
use crate::target_tracker::{spec_fits, ErrTarget, TargetChannelTracker};

verus! {

/// The largest amount a forwarded HTLC may carry, in milli-satoshi.
pub const MAX_MILLI_SATOSHI: u64 = 21_000_000 * 1000;

/// Errors of the resource manager.
#[derive(Clone, Copy, PartialEq, Eq, Structural, Debug)]
pub enum ErrResourceManager {
    /// The configuration failed validation.
    InvalidConfiguration,
    /// An unknown channel, an over-limit amount, a resolution of an HTLC
    /// that was denied resources, or a cross-channel mismatch.
    InvalidState,
    /// A resolution with no matching in-flight record.
    ResolutionNotFound,
    /// The bucket could not cover a release.
    Bucket(ErrBucketing),
}

/// Configuration of the manager.
#[derive(Clone, Copy, PartialEq, Eq, Structural, Debug)]
pub struct ManagerConfig {
    /// The window over which the revenue of outgoing links is examined, in
    /// seconds.
    pub revenue_window: u64,
    /// Multiplier on the revenue window that determines the longer period
    /// over which incoming links' reputation is assessed.
    pub reputation_multiplier: u8,
    /// Percentage of liquidity and slots reserved for high-reputation,
    /// endorsed HTLCs.
    pub protected_percentage: u64,
    /// The period within which HTLCs are reasonably expected to complete,
    /// in seconds.
    pub resolution_period: u64,
    /// Expected block time, in seconds.
    pub block_time: u64,
}

impl Default for ManagerConfig {
    /// One-hour revenue window assessed over a day of reputation, half the
    /// resources protected, a ninety-second resolution period and
    /// ten-minute blocks.
    fn default() -> (r: ManagerConfig)
        ensures
            r == (ManagerConfig {
                revenue_window: 3600,
                reputation_multiplier: 24,
                protected_percentage: 50,
                resolution_period: 90,
                block_time: 600,
            }),
    {
        ManagerConfig {
            revenue_window: 3600,
            reputation_multiplier: 24,
            protected_percentage: 50,
            resolution_period: 90,
            block_time: 600,
        }
    }
}

impl ManagerConfig {
    /// A valid configuration: the protected percentage is a percentage, and
    /// the resolution period and block time are positive.
    pub open spec fn spec_valid(self) -> bool {
        &&& self.protected_percentage <= 100
        &&& self.resolution_period >= 1
        &&& self.block_time >= 1
    }

    pub fn validate(&self) -> (r: bool)
        ensures
            r == self.spec_valid(),
    {
        if self.protected_percentage > 100 {
            return false;
        }
        if self.resolution_period == 0 {
            return false;
        }
        if self.block_time == 0 {
            return false;
        }
        true
    }

    /// The reputation window: the revenue window times the multiplier,
    /// clamped to the representable range.
    pub fn reputation_window(&self) -> (r: u64)
        ensures
            r as int == if self.revenue_window as int * self.reputation_multiplier as int
                > u64::MAX as int {
                u64::MAX as int
            } else {
                self.revenue_window as int * self.reputation_multiplier as int
            },
    {
        let m: u64 = self.reputation_multiplier as u64;
        if m == 0 {
            return 0;
        }
        let q: u64 = u64::MAX / m;
        if self.revenue_window > q {
            proof {
                lemma_fundamental_div_mod(u64::MAX as int, m as int);
                lemma_mul_inequality(q as int + 1, self.revenue_window as int, m as int);
                lemma_mul_is_distributive_add_other_way(m as int, q as int, 1);
            }
            u64::MAX
        } else {
            proof {
                lemma_fundamental_div_mod(u64::MAX as int, m as int);
                lemma_mul_inequality(self.revenue_window as int, q as int, m as int);
            }
            self.revenue_window * m
        }
    }
}

/// The reputation and resource manager, composing per-channel trackers into
/// the two public operations `forward_htlc` and `resolve_htlc`.
#[derive(Debug)]
pub struct ResourceManager<B: ResourceBucketer> {
    /// The validated configuration.
    pub manager_configuration: ManagerConfig,
    /// Reputation trackers of incoming channels, by short channel id.
    pub channel_reputation: HashMap<u64, ReputationTracker>,
    /// Target trackers of outgoing channels, by short channel id.
    pub target_channels: HashMap<u64, TargetChannelTracker<B>>,
    /// The period within which HTLCs are reasonably expected to complete.
    pub resolution_period: u64,
    /// Expected block time, in seconds.
    pub block_time: u64,
}

impl<B: ResourceBucketer> ResourceManager<B> {
    pub open spec fn wf(self) -> bool {
        &&& self.manager_configuration.spec_valid()
        &&& self.resolution_period == self.manager_configuration.resolution_period
        &&& self.block_time == self.manager_configuration.block_time
        &&& forall|c: u64|
            #[trigger] self.channel_reputation@.contains_key(c) ==> self.channel_reputation@[c].wf()
                && self.channel_reputation@[c].resolution_period == self.resolution_period
                && self.channel_reputation@[c].block_time == self.block_time
        &&& forall|c: u64|
            #[trigger] self.target_channels@.contains_key(c) ==> self.target_channels@[c].wf()
                && self.target_channels@[c].resolution_period == self.resolution_period
                && self.target_channels@[c].block_time == self.block_time
    }

    /// A manager with no channels yet. Fails exactly when the configuration
    /// is invalid.
    pub fn new(manager_configuration: ManagerConfig) -> (r: Result<
        ResourceManager<B>,
        ErrResourceManager,
    >)
        ensures
            !manager_configuration.spec_valid() ==> r == Err::<
                ResourceManager<B>,
                ErrResourceManager,
            >(ErrResourceManager::InvalidConfiguration),
            manager_configuration.spec_valid() ==> match r {
                Ok(m) => {
                    &&& m.wf()
                    &&& m.manager_configuration == manager_configuration
                    &&& m.channel_reputation@ == Map::<u64, ReputationTracker>::empty()
                    &&& m.target_channels@ == Map::<u64, TargetChannelTracker<B>>::empty()
                },
                Err(_) => false,
            },
    {
        if !manager_configuration.validate() {
            return Err(ErrResourceManager::InvalidConfiguration);
        }
        Ok(
            ResourceManager {
                manager_configuration,
                channel_reputation: HashMap::new(),
                target_channels: HashMap::new(),
                resolution_period: manager_configuration.resolution_period,
                block_time: manager_configuration.block_time,
            },
        )
    }

    /// Registers a channel: a fresh reputation tracker for its incoming
    /// side, and a target tracker over the given bucketer for its outgoing
    /// side. Returns `Ok(false)`, changing nothing, when the id is already
    /// registered.
    pub fn add_channel(
        &mut self,
        channel_id: u64,
        chan_info: ChannelInfo,
        resource_buckets: B,
        now: u64,
    ) -> (r: Result<bool, ErrResourceManager>)
        requires
            old(self).wf(),
            resource_buckets.bucket_wf(),
        ensures
            final(self).wf(),
            final(self).manager_configuration == old(self).manager_configuration,
            ({
                let known = old(self).channel_reputation@.contains_key(channel_id) || old(self).target_channels@.contains_key(channel_id);
                if known {
                    r == Ok::<bool, ErrResourceManager>(false) && final(self).channel_reputation@
                        == old(self).channel_reputation@ && final(self).target_channels@ == old(self).target_channels@
                } else {
                    r == Ok::<bool, ErrResourceManager>(true) && final(self).channel_reputation@.dom() == old(self).channel_reputation@.dom().insert(
                        channel_id,
                    ) && final(self).target_channels@.dom() == old(self).target_channels@.dom().insert(channel_id) && final(self).channel_reputation@[channel_id].in_flight_htlcs@ == Seq::<
                        InFlightHTLC,
                    >::empty() && final(self).channel_reputation@[channel_id].revenue.value.value()
                        == 0 && final(self).target_channels@[channel_id].revenue.value.value() == 0
                        && final(self).target_channels@[channel_id].resource_buckets
                        == resource_buckets && (forall|c: u64|
                        c != channel_id && #[trigger] old(self).channel_reputation@.contains_key(c)
                            ==> final(self).channel_reputation@[c] == old(self).channel_reputation@[c]) && (forall|c: u64|
                        c != channel_id && #[trigger] old(self).target_channels@.contains_key(c)
                            ==> final(self).target_channels@[c] == old(self).target_channels@[c])
                }
            }),
    {
        if self.channel_reputation.contains_key(&channel_id)
            || self.target_channels.contains_key(&channel_id) {
            return Ok(false);
        }
        let start = DecayingAverageStart {
            last_update: now,
            value: SignedValue::zero(),
        };
        let reputation_window = self.manager_configuration.reputation_window();
        let tracker = ReputationTracker::new(
            reputation_window,
            self.block_time,
            self.resolution_period,
            start,
            now,
        );
        let target = match TargetChannelTracker::new(
            self.manager_configuration,
            chan_info,
            start,
            resource_buckets,
            now,
        ) {
            Ok(t) => t,
            Err(_) => {
                proof {
                    assert(false);
                }
                return Err(ErrResourceManager::InvalidState);
            },
        };
        self.channel_reputation.insert(channel_id, tracker);
        self.target_channels.insert(channel_id, target);
        Ok(true)
    }

    /// Builds the reputation check for a proposed HTLC against a given
    /// outgoing revenue, consulting the incoming channel's tracker. Fails
    /// exactly when the incoming channel is unknown.
    pub fn sufficient_reputation(
        &mut self,
        proposed_htlc: ProposedHTLC,
        outgoing_channel_revenue: SignedValue,
        now: u64,
    ) -> (r: Result<ReputationCheck, ErrResourceManager>)
        requires
            old(self).wf(),
            proposed_htlc.wf(),
            outgoing_channel_revenue.wf(),
        ensures
            final(self).wf(),
            final(self).manager_configuration == old(self).manager_configuration,
            final(self).target_channels@ == old(self).target_channels@,
            !old(self).channel_reputation@.contains_key(proposed_htlc.incoming_channel) ==> r
                == Err::<ReputationCheck, ErrResourceManager>(ErrResourceManager::InvalidState)
                && final(self).channel_reputation@ == old(self).channel_reputation@,
            old(self).channel_reputation@.contains_key(proposed_htlc.incoming_channel) ==> ({
                let rep0 = old(self).channel_reputation@[proposed_htlc.incoming_channel];
                match r {
                    Ok(check) => {
                        &&& check.incoming_reputation.incoming_revenue == rep0.revenue.spec_observe(
                            now,
                        ).value
                        &&& check.incoming_reputation.in_flight_risk as int
                            == rep0.spec_in_flight_risk()
                        &&& check.outgoing_revenue == outgoing_channel_revenue
                        &&& check.htlc_risk as int == spec_outstanding_risk(
                            proposed_htlc.spec_forwarding_fee(),
                            proposed_htlc.cltv_expiry_delta as int,
                            old(self).block_time as int,
                            old(self).resolution_period as int,
                        )
                        &&& final(self).channel_reputation@.dom() == old(self).channel_reputation@.dom()
                        &&& (forall|c: u64|
                            c != proposed_htlc.incoming_channel && #[trigger] old(self).channel_reputation@.contains_key(c) ==> final(self).channel_reputation@[c] == old(self).channel_reputation@[c])
                        &&& final(self).channel_reputation@[proposed_htlc.incoming_channel].revenue
                            == rep0.revenue.spec_observe(now)
                        &&& final(self).channel_reputation@[proposed_htlc.incoming_channel].in_flight_htlcs@
                            == rep0.in_flight_htlcs@
                    },
                    Err(_) => false,
                }
            }),
    {
        let in_ch = proposed_htlc.incoming_channel;
        match self.channel_reputation.remove(&in_ch) {
            None => {
                proof {
                    assert(old(self).channel_reputation@.remove(in_ch) =~= old(self).channel_reputation@);
                }
                Err(ErrResourceManager::InvalidState)
            },
            Some(mut rep) => {
                let incoming_reputation = rep.incoming_reputation(now);
                let htlc_risk = ReputationTracker::outstanding_risk(
                    self.block_time,
                    &proposed_htlc,
                    self.resolution_period,
                );
                self.channel_reputation.insert(in_ch, rep);
                Ok(
                    ReputationCheck {
                        incoming_reputation,
                        outgoing_revenue: outgoing_channel_revenue,
                        htlc_risk,
                    },
                )
            },
        }
    }

    /// Decides a proposed HTLC forward.
    ///
    /// Rejects amounts above `MAX_MILLI_SATOSHI` and unknown channel ids,
    /// changing nothing. Otherwise the incoming channel's standing is
    /// snapshot, the outgoing channel classifies and admits the HTLC, and
    /// the in-flight record is stored against the incoming channel — either
    /// both trackers record the forward, or neither does.
    pub fn forward_htlc(
        &mut self,
        proposed_htlc: ProposedHTLC,
        chan_info: ChannelInfo,
        now: u64,
    ) -> (r: Result<ForwardDecision, ErrResourceManager>)
        requires
            old(self).wf(),
            proposed_htlc.wf(),
        ensures
            final(self).wf(),
            final(self).manager_configuration == old(self).manager_configuration,
            proposed_htlc.outgoing_amount_msat > MAX_MILLI_SATOSHI ==> r == Err::<
                ForwardDecision,
                ErrResourceManager,
            >(ErrResourceManager::InvalidState) && final(self).channel_reputation@ == old(self).channel_reputation@ && final(self).target_channels@ == old(self).target_channels@,
            proposed_htlc.outgoing_amount_msat <= MAX_MILLI_SATOSHI && !(old(self).channel_reputation@.contains_key(proposed_htlc.incoming_channel) && old(self).target_channels@.contains_key(proposed_htlc.outgoing_channel)) ==> r == Err::<
                ForwardDecision,
                ErrResourceManager,
            >(ErrResourceManager::InvalidState) && final(self).channel_reputation@ == old(self).channel_reputation@ && final(self).target_channels@ == old(self).target_channels@,
            proposed_htlc.outgoing_amount_msat <= MAX_MILLI_SATOSHI && old(self).channel_reputation@.contains_key(proposed_htlc.incoming_channel) && old(self).target_channels@.contains_key(proposed_htlc.outgoing_channel) ==> ({
                let in_ch = proposed_htlc.incoming_channel;
                let out_ch = proposed_htlc.outgoing_channel;
                let rep0 = old(self).channel_reputation@[in_ch];
                let tgt0 = old(self).target_channels@[out_ch];
                match r {
                    Ok(d) => {
                        let check = d.reputation_check;
                        let protected = check.spec_sufficient_reputation()
                            && proposed_htlc.incoming_endorsed == Endorsement::EndorsementTrue;
                        let fits = spec_fits(
                            &tgt0.resource_buckets,
                            proposed_htlc.outgoing_amount_msat,
                        );
                        let admitted = protected || fits;
                        let rep1 = final(self).channel_reputation@[in_ch];
                        let tgt1 = final(self).target_channels@[out_ch];
                        &&& check.incoming_reputation.incoming_revenue
                            == rep0.revenue.spec_observe(now).value
                        &&& check.incoming_reputation.in_flight_risk as int
                            == rep0.spec_in_flight_risk()
                        &&& check.outgoing_revenue == tgt0.revenue.spec_observe(now).value
                        &&& check.htlc_risk as int == spec_outstanding_risk(
                            proposed_htlc.spec_forwarding_fee(),
                            proposed_htlc.cltv_expiry_delta as int,
                            old(self).block_time as int,
                            old(self).resolution_period as int,
                        )
                        &&& d.forward_outcome == spec_forward_outcome(admitted, protected)
                        &&& final(self).channel_reputation@.dom() == old(self).channel_reputation@.dom()
                        &&& final(self).target_channels@.dom() == old(self).target_channels@.dom()
                        &&& (forall|c: u64|
                            c != in_ch && #[trigger] old(self).channel_reputation@.contains_key(c)
                                ==> final(self).channel_reputation@[c] == old(self).channel_reputation@[c])
                        &&& (forall|c: u64|
                            c != out_ch && #[trigger] old(self).target_channels@.contains_key(c)
                                ==> final(self).target_channels@[c] == old(self).target_channels@[c])
                        &&& rep1.revenue == rep0.revenue.spec_observe(now)
                        &&& rep1.in_flight_htlcs@.len() > 0
                        &&& rep1.in_flight_htlcs@.last() == (InFlightHTLC {
                            timestamp_added: now,
                            outgoing_decision: d.forward_outcome,
                            proposed_htlc,
                        })
                        &&& (forall|k: u32|
                            #[trigger] has_index(rep1.in_flight_htlcs@, k) <==> (has_index(
                                rep0.in_flight_htlcs@,
                                k,
                            ) || k == proposed_htlc.incoming_index))
                        &&& tgt1.revenue == tgt0.revenue.spec_observe(now)
                        &&& tgt1.resource_buckets.general_liquidity_msat()
                            == tgt0.resource_buckets.general_liquidity_msat()
                        &&& tgt1.resource_buckets.general_slots()
                            == tgt0.resource_buckets.general_slots()
                        &&& ((protected || !fits) ==> tgt1.resource_buckets.bucket_unchanged(
                            &tgt0.resource_buckets,
                        ))
                        &&& ((!protected && fits)
                            ==> tgt1.resource_buckets.in_flight_liquidity_msat()
                            == tgt0.resource_buckets.in_flight_liquidity_msat()
                            + proposed_htlc.outgoing_amount_msat
                            && tgt1.resource_buckets.in_flight_slots()
                            == tgt0.resource_buckets.in_flight_slots() + 1)
                    },
                    Err(_) => false,
                }
            }),
    {
        let _ = chan_info;
        if proposed_htlc.outgoing_amount_msat > MAX_MILLI_SATOSHI {
            return Err(ErrResourceManager::InvalidState);
        }
        let in_ch = proposed_htlc.incoming_channel;
        let out_ch = proposed_htlc.outgoing_channel;
        match self.channel_reputation.remove(&in_ch) {
            None => {
                proof {
                    assert(old(self).channel_reputation@.remove(in_ch) =~= old(self).channel_reputation@);
                }
                Err(ErrResourceManager::InvalidState)
            },
            Some(mut rep) => {
                match self.target_channels.remove(&out_ch) {
                    None => {
                        self.channel_reputation.insert(in_ch, rep);
                        proof {
                            assert(old(self).target_channels@.remove(out_ch) =~= old(self).target_channels@);
                            assert(old(self).channel_reputation@.remove(in_ch).insert(
                                in_ch,
                                old(self).channel_reputation@[in_ch],
                            ) =~= old(self).channel_reputation@);
                        }
                        Err(ErrResourceManager::InvalidState)
                    },
                    Some(mut tgt) => {
                        let incoming_reputation = rep.incoming_reputation(now);
                        let decision = match tgt.add_inflight(
                            incoming_reputation,
                            proposed_htlc,
                            now,
                        ) {
                            Ok(d) => d,
                            Err(_) => {
                                proof {
                                    assert(false);
                                }
                                return Err(ErrResourceManager::InvalidState);
                            },
                        };
                        let added = rep.add_inflight(
                            proposed_htlc,
                            decision.forward_outcome,
                            now,
                        );
                        match added {
                            Ok(_) => {},
                            Err(_) => {
                                proof {
                                    assert(false);
                                }
                                return Err(ErrResourceManager::InvalidState);
                            },
                        }
                        self.channel_reputation.insert(in_ch, rep);
                        self.target_channels.insert(out_ch, tgt);
                        Ok(decision)
                    },
                }
            },
        }
    }

    /// Settles a resolved HTLC.
    ///
    /// The in-flight record is validated before anything changes: an unknown
    /// incoming channel, a missing record, a record that was denied
    /// resources, a cross-channel mismatch, or a release the bucket cannot
    /// cover each fail with the state untouched. Otherwise the outgoing
    /// channel (when registered) releases the reservation and books the fee
    /// on success, the incoming channel removes the record and credits its
    /// effective fees, and the removed record is returned.
    pub fn resolve_htlc(&mut self, resolved_htlc: ResolvedHTLC, now: u64) -> (r: Result<
        InFlightHTLC,
        ErrResourceManager,
    >)
        requires
            old(self).wf(),
        ensures
            final(self).wf(),
            final(self).manager_configuration == old(self).manager_configuration,
            !old(self).channel_reputation@.contains_key(resolved_htlc.incoming_channel) ==> r
                == Err::<InFlightHTLC, ErrResourceManager>(ErrResourceManager::InvalidState)
                && final(self).channel_reputation@ == old(self).channel_reputation@ && final(self).target_channels@ == old(self).target_channels@,
            old(self).channel_reputation@.contains_key(resolved_htlc.incoming_channel)
                && !has_index(
                old(self).channel_reputation@[resolved_htlc.incoming_channel].in_flight_htlcs@,
                resolved_htlc.incoming_index,
            ) ==> r == Err::<InFlightHTLC, ErrResourceManager>(ErrResourceManager::ResolutionNotFound)
                && final(self).channel_reputation@ == old(self).channel_reputation@ && final(self).target_channels@ == old(self).target_channels@,
            old(self).channel_reputation@.contains_key(resolved_htlc.incoming_channel)
                && has_index(
                old(self).channel_reputation@[resolved_htlc.incoming_channel].in_flight_htlcs@,
                resolved_htlc.incoming_index,
            ) ==> exists|i: int|
                #![trigger old(self).channel_reputation@[resolved_htlc.incoming_channel].in_flight_htlcs@[i]]
                ({
                    let in_ch = resolved_htlc.incoming_channel;
                    let rep0 = old(self).channel_reputation@[in_ch];
                    let s0 = rep0.in_flight_htlcs@;
                    &&& 0 <= i < s0.len()
                    &&& s0[i].proposed_htlc.incoming_index
                        == resolved_htlc.incoming_index
                    &&& ({
                        let h = s0[i];
                        let out_ch = h.proposed_htlc.outgoing_channel;
                        let amt = h.proposed_htlc.outgoing_amount_msat;
                        let target_known = old(self).target_channels@.contains_key(out_ch);
                        let tgt0 = old(self).target_channels@[out_ch];
                        if h.outgoing_decision == ForwardOutcome::ForwardOutcomeNoResources {
                            r == Err::<InFlightHTLC, ErrResourceManager>(
                                ErrResourceManager::InvalidState,
                            ) && final(self).channel_reputation@ == old(self).channel_reputation@
                                && final(self).target_channels@ == old(self).target_channels@
                        } else if h.proposed_htlc.outgoing_channel
                            != resolved_htlc.outgoing_channel {
                            r == Err::<InFlightHTLC, ErrResourceManager>(
                                ErrResourceManager::InvalidState,
                            ) && final(self).channel_reputation@ == old(self).channel_reputation@
                                && final(self).target_channels@ == old(self).target_channels@
                        } else if target_known && h.outgoing_decision
                            == ForwardOutcome::ForwardOutcomeUnendorsed && amt
                            > tgt0.resource_buckets.in_flight_liquidity_msat() {
                            r == Err::<InFlightHTLC, ErrResourceManager>(
                                ErrResourceManager::Bucket(ErrBucketing::NoInFlightLiquidity),
                            ) && final(self).channel_reputation@ == old(self).channel_reputation@
                                && final(self).target_channels@.dom() == old(self).target_channels@.dom() && bucket_entry_unchanged(
                                old(self).target_channels@,
                                final(self).target_channels@,
                                out_ch,
                            )
                        } else if target_known && h.outgoing_decision
                            == ForwardOutcome::ForwardOutcomeUnendorsed && tgt0.resource_buckets.in_flight_slots()
                            == 0 {
                            r == Err::<InFlightHTLC, ErrResourceManager>(
                                ErrResourceManager::Bucket(ErrBucketing::NoHTLCSlotsOccupied),
                            ) && final(self).channel_reputation@ == old(self).channel_reputation@
                                && final(self).target_channels@.dom() == old(self).target_channels@.dom() && bucket_entry_unchanged(
                                old(self).target_channels@,
                                final(self).target_channels@,
                                out_ch,
                            )
                        } else {
                            let rep1 = final(self).channel_reputation@[in_ch];
                            &&& r == Ok::<InFlightHTLC, ErrResourceManager>(h)
                            &&& final(self).channel_reputation@.dom() == old(self).channel_reputation@.dom()
                            &&& (forall|c: u64|
                                c != in_ch && #[trigger] old(self).channel_reputation@.contains_key(c) ==> final(self).channel_reputation@[c] == old(self).channel_reputation@[c])
                            &&& rep1.in_flight_htlcs@ == s0.remove(i)
                            &&& rep1.revenue == rep0.revenue.spec_add(
                                spec_effective_fees(
                                    old(self).resolution_period as int,
                                    resolved_htlc.timestamp_settled as int,
                                    h,
                                    resolved_htlc.success,
                                ),
                                now,
                            )
                            &&& (forall|k: u32|
                                #[trigger] has_index(rep1.in_flight_htlcs@, k) <==> (has_index(
                                    s0,
                                    k,
                                ) && k != resolved_htlc.incoming_index))
                            &&& final(self).target_channels@.dom() == old(self).target_channels@.dom()
                            &&& (forall|c: u64|
                                c != out_ch && #[trigger] old(self).target_channels@.contains_key(
                                    c,
                                ) ==> final(self).target_channels@[c] == old(self).target_channels@[c])
                            &&& (target_known ==> ({
                                let tgt1 = final(self).target_channels@[out_ch];
                                let booked = if resolved_htlc.success {
                                    tgt0.revenue.spec_add(
                                        h.proposed_htlc.spec_forwarding_fee(),
                                        now,
                                    )
                                } else {
                                    tgt0.revenue
                                };
                                &&& tgt1.revenue == booked
                                &&& tgt1.resource_buckets.general_liquidity_msat()
                                    == tgt0.resource_buckets.general_liquidity_msat()
                                &&& tgt1.resource_buckets.general_slots()
                                    == tgt0.resource_buckets.general_slots()
                                &&& (h.outgoing_decision == ForwardOutcome::ForwardOutcomeEndorsed
                                    ==> tgt1.resource_buckets.bucket_unchanged(
                                    &tgt0.resource_buckets,
                                ))
                                &&& (h.outgoing_decision == ForwardOutcome::ForwardOutcomeUnendorsed
                                    ==> tgt1.resource_buckets.in_flight_liquidity_msat()
                                    == tgt0.resource_buckets.in_flight_liquidity_msat() - amt
                                    && tgt1.resource_buckets.in_flight_slots()
                                    == tgt0.resource_buckets.in_flight_slots() - 1)
                            }))
                            &&& (!target_known ==> final(self).target_channels@ == old(self).target_channels@)
                        }
                    })
                }),
    {
        let in_ch = resolved_htlc.incoming_channel;
        match self.channel_reputation.remove(&in_ch) {
            None => {
                proof {
                    assert(old(self).channel_reputation@.remove(in_ch) =~= old(self).channel_reputation@);
                }
                Err(ErrResourceManager::InvalidState)
            },
            Some(mut rep) => {
                let rec_opt = rep.get_inflight(resolved_htlc.incoming_index);
                match rec_opt {
                    None => {
                        self.channel_reputation.insert(in_ch, rep);
                        proof {
                            assert(old(self).channel_reputation@.remove(in_ch).insert(
                                in_ch,
                                old(self).channel_reputation@[in_ch],
                            ) =~= old(self).channel_reputation@);
                        }
                        Err(ErrResourceManager::ResolutionNotFound)
                    },
                    Some(rec) => {
                        if rec.outgoing_decision == ForwardOutcome::ForwardOutcomeNoResources {
                            self.channel_reputation.insert(in_ch, rep);
                            proof {
                                assert(old(self).channel_reputation@.remove(in_ch).insert(
                                    in_ch,
                                    old(self).channel_reputation@[in_ch],
                                ) =~= old(self).channel_reputation@);
                            }
                            return Err(ErrResourceManager::InvalidState);
                        }
                        if rec.proposed_htlc.outgoing_channel != resolved_htlc.outgoing_channel {
                            self.channel_reputation.insert(in_ch, rep);
                            proof {
                                assert(old(self).channel_reputation@.remove(in_ch).insert(
                                    in_ch,
                                    old(self).channel_reputation@[in_ch],
                                ) =~= old(self).channel_reputation@);
                            }
                            return Err(ErrResourceManager::InvalidState);
                        }
                        let out_ch = rec.proposed_htlc.outgoing_channel;
                        match self.target_channels.remove(&out_ch) {
                            None => {
                                let resolved = rep.resolve_inflight(resolved_htlc, now);
                                self.channel_reputation.insert(in_ch, rep);
                                proof {
                                    assert(old(self).target_channels@.remove(out_ch) =~= old(self).target_channels@);
                                }
                                match resolved {
                                    Ok(h) => Ok(h),
                                    Err(_) => {
                                        proof {
                                            assert(false);
                                        }
                                        Err(ErrResourceManager::InvalidState)
                                    },
                                }
                            },
                            Some(mut tgt) => {
                                let tres = tgt.resolve_inflight(resolved_htlc, rec, now);
                                match tres {
                                    Err(e) => {
                                        self.channel_reputation.insert(in_ch, rep);
                                        self.target_channels.insert(out_ch, tgt);
                                        proof {
                                            assert(old(self).channel_reputation@.remove(
                                                in_ch,
                                            ).insert(in_ch, old(self).channel_reputation@[in_ch])
                                                =~= old(self).channel_reputation@);
                                        }
                                        match e {
                                            ErrTarget::InvalidState => {
                                                proof {
                                                    assert(false);
                                                }
                                                Err(ErrResourceManager::InvalidState)
                                            },
                                            ErrTarget::Bucket(b) => Err(
                                                ErrResourceManager::Bucket(b),
                                            ),
                                        }
                                    },
                                    Ok(_) => {
                                        let resolved = rep.resolve_inflight(resolved_htlc, now);
                                        self.channel_reputation.insert(in_ch, rep);
                                        self.target_channels.insert(out_ch, tgt);
                                        match resolved {
                                            Ok(h) => Ok(h),
                                            Err(_) => {
                                                proof {
                                                    assert(false);
                                                }
                                                Err(ErrResourceManager::InvalidState)
                                            },
                                        }
                                    },
                                }
                            },
                        }
                    },
                }
            },
        }
    }
}

/// The bucket counters and revenue of the tracker at `key` read unchanged
/// between the two maps, and every other entry is untouched.
pub open spec fn bucket_entry_unchanged<B: ResourceBucketer>(
    pre: Map<u64, TargetChannelTracker<B>>,
    post: Map<u64, TargetChannelTracker<B>>,
    key: u64,
) -> bool {
    &&& post.contains_key(key)
    &&& pre.contains_key(key)
    &&& post[key].revenue == pre[key].revenue
    &&& post[key].resource_buckets.bucket_unchanged(&pre[key].resource_buckets)
    &&& post[key].resource_buckets.general_liquidity_msat()
        == pre[key].resource_buckets.general_liquidity_msat()
    &&& post[key].resource_buckets.general_slots() == pre[key].resource_buckets.general_slots()
    &&& forall|c: u64|
        c != key && #[trigger] pre.contains_key(c) ==> post.contains_key(c) && post[c] == pre[c]
}

} // verus!
