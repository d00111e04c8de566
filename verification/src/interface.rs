//! Shared value types of the reputation engine: HTLC descriptors, decision
//! records, the endorsement signal, and the resource-bucketing capability
//! that target trackers consume.

use vstd::prelude::*;
use crate::decaying_average::SignedValue;
use crate::resource_bucketing::ErrBucketing;

verus! {

/// The endorsement signalling that is passed along with an HTLC.
#[derive(Clone, Copy, PartialEq, Eq, Structural, Debug)]
pub enum Endorsement {
    /// The endorsement TLV was not present.
    EndorsementNone,
    /// The TLV was present with a zero value.
    EndorsementFalse,
    /// The TLV was present with a non-zero value.
    EndorsementTrue,
}

impl Endorsement {
    pub fn new_endorsement_signal(endorse: bool) -> (r: Endorsement)
        ensures
            r == if endorse {
                Endorsement::EndorsementTrue
            } else {
                Endorsement::EndorsementFalse
            },
    {
        if endorse {
            Endorsement::EndorsementTrue
        } else {
            Endorsement::EndorsementFalse
        }
    }
}

/// The forwarding outcomes for a proposed HTLC forward.
#[derive(Clone, Copy, PartialEq, Eq, Structural, Debug)]
pub enum ForwardOutcome {
    /// The HTLC should be dropped: the resource bucket it qualifies for is full.
    ForwardOutcomeNoResources,
    /// The HTLC should be forwarded but not endorsed.
    ForwardOutcomeUnendorsed,
    /// The HTLC should be forwarded with a positive endorsement signal.
    ForwardOutcomeEndorsed,
}

/// The outcome assigned to a forward, given whether the bucket admitted it
/// and whether it qualified for the protected pool.
pub open spec fn spec_forward_outcome(can_forward: bool, htlc_protected: bool) -> ForwardOutcome {
    if !can_forward {
        ForwardOutcome::ForwardOutcomeNoResources
    } else if htlc_protected {
        ForwardOutcome::ForwardOutcomeEndorsed
    } else {
        ForwardOutcome::ForwardOutcomeUnendorsed
    }
}

/// An HTLC that has been locked in on our incoming channel but not yet
/// forwarded.
#[derive(Clone, Copy, PartialEq, Eq, Structural, Debug)]
pub struct ProposedHTLC {
    /// The channel that sent this HTLC to the local node for forwarding.
    pub incoming_channel: u64,
    /// The outgoing channel that the sending node has requested.
    pub outgoing_channel: u64,
    /// The HTLC index on the incoming channel.
    pub incoming_index: u32,
    /// Whether the incoming channel forwarded this HTLC as endorsed.
    pub incoming_endorsed: Endorsement,
    /// The amount of the HTLC on the incoming channel, in milli-satoshi.
    pub incoming_amount_msat: u64,
    /// The amount of the HTLC on the outgoing channel, in milli-satoshi.
    pub outgoing_amount_msat: u64,
    /// The difference between the block height at which the HTLC was
    /// forwarded and its outgoing CLTV expiry.
    pub cltv_expiry_delta: u32,
}

impl ProposedHTLC {
    /// The outgoing amount never exceeds the incoming amount: the difference
    /// is the fee paid to this node.
    pub open spec fn wf(self) -> bool {
        self.outgoing_amount_msat <= self.incoming_amount_msat
    }

    pub open spec fn spec_forwarding_fee(self) -> int {
        self.incoming_amount_msat - self.outgoing_amount_msat
    }

    pub fn forwarding_fee(&self) -> (r: u64)
        requires
            self.wf(),
        ensures
            r == self.spec_forwarding_fee(),
    {
        self.incoming_amount_msat - self.outgoing_amount_msat
    }
}

/// An HTLC forward that is currently in flight.
#[derive(Clone, Copy, PartialEq, Eq, Structural, Debug)]
pub struct InFlightHTLC {
    /// The time at which the incoming HTLC was added to the incoming channel.
    pub timestamp_added: u64,
    /// The resource allocation that was assigned to the outgoing HTLC.
    pub outgoing_decision: ForwardOutcome,
    /// The original details of the HTLC that was forwarded to us.
    pub proposed_htlc: ProposedHTLC,
}

/// The resolution of an in-flight HTLC.
#[derive(Clone, Copy, PartialEq, Eq, Structural, Debug)]
pub struct ResolvedHTLC {
    /// The time at which the HTLC was resolved.
    pub timestamp_settled: u64,
    /// The HTLC index on the incoming channel: the join key with the
    /// in-flight record.
    pub incoming_index: u32,
    /// The channel that originally forwarded the incoming HTLC.
    pub incoming_channel: u64,
    /// The HTLC index on the outgoing link.
    pub outgoing_index: u32,
    /// The channel that forwarded the outgoing HTLC.
    pub outgoing_channel: u64,
    /// True if the HTLC was fulfilled.
    pub success: bool,
}

/// The reputation standing of an incoming link.
#[derive(Clone, Copy, PartialEq, Eq, Structural, Debug)]
pub struct IncomingReputation {
    /// The reputation that the forwarding channel has accrued over time.
    pub incoming_revenue: SignedValue,
    /// The outstanding risk of all of the forwarding party's in-flight HTLCs.
    pub in_flight_risk: u128,
}

/// The scalars used to make a forwarding decision, surfaced for
/// observability.
#[derive(Clone, Copy, PartialEq, Eq, Structural, Debug)]
pub struct ReputationCheck {
    /// The reputation built up by the incoming link, with the outstanding
    /// risk it currently poses.
    pub incoming_reputation: IncomingReputation,
    /// The cost of using the outgoing link, valued by its past revenue.
    pub outgoing_revenue: SignedValue,
    /// The risk of the newly proposed HTLC, should it be held for its full
    /// expiry.
    pub htlc_risk: u128,
}

impl ReputationCheck {
    pub open spec fn wf(self) -> bool {
        &&& self.incoming_reputation.incoming_revenue.wf()
        &&& self.outgoing_revenue.wf()
    }

    /// The reputation inequality: the incoming link's accrued revenue must
    /// strictly exceed the outgoing revenue at stake plus all outstanding
    /// risk, including the proposed HTLC's own. Ties fail.
    pub open spec fn spec_sufficient_reputation(self) -> bool {
        self.incoming_reputation.incoming_revenue.value() > self.outgoing_revenue.value()
            + self.incoming_reputation.in_flight_risk + self.htlc_risk
    }

    /// Whether the HTLC meets the reputation bar to be forwarded endorsed.
    pub fn sufficient_reputation(&self) -> (r: bool)
        requires
            self.wf(),
        ensures
            r == self.spec_sufficient_reputation(),
    {
        let inc = self.incoming_reputation.incoming_revenue;
        let ifr = self.incoming_reputation.in_flight_risk;
        let hr = self.htlc_risk;
        let out = self.outgoing_revenue;
        if !out.negative {
            // The right-hand side is non-negative.
            if inc.negative {
                false
            } else if out.magnitude > u128::MAX - ifr {
                false
            } else {
                let s1: u128 = out.magnitude + ifr;
                if s1 > u128::MAX - hr {
                    false
                } else {
                    inc.magnitude > s1 + hr
                }
            }
        } else {
            let d = out.magnitude;
            if ifr >= d {
                // The right-hand side is rem + hr, non-negative.
                let rem: u128 = ifr - d;
                if inc.negative {
                    false
                } else if rem > u128::MAX - hr {
                    false
                } else {
                    inc.magnitude > rem + hr
                }
            } else {
                let d2: u128 = d - ifr;
                if hr >= d2 {
                    // The right-hand side is hr - d2, non-negative.
                    if inc.negative {
                        false
                    } else {
                        inc.magnitude > hr - d2
                    }
                } else {
                    // The right-hand side is negative.
                    if !inc.negative {
                        true
                    } else {
                        inc.magnitude < d2 - hr
                    }
                }
            }
        }
    }
}

/// The action to take for a proposed HTLC forward, with the values that
/// produced it.
#[derive(Clone, Copy, PartialEq, Eq, Structural, Debug)]
pub struct ForwardDecision {
    /// The numerical values used in making the reputation decision.
    pub reputation_check: ReputationCheck,
    /// The action that the caller should take.
    pub forward_outcome: ForwardOutcome,
}

/// A channel's routing restrictions.
#[derive(Clone, Copy, PartialEq, Eq, Structural, Debug)]
pub struct ChannelInfo {
    /// Total number of HTLCs allowed in flight.
    pub in_flight_htlc_limit: u64,
    /// Total amount of liquidity allowed in flight, in milli-satoshi.
    pub in_flight_liquidity_limit: u64,
}

/// The in-flight counters stay within the general pool.
pub open spec fn bucket_wf<B: ResourceBucketer + ?Sized>(b: &B) -> bool {
    &&& b.in_flight_liquidity_msat() <= b.general_liquidity_msat()
    &&& b.in_flight_slots() <= b.general_slots()
}

/// Basic resource bucketing for local resource conservation: a reserved
/// protected pool admits without counting, the general pool admits while
/// capacity remains.
pub trait ResourceBucketer {
    /// Liquidity available to the general (unprotected) pool, in msat.
    spec fn general_liquidity_msat(&self) -> u64;

    /// HTLC slots available to the general pool.
    spec fn general_slots(&self) -> u64;

    /// General-pool liquidity currently locked up in flight.
    spec fn in_flight_liquidity_msat(&self) -> u64;

    /// General-pool slots currently locked up in flight.
    spec fn in_flight_slots(&self) -> u64;

    /// The in-flight counters stay within the general pool.
    open spec fn bucket_wf(&self) -> bool {
        &&& self.in_flight_liquidity_msat() <= self.general_liquidity_msat()
        &&& self.in_flight_slots() <= self.general_slots()
    }

    /// The in-flight counters of `self` read as those of `pre`.
    open spec fn bucket_unchanged(&self, pre: &Self) -> bool {
        &&& self.in_flight_liquidity_msat() == pre.in_flight_liquidity_msat()
        &&& self.in_flight_slots() == pre.in_flight_slots()
    }

    /// Poses an HTLC for addition to its bucket. Protected HTLCs are
    /// accounted to the reserved capacity and never touch the counters;
    /// general HTLCs are admitted exactly when both counters have room.
    fn add_htlc(&mut self, protected: bool, htlc_amount_msat: u64) -> (admitted: bool)
        requires
            old(self).bucket_wf(),
        ensures
            final(self).bucket_wf(),
            final(self).general_liquidity_msat() == old(self).general_liquidity_msat(),
            final(self).general_slots() == old(self).general_slots(),
            protected ==> admitted && final(self).bucket_unchanged(old(self)),
            !protected ==> {
                let fits = old(self).in_flight_liquidity_msat() + htlc_amount_msat
                    <= old(self).general_liquidity_msat()
                    && old(self).in_flight_slots() + 1 <= old(self).general_slots();
                &&& admitted == fits
                &&& fits ==> final(self).in_flight_liquidity_msat()
                    == old(self).in_flight_liquidity_msat() + htlc_amount_msat
                    && final(self).in_flight_slots() == old(self).in_flight_slots() + 1
                &&& !fits ==> final(self).bucket_unchanged(old(self))
            },
    ;

    /// Removes an in-flight HTLC from its bucket. Protected releases are
    /// no-ops, mirroring their admission; general releases fail exactly when
    /// the counters do not cover them, and otherwise decrement both.
    fn remove_htlc(&mut self, protected: bool, htlc_amount_msat: u64) -> (r: Result<
        bool,
        ErrBucketing,
    >)
        requires
            old(self).bucket_wf(),
        ensures
            final(self).bucket_wf(),
            final(self).general_liquidity_msat() == old(self).general_liquidity_msat(),
            final(self).general_slots() == old(self).general_slots(),
            protected ==> r == Ok::<bool, ErrBucketing>(true)
                && final(self).bucket_unchanged(old(self)),
            !protected ==> if htlc_amount_msat > old(self).in_flight_liquidity_msat() {
                r == Err::<bool, ErrBucketing>(ErrBucketing::NoInFlightLiquidity)
                    && final(self).bucket_unchanged(old(self))
            } else if old(self).in_flight_slots() == 0 {
                r == Err::<bool, ErrBucketing>(ErrBucketing::NoHTLCSlotsOccupied)
                    && final(self).bucket_unchanged(old(self))
            } else {
                r == Ok::<bool, ErrBucketing>(true)
                    && final(self).in_flight_liquidity_msat()
                        == old(self).in_flight_liquidity_msat() - htlc_amount_msat
                    && final(self).in_flight_slots() == old(self).in_flight_slots() - 1
            },
    ;
}

/// Law: the forward classification is a function of the reputation scalars,
/// the endorsement signal, and the bucket admission alone. Two checks built
/// from identical values classify identically, regardless of the schedule
/// that produced them.
pub proof fn lemma_reputation_determinism(
    a: ReputationCheck,
    b: ReputationCheck,
    endorsed: bool,
    can_forward: bool,
)
    requires
        a.incoming_reputation.incoming_revenue.value()
            == b.incoming_reputation.incoming_revenue.value(),
        a.incoming_reputation.in_flight_risk == b.incoming_reputation.in_flight_risk,
        a.outgoing_revenue.value() == b.outgoing_revenue.value(),
        a.htlc_risk == b.htlc_risk,
    ensures
        a.spec_sufficient_reputation() == b.spec_sufficient_reputation(),
        spec_forward_outcome(can_forward, a.spec_sufficient_reputation() && endorsed)
            == spec_forward_outcome(can_forward, b.spec_sufficient_reputation() && endorsed),
{
}

} // verus!
