use htlc_reputation::decaying_average::{DecayingAverageStart, SignedValue};
use htlc_reputation::interface::{Endorsement, ForwardOutcome, InFlightHTLC, ProposedHTLC, ResolvedHTLC};
use htlc_reputation::reputation_tracker::{ErrReputation, ReputationTracker};

fn zero_start(now: u64) -> DecayingAverageStart {
    DecayingAverageStart { last_update: now, value: SignedValue::zero() }
}

fn proposed(endorsed: bool) -> ProposedHTLC {
    ProposedHTLC {
        incoming_channel: 1,
        outgoing_channel: 2,
        incoming_index: 7,
        incoming_endorsed: if endorsed {
            Endorsement::EndorsementTrue
        } else {
            Endorsement::EndorsementFalse
        },
        incoming_amount_msat: 2_000,
        outgoing_amount_msat: 1_000,
        cltv_expiry_delta: 40,
    }
}

fn tracker() -> ReputationTracker {
    ReputationTracker::new(1_000_000, 600, 90, zero_start(0), 0)
}

#[test]
fn test_reputation_tracker() {
    let reputation_tracker = tracker();
    let _ = reputation_tracker;
}

#[test]
fn forwarding_fee_is_the_amount_difference() {
    assert_eq!(proposed(true).forwarding_fee(), 1_000);
}

#[test]
fn endorsement_signal_construction() {
    assert_eq!(Endorsement::new_endorsement_signal(true), Endorsement::EndorsementTrue);
    assert_eq!(Endorsement::new_endorsement_signal(false), Endorsement::EndorsementFalse);
}

#[test]
fn outstanding_risk_formula() {
    // fee 1000 * cltv 40 * block_time 600 * 60 / resolution_period 90.
    let risk = ReputationTracker::outstanding_risk(600, &proposed(true), 90);
    assert_eq!(risk, 16_000_000);
}

#[test]
fn in_flight_risk_counts_only_endorsed() {
    let mut rep = tracker();
    rep.add_inflight(proposed(true), ForwardOutcome::ForwardOutcomeEndorsed, 0).unwrap();
    assert_eq!(rep.in_flight_htlc_risk(), 16_000_000);

    let mut unendorsed = proposed(false);
    unendorsed.incoming_index = 8;
    rep.add_inflight(unendorsed, ForwardOutcome::ForwardOutcomeUnendorsed, 0).unwrap();
    assert_eq!(rep.in_flight_htlc_risk(), 16_000_000);
}

#[test]
fn replacing_an_index_does_not_double_count_risk() {
    let mut rep = tracker();
    rep.add_inflight(proposed(true), ForwardOutcome::ForwardOutcomeEndorsed, 0).unwrap();
    rep.add_inflight(proposed(true), ForwardOutcome::ForwardOutcomeEndorsed, 5).unwrap();
    assert_eq!(rep.in_flight_htlc_risk(), 16_000_000);
}

fn resolution(success: bool, settled: u64) -> ResolvedHTLC {
    ResolvedHTLC {
        timestamp_settled: settled,
        incoming_index: 7,
        incoming_channel: 1,
        outgoing_index: 3,
        outgoing_channel: 2,
        success,
    }
}

#[test]
fn resolve_removes_record_and_risk() {
    let mut rep = tracker();
    rep.add_inflight(proposed(true), ForwardOutcome::ForwardOutcomeEndorsed, 0).unwrap();
    let rec = rep.resolve_inflight(resolution(true, 0), 0).unwrap();
    assert_eq!(rec.proposed_htlc, proposed(true));
    assert_eq!(rec.outgoing_decision, ForwardOutcome::ForwardOutcomeEndorsed);
    assert_eq!(rec.timestamp_added, 0);
    // The endorsed record's full outstanding risk is gone with it.
    assert_eq!(rep.in_flight_htlc_risk(), 0);
}

#[test]
fn resolve_unknown_index_fails() {
    let mut rep = tracker();
    let r = rep.resolve_inflight(resolution(true, 0), 0);
    assert_eq!(r.unwrap_err(), ErrReputation::ResolutionNotFound);
}

#[test]
fn instant_endorsed_round_trip_credits_twice_the_fee() {
    // Resolving at the admission instant makes the opportunity cost exactly
    // minus the fee, so the revenue gains fee - (-fee) = 2 * fee.
    let mut rep = tracker();
    rep.add_inflight(proposed(true), ForwardOutcome::ForwardOutcomeEndorsed, 0).unwrap();
    rep.resolve_inflight(resolution(true, 0), 0).unwrap();
    let standing = rep.incoming_reputation(0);
    assert_eq!(standing.incoming_revenue, SignedValue::new(false, 2_000));
    assert_eq!(standing.in_flight_risk, 0);
}

fn in_flight(endorsed: bool, added: u64) -> InFlightHTLC {
    InFlightHTLC {
        timestamp_added: added,
        outgoing_decision: ForwardOutcome::ForwardOutcomeEndorsed,
        proposed_htlc: proposed(endorsed),
    }
}

#[test]
fn effective_fees_endorsed_success_fast() {
    let rep = tracker();
    // rt = 45: opportunity cost -(45 * 1000 / 90) = -500, so 1000 + 500.
    let v = rep.effective_fees(90, 145, &in_flight(true, 100), true);
    assert_eq!(v, SignedValue::new(false, 1_500));
}

#[test]
fn effective_fees_endorsed_success_slow() {
    let rep = tracker();
    // rt = 180: opportunity cost (90 * 1000) / 90 = 1000, so 1000 - 1000.
    let v = rep.effective_fees(90, 280, &in_flight(true, 100), true);
    assert_eq!(v, SignedValue::zero());
}

#[test]
fn effective_fees_endorsed_failure_is_pure_cost() {
    let rep = tracker();
    // rt = 270: opportunity cost (180 * 1000) / 90 = 2000; failure pays it.
    let v = rep.effective_fees(90, 370, &in_flight(true, 100), false);
    assert_eq!(v, SignedValue::new(true, 2_000));
}

#[test]
fn effective_fees_unendorsed_fast_success_earns_fee() {
    let rep = tracker();
    let v = rep.effective_fees(90, 145, &in_flight(false, 100), true);
    assert_eq!(v, SignedValue::new(false, 1_000));
}

#[test]
fn effective_fees_unendorsed_slow_success_earns_nothing() {
    let rep = tracker();
    let v = rep.effective_fees(90, 191, &in_flight(false, 100), true);
    assert_eq!(v, SignedValue::zero());
}

#[test]
fn effective_fees_unendorsed_failure_is_free() {
    let rep = tracker();
    let v = rep.effective_fees(90, 370, &in_flight(false, 100), false);
    assert_eq!(v, SignedValue::zero());
}
