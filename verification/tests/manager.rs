use htlc_reputation::decaying_average::{DecayingAverageStart, SignedValue};
use htlc_reputation::interface::{
    ChannelInfo, Endorsement, ForwardOutcome, IncomingReputation, ProposedHTLC, ReputationCheck,
    ResolvedHTLC,
};
use htlc_reputation::reputation_tracker::ReputationTracker;
use htlc_reputation::resource_bucketing::BucketResourceManager;
use htlc_reputation::resource_manager::{
    ErrResourceManager, ManagerConfig, ResourceManager, MAX_MILLI_SATOSHI,
};
use htlc_reputation::target_tracker::TargetChannelTracker;

fn zero_start(now: u64) -> DecayingAverageStart {
    DecayingAverageStart { last_update: now, value: SignedValue::zero() }
}

fn chan_info() -> ChannelInfo {
    ChannelInfo { in_flight_htlc_limit: 300, in_flight_liquidity_limit: 100_000 }
}

fn proposed(endorsed: bool) -> ProposedHTLC {
    ProposedHTLC {
        incoming_channel: 1,
        outgoing_channel: 2,
        incoming_index: 7,
        incoming_endorsed: if endorsed {
            Endorsement::EndorsementTrue
        } else {
            Endorsement::EndorsementFalse
        },
        incoming_amount_msat: 2_000,
        outgoing_amount_msat: 1_000,
        cltv_expiry_delta: 40,
    }
}

fn resolution(success: bool, outgoing_channel: u64) -> ResolvedHTLC {
    ResolvedHTLC {
        timestamp_settled: 0,
        incoming_index: 7,
        incoming_channel: 1,
        outgoing_index: 3,
        outgoing_channel,
        success,
    }
}

fn manager_with_channels() -> ResourceManager<BucketResourceManager> {
    let config = ManagerConfig::default();
    let mut mgr: ResourceManager<BucketResourceManager> = ResourceManager::new(config).unwrap();
    let bucket1 = BucketResourceManager::new(100_000, 300, config.protected_percentage).unwrap();
    let bucket2 = BucketResourceManager::new(100_000, 300, config.protected_percentage).unwrap();
    assert_eq!(mgr.add_channel(1, chan_info(), bucket1, 0).unwrap(), true);
    assert_eq!(mgr.add_channel(2, chan_info(), bucket2, 0).unwrap(), true);
    mgr
}

#[test]
fn test_resource_manager() {
    let manager_config = ManagerConfig::default();
    manager_config.validate();
    manager_config.reputation_window();
}

#[test]
fn default_config_is_valid() {
    let config = ManagerConfig::default();
    assert!(config.validate());
    assert_eq!(config.reputation_window(), 86_400);
}

#[test]
fn config_rejections() {
    let mut config = ManagerConfig::default();
    config.protected_percentage = 101;
    assert!(!config.validate());

    let mut config = ManagerConfig::default();
    config.resolution_period = 0;
    assert!(!config.validate());

    let mut config = ManagerConfig::default();
    config.block_time = 0;
    assert!(!config.validate());

    let r: Result<ResourceManager<BucketResourceManager>, _> = ResourceManager::new(config);
    assert_eq!(r.unwrap_err(), ErrResourceManager::InvalidConfiguration);
}

#[test]
fn registering_a_channel_twice_changes_nothing() {
    let mut mgr = manager_with_channels();
    let bucket = BucketResourceManager::new(100_000, 300, 50).unwrap();
    assert_eq!(mgr.add_channel(1, chan_info(), bucket, 0).unwrap(), false);
}

#[test]
fn forward_rejects_over_limit_amounts() {
    let mut mgr = manager_with_channels();
    let mut big = proposed(true);
    big.outgoing_amount_msat = MAX_MILLI_SATOSHI + 1;
    big.incoming_amount_msat = MAX_MILLI_SATOSHI + 2;
    let r = mgr.forward_htlc(big, chan_info(), 0);
    assert_eq!(r.unwrap_err(), ErrResourceManager::InvalidState);
}

#[test]
fn forward_rejects_unknown_channels() {
    let mut mgr = manager_with_channels();
    let mut stranger = proposed(true);
    stranger.incoming_channel = 99;
    let r = mgr.forward_htlc(stranger, chan_info(), 0);
    assert_eq!(r.unwrap_err(), ErrResourceManager::InvalidState);

    let mut stranger = proposed(true);
    stranger.outgoing_channel = 99;
    let r = mgr.forward_htlc(stranger, chan_info(), 0);
    assert_eq!(r.unwrap_err(), ErrResourceManager::InvalidState);
}

#[test]
fn endorsed_forward_without_reputation_is_unendorsed() {
    // Fresh channels carry no revenue, so the reputation inequality fails
    // and the endorsed HTLC is admitted to the general bucket only.
    let mut mgr = manager_with_channels();
    let d = mgr.forward_htlc(proposed(true), chan_info(), 0).unwrap();
    assert_eq!(d.forward_outcome, ForwardOutcome::ForwardOutcomeUnendorsed);
    assert_eq!(d.reputation_check.htlc_risk, 16_000_000);
    let bucket = &mgr.target_channels.get(&2).unwrap().resource_buckets;
    assert_eq!(bucket.in_flight_totals(), (1_000, 1));
}

#[test]
fn forward_then_resolve_restores_the_bucket() {
    let mut mgr = manager_with_channels();
    mgr.forward_htlc(proposed(true), chan_info(), 0).unwrap();
    let rec = mgr.resolve_htlc(resolution(true, 2), 0).unwrap();
    assert_eq!(rec.proposed_htlc, proposed(true));
    // Net bucket counter delta over the completed pair is zero.
    let bucket = &mgr.target_channels.get(&2).unwrap().resource_buckets;
    assert_eq!(bucket.in_flight_totals(), (0, 0));
    // The instant endorsed round trip credits twice the fee incoming, and
    // the plain fee outgoing.
    let incoming = mgr.channel_reputation.get(&1).unwrap();
    assert_eq!(incoming.revenue.value, SignedValue::new(false, 2_000));
    let outgoing = mgr.target_channels.get(&2).unwrap();
    assert_eq!(outgoing.revenue.value, SignedValue::new(false, 1_000));
}

#[test]
fn cross_channel_resolve_mismatch_fails() {
    let mut mgr = manager_with_channels();
    mgr.forward_htlc(proposed(true), chan_info(), 0).unwrap();
    let r = mgr.resolve_htlc(resolution(true, 3), 0);
    assert_eq!(r.unwrap_err(), ErrResourceManager::InvalidState);
    // The in-flight record is still there and resolves fine afterwards.
    assert!(mgr.resolve_htlc(resolution(true, 2), 0).is_ok());
}

#[test]
fn exhausted_bucket_denies_resources() {
    let config = ManagerConfig::default();
    let mut mgr: ResourceManager<BucketResourceManager> = ResourceManager::new(config).unwrap();
    // 50% protected of (1_000, 4) leaves a tiny general pool of (500, 2).
    let bucket1 = BucketResourceManager::new(1_000, 4, config.protected_percentage).unwrap();
    let bucket2 = BucketResourceManager::new(1_000, 4, config.protected_percentage).unwrap();
    mgr.add_channel(1, chan_info(), bucket1, 0).unwrap();
    mgr.add_channel(2, chan_info(), bucket2, 0).unwrap();

    let mut small = proposed(true);
    small.outgoing_amount_msat = 600;
    small.incoming_amount_msat = 700;
    let d = mgr.forward_htlc(small, chan_info(), 0).unwrap();
    assert_eq!(d.forward_outcome, ForwardOutcome::ForwardOutcomeNoResources);

    // A denied HTLC is still recorded incoming, but resolving it is an
    // invalid state, and the record stays put.
    let r = mgr.resolve_htlc(resolution(true, 2), 0);
    assert_eq!(r.unwrap_err(), ErrResourceManager::InvalidState);
    let incoming = mgr.channel_reputation.get(&1).unwrap();
    assert_eq!(incoming.in_flight_htlcs.len(), 1);
}

#[test]
fn missing_resolution_fails() {
    let mut mgr = manager_with_channels();
    let r = mgr.resolve_htlc(resolution(true, 2), 0);
    assert_eq!(r.unwrap_err(), ErrResourceManager::ResolutionNotFound);
}

#[test]
fn manager_sufficient_reputation_builds_the_check() {
    let mut mgr = manager_with_channels();
    let check = mgr.sufficient_reputation(proposed(true), SignedValue::zero(), 0).unwrap();
    assert_eq!(check.htlc_risk, 16_000_000);
    assert_eq!(check.incoming_reputation.incoming_revenue, SignedValue::zero());
    assert!(!check.sufficient_reputation());
}

#[test]
fn reputation_inequality_thresholds() {
    // With risk 16_000_000 at stake, a million of revenue is not enough and
    // a hundred million is: the classification follows the scalars alone.
    let mut check = ReputationCheck {
        incoming_reputation: IncomingReputation {
            incoming_revenue: SignedValue::new(false, 1_000_000),
            in_flight_risk: 0,
        },
        outgoing_revenue: SignedValue::zero(),
        htlc_risk: 16_000_000,
    };
    assert!(!check.sufficient_reputation());
    check.incoming_reputation.incoming_revenue = SignedValue::new(false, 100_000_000);
    assert!(check.sufficient_reputation());
    // Ties fail: strict inequality.
    check.incoming_reputation.incoming_revenue = SignedValue::new(false, 16_000_000);
    assert!(!check.sufficient_reputation());
}

#[test]
fn test_target_channel_tracker() {
    let manager_config = ManagerConfig::default();
    let chan_info = ChannelInfo { in_flight_htlc_limit: 200, in_flight_liquidity_limit: 100_000 };

    let bucket_resource_manager = BucketResourceManager::new(
        chan_info.in_flight_liquidity_limit,
        chan_info.in_flight_htlc_limit,
        manager_config.protected_percentage,
    );

    let decaying_average_start = zero_start(0);

    let target_channel_tracker = TargetChannelTracker::new(
        manager_config,
        chan_info,
        decaying_average_start,
        bucket_resource_manager.unwrap(),
        0,
    );
    assert!(target_channel_tracker.is_ok());
}

#[test]
fn overwhelming_reputation_earns_endorsement() {
    // An incoming link with enough accrued revenue clears the bar: the HTLC
    // goes to the protected tier and the general counters stay untouched.
    let config = ManagerConfig::default();
    let bucket = BucketResourceManager::new(100_000, 300, config.protected_percentage).unwrap();
    let mut tgt =
        TargetChannelTracker::new(config, chan_info(), zero_start(0), bucket, 0).unwrap();
    let mut rep = ReputationTracker::new(
        86_400,
        600,
        90,
        DecayingAverageStart { last_update: 0, value: SignedValue::new(false, 100_000_000) },
        0,
    );
    let standing = rep.incoming_reputation(0);
    let d = tgt.add_inflight(standing, proposed(true), 0).unwrap();
    assert_eq!(d.forward_outcome, ForwardOutcome::ForwardOutcomeEndorsed);
    assert_eq!(tgt.resource_buckets.in_flight_totals(), (0, 0));
}

#[test]
fn insufficient_reputation_stays_unendorsed() {
    let config = ManagerConfig::default();
    let bucket = BucketResourceManager::new(100_000, 300, config.protected_percentage).unwrap();
    let mut tgt =
        TargetChannelTracker::new(config, chan_info(), zero_start(0), bucket, 0).unwrap();
    let standing = IncomingReputation {
        incoming_revenue: SignedValue::new(false, 1_000_000),
        in_flight_risk: 0,
    };
    let d = tgt.add_inflight(standing, proposed(true), 0).unwrap();
    assert_eq!(d.forward_outcome, ForwardOutcome::ForwardOutcomeUnendorsed);
    assert_eq!(tgt.resource_buckets.in_flight_totals(), (1_000, 1));
}
