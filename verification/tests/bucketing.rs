use htlc_reputation::interface::ResourceBucketer;
use htlc_reputation::resource_bucketing::{BucketResourceManager, ErrBucketing};

#[test]
fn test_bucket_resource_manager() {
    let bucket_resource_manager_one = BucketResourceManager::new(100_000, 300, 50);
    assert_eq!(bucket_resource_manager_one.is_ok(), true);
    let bucket_resource_manager_two = BucketResourceManager::new(100_000, 500, 50);
    assert_eq!(bucket_resource_manager_two.is_err(), true);
}

#[test]
fn test_bucket_resource_manager_update_htlc() {
    let mut bucket_resource_manager = BucketResourceManager::new(100_000, 300, 50).unwrap();

    bucket_resource_manager.add_htlc(false, 5_000);
    let ret = bucket_resource_manager.remove_htlc(false, 5_000);
    assert_eq!(ret.is_ok(), true);
}

#[test]
fn under_capacity_admit_and_release() {
    let mut bucket = BucketResourceManager::new(100_000, 300, 50).unwrap();
    assert_eq!(bucket.general_totals(), (50_000, 150));

    assert_eq!(bucket.add_htlc(false, 5_000), true);
    assert_eq!(bucket.in_flight_totals(), (5_000, 1));

    assert!(bucket.remove_htlc(false, 5_000).is_ok());
    assert_eq!(bucket.in_flight_totals(), (0, 0));
}

#[test]
fn protected_admit_leaves_counters_untouched() {
    let mut bucket = BucketResourceManager::new(100_000, 300, 50).unwrap();
    assert_eq!(bucket.add_htlc(true, 40_000), true);
    assert_eq!(bucket.in_flight_totals(), (0, 0));
    assert!(bucket.remove_htlc(true, 40_000).is_ok());
    assert_eq!(bucket.in_flight_totals(), (0, 0));
}

#[test]
fn general_admission_respects_caps() {
    // 50% protected of (10_000, 4) leaves a general pool of (5_000, 2).
    let mut bucket = BucketResourceManager::new(10_000, 4, 50).unwrap();
    assert_eq!(bucket.add_htlc(false, 6_000), false);
    assert_eq!(bucket.in_flight_totals(), (0, 0));
    assert_eq!(bucket.add_htlc(false, 2_000), true);
    assert_eq!(bucket.add_htlc(false, 2_000), true);
    // Slots are exhausted even though liquidity remains.
    assert_eq!(bucket.add_htlc(false, 500), false);
    assert_eq!(bucket.in_flight_totals(), (4_000, 2));
}

#[test]
fn config_rejection_protocol_limits() {
    let r = BucketResourceManager::new(100_000, 500, 50);
    assert_eq!(r.unwrap_err(), ErrBucketing::ProtocolLimits);
}

#[test]
fn config_rejection_protected_percentage() {
    let r = BucketResourceManager::new(100_000, 100, 101);
    assert_eq!(r.unwrap_err(), ErrBucketing::ProtectedPercentage);
}

#[test]
fn release_without_liquidity_fails() {
    let mut bucket = BucketResourceManager::new(100_000, 300, 50).unwrap();
    let r = bucket.remove_htlc(false, 1);
    assert_eq!(r.unwrap_err(), ErrBucketing::NoInFlightLiquidity);
}

#[test]
fn release_without_slots_fails() {
    let mut bucket = BucketResourceManager::new(100_000, 300, 50).unwrap();
    let r = bucket.remove_htlc(false, 0);
    assert_eq!(r.unwrap_err(), ErrBucketing::NoHTLCSlotsOccupied);
}
