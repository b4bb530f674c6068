use steam_analyzer::keyed::KeyedQuota;
use steam_analyzer::quota::{QuotaBucket, QuotaConfig, CLIENT_CAPACITY, UPSTREAM_CAPACITY};

#[test]
fn upstream_gate_delays_beyond_capacity_never_drops() {
    let mut b = QuotaBucket::new(QuotaConfig::upstream());
    for _ in 0..UPSTREAM_CAPACITY {
        assert_eq!(b.reserve(0), Some(0));
    }
    // The 191st and later calls in the window wait for it to reopen.
    assert_eq!(b.reserve(0), Some(300_000));
    assert_eq!(b.reserve(10), Some(299_990));
    assert_eq!(b.reserve(299_000), Some(1_000));
}

#[test]
fn reserve_waits_until_oldest_of_window_expires() {
    let mut b = QuotaBucket::new(QuotaConfig { window_ms: 1_000, capacity: 2 });
    assert_eq!(b.reserve(0), Some(0));
    assert_eq!(b.reserve(100), Some(0));
    assert_eq!(b.reserve(200), Some(800));
    // The slot granted at 1000 keeps later calls behind it.
    assert_eq!(b.reserve(300), Some(800));
    assert_eq!(b.reserve(5_000), Some(0));
}

#[test]
fn reserve_beyond_clock_range_is_refused() {
    let mut b = QuotaBucket::new(QuotaConfig { window_ms: 10, capacity: 1 });
    assert_eq!(b.reserve(u64::MAX - 5), Some(0));
    assert_eq!(b.reserve(u64::MAX - 5), None);
}

#[test]
fn try_admit_refuses_without_waiting() {
    let mut b = QuotaBucket::new(QuotaConfig { window_ms: 1_000, capacity: 2 });
    assert!(b.try_admit(0));
    assert!(b.try_admit(10));
    assert!(!b.try_admit(20));
    assert!(!b.try_admit(999));
    assert!(b.try_admit(1_000));
    assert!(!b.try_admit(1_009));
    assert!(b.try_admit(1_010));
}

#[test]
fn client_calls_beyond_thirtieth_in_a_minute_are_denied() {
    let mut q = KeyedQuota::new(QuotaConfig::per_client());
    let client: u128 = 0x7f00_0001;
    for i in 0..CLIENT_CAPACITY {
        assert!(q.check_key(client, i * 100));
    }
    assert!(!q.check_key(client, 3_000));
    assert!(!q.check_key(client, 59_999));
    // Another client has its own bucket.
    assert!(q.check_key(client + 1, 3_000));
    // A minute after the first call, room opens again.
    assert!(q.check_key(client, 60_000));
    assert!(!q.check_key(client, 60_050));
}
