use std::time::Duration;

use zound::core_types::{DeviceId, Error};
use zound::sync::{latency_from_millis, latency_to_millis, SyncEngine, MIN_SAFETY_MARGIN};

fn ms(n: u64) -> u128 {
    Duration::from_millis(n).as_nanos()
}

fn id(s: &str) -> DeviceId {
    DeviceId::from_str(s)
}

#[test]
fn compensation_equals_margin_for_slowest_device() {
    let mut eng = SyncEngine::new();
    eng.add_device(id("fast"), ms(50), 48_000);
    eng.add_device(id("slow"), ms(150), 48_000);

    let slow = eng.device_params(&id("slow")).unwrap();
    let fast = eng.device_params(&id("fast")).unwrap();

    assert_eq!(slow.compensation_delay, MIN_SAFETY_MARGIN);
    assert_eq!(fast.compensation_delay, ms(100) + MIN_SAFETY_MARGIN);
    assert_eq!(eng.target_latency(), ms(150) + MIN_SAFETY_MARGIN);
}

#[test]
fn removing_slowest_recalculates_target() {
    let mut eng = SyncEngine::new();
    eng.add_device(id("fast"), ms(30), 48_000);
    eng.add_device(id("slow"), ms(200), 48_000);
    assert_eq!(eng.target_latency(), ms(200) + MIN_SAFETY_MARGIN);

    eng.remove_device(&id("slow"));
    assert_eq!(eng.target_latency(), ms(30) + MIN_SAFETY_MARGIN);
}

#[test]
fn set_latency_unknown_device_errors() {
    let mut eng = SyncEngine::new();
    let err = eng.set_device_latency(&id("ghost"), ms(100));
    assert!(err.is_err());
    match err {
        Err(Error::DeviceNotFound(m)) => assert_eq!(m, "ghost"),
        _ => panic!("expected DeviceNotFound"),
    }
}

#[test]
fn set_all_latencies_applies_to_every_device() {
    let mut eng = SyncEngine::new();
    eng.add_device(id("a"), ms(20), 48_000);
    eng.add_device(id("b"), ms(150), 48_000);
    eng.add_device(id("c"), ms(80), 48_000);

    let n = eng.set_all_latencies(ms(100));
    assert_eq!(n, 3);

    for name in ["a", "b", "c"] {
        let p = eng.device_params(&id(name)).unwrap();
        assert_eq!(p.intrinsic_latency, ms(100));
        assert_eq!(p.compensation_delay, MIN_SAFETY_MARGIN);
    }
    assert_eq!(eng.target_latency(), ms(100) + MIN_SAFETY_MARGIN);
}

#[test]
fn set_all_latencies_on_empty_returns_zero() {
    let mut eng = SyncEngine::new();
    assert_eq!(eng.set_all_latencies(ms(100)), 0);
}

#[test]
fn sync_engine_recalculates_after_set_all() {
    let mut sync = SyncEngine::new();
    for i in 0..5u64 {
        sync.add_device(DeviceId::from_string(format!("d{i}")), ms(i * 30), 48_000);
    }
    let n = sync.set_all_latencies(ms(100));
    assert_eq!(n, 5);
    assert_eq!(latency_to_millis(sync.target_latency()), 120);
}

#[test]
fn new_engine_has_default_target_and_no_devices() {
    let eng = SyncEngine::new();
    assert_eq!(eng.target_latency(), ms(200));
    assert_eq!(eng.device_count(), 0);
    assert!(eng.device_params(&id("x")).is_none());
    let snap = eng.drift_snapshot();
    assert!(snap.in_sync);
    assert_eq!(snap.drift_ms, 0);
    assert_eq!(snap.active_count, 0);
}

#[test]
fn removing_last_device_leaves_margin_target() {
    let mut eng = SyncEngine::new();
    eng.add_device(id("only"), ms(80), 44_100);
    eng.remove_device(&id("only"));
    assert_eq!(eng.device_count(), 0);
    assert_eq!(eng.target_latency(), MIN_SAFETY_MARGIN);
}

#[test]
fn re_adding_a_device_replaces_it() {
    let mut eng = SyncEngine::new();
    eng.add_device(id("a"), ms(10), 48_000);
    eng.add_device(id("a"), ms(90), 44_100);
    assert_eq!(eng.device_count(), 1);
    let p = eng.device_params(&id("a")).unwrap();
    assert_eq!(p.intrinsic_latency, ms(90));
    assert_eq!(p.sample_rate, 44_100);
    assert_eq!(p.compensation_delay, MIN_SAFETY_MARGIN);
}

#[test]
fn every_device_meets_the_target() {
    let mut eng = SyncEngine::new();
    eng.add_device(id("bt"), ms(180), 48_000);
    eng.add_device(id("usb"), ms(12), 48_000);
    eng.add_device(id("hdmi"), ms(45), 48_000);
    eng.set_device_latency(&id("usb"), ms(7)).unwrap();
    let target = eng.target_latency();
    for name in ["bt", "usb", "hdmi"] {
        let p = eng.device_params(&id(name)).unwrap();
        assert_eq!(p.intrinsic_latency + p.compensation_delay, target);
    }
    assert_eq!(target, ms(200));
}

#[test]
fn drift_and_errors_follow_push_times() {
    let mut eng = SyncEngine::new();
    eng.add_device(id("a"), ms(20), 48_000);
    eng.add_device(id("b"), ms(20), 48_000);
    eng.add_device(id("c"), ms(20), 48_000);
    // Only one device pushed: nothing to compare.
    eng.record_push(&id("a"), 1_000_000);
    assert!(eng.per_device_errors().is_empty());
    let snap = eng.drift_snapshot();
    assert_eq!(snap.active_count, 1);
    assert!(snap.in_sync);

    eng.record_push(&id("b"), 1_090_000);
    eng.record_push(&id("c"), 1_030_000);
    let snap = eng.drift_snapshot();
    assert_eq!(snap.active_count, 3);
    assert_eq!(snap.drift_ms, 90);
    assert!(!snap.in_sync);

    let errors = eng.per_device_errors();
    assert_eq!(errors.len(), 3);
    // mean = (1_000_000 + 1_090_000 + 1_030_000) / 3 = 1_040_000
    for (d, e) in errors {
        match d.to_text().as_str() {
            "a" => assert_eq!(e, -40_000),
            "b" => assert_eq!(e, 50_000),
            "c" => assert_eq!(e, -10_000),
            other => panic!("unexpected device {other}"),
        }
    }

    // Unknown devices are ignored.
    eng.record_push(&id("ghost"), 5);
    assert_eq!(eng.device_count(), 3);
}

#[test]
fn drift_at_threshold_is_in_sync() {
    let mut eng = SyncEngine::new();
    eng.add_device(id("a"), ms(20), 48_000);
    eng.add_device(id("b"), ms(20), 48_000);
    eng.record_push(&id("a"), 10_000);
    eng.record_push(&id("b"), 60_999);
    let snap = eng.drift_snapshot();
    assert_eq!(snap.drift_ms, 50);
    assert!(snap.in_sync);
    eng.record_push(&id("b"), 61_000);
    let snap = eng.drift_snapshot();
    assert_eq!(snap.drift_ms, 51);
    assert!(!snap.in_sync);
}

#[test]
fn millis_conversions() {
    assert_eq!(latency_from_millis(20), MIN_SAFETY_MARGIN);
    assert_eq!(latency_from_millis(1), 1_000_000);
    assert_eq!(latency_to_millis(ms(120)), 120);
    assert_eq!(latency_to_millis(1_999_999), 1);
}
