use zound::core_types::{DeviceId, Error};
use zound::engine::EngineState;
use zound::guard::{ENGINE_NOT_STARTED, ERR_FEEDBACK_LOOP};
use zound::output::UNITY_GAIN_BITS;
use zound::sync::{latency_from_millis, MIN_SAFETY_MARGIN};
use zound::worker::{WorkerAction, WorkerCommand};

fn id(s: &str) -> DeviceId {
    DeviceId::from_str(s)
}

fn names(engine: &EngineState) -> Vec<String> {
    engine.active_outputs().into_iter().map(|d| d.0).collect()
}

#[test]
fn audio_engine_spawn_drop_cycle() {
    for _ in 0..5 {
        let engine = EngineState::new();
        assert!(engine.active_outputs().is_empty());
        assert!(!engine.is_running());
        drop(engine);
    }
}

#[test]
fn audio_engine_handles_remove_of_unknown_device() {
    let mut engine = EngineState::new();
    engine.output_removed(&id("ghost"));
    assert!(engine.active_outputs().is_empty());
    assert_eq!(engine.outputs().count(), 0);
}

#[test]
fn set_volume_on_unknown_device_is_refused_and_changes_nothing() {
    let mut engine = EngineState::new();
    engine.capture_started("Speakers".to_string());
    engine.output_opened(id("Kitchen"), latency_from_millis(20), 48_000);
    match engine.decide(WorkerCommand::SetVolume { id: id("nope") }) {
        WorkerAction::ReplyErr(e) => assert_eq!(e, "device not found: nope"),
        other => panic!("expected a refusal, got {other:?}"),
    }
    assert_eq!(names(&engine), vec!["Kitchen"]);
    assert_eq!(engine.outputs().count(), 1);
    assert_eq!(engine.sync().device_count(), 1);
    // The worker goes on with the next command.
    assert!(matches!(engine.decide(WorkerCommand::SetVolume { id: id("Kitchen") }), WorkerAction::ApplyToOutput { index: 0 }));
}

#[test]
fn outputs_need_capture_and_not_the_source() {
    let mut engine = EngineState::new();
    assert_eq!(engine.check_add_output("Kitchen"), Err(ENGINE_NOT_STARTED.to_string()));
    engine.capture_started("Speakers".to_string());
    assert!(engine.is_running());
    assert_eq!(engine.loopback_source(), Some("Speakers".to_string()));
    assert_eq!(engine.check_add_output("Speakers"), Err(ERR_FEEDBACK_LOOP.to_string()));
    assert_eq!(engine.check_add_output("Kitchen"), Ok(()));
}

#[test]
fn registries_follow_outputs() {
    let mut engine = EngineState::new();
    engine.capture_started("Speakers".to_string());
    engine.output_opened(id("Kitchen"), latency_from_millis(50), 48_000);
    engine.output_opened(id("Hall"), latency_from_millis(150), 44_100);
    assert_eq!(names(&engine), vec!["Kitchen", "Hall"]);
    assert_eq!(engine.sync().device_count(), 2);
    assert_eq!(engine.outputs().count(), 2);
    assert_eq!(engine.sync().target_latency(), latency_from_millis(150) + MIN_SAFETY_MARGIN);
    assert_eq!(engine.outputs().state(&id("Kitchen")).unwrap().volume_bits, UNITY_GAIN_BITS);

    assert_eq!(engine.set_muted(&id("Kitchen"), true), Ok(()));
    assert!(engine.outputs().state(&id("Kitchen")).unwrap().muted);

    engine.output_removed(&id("Hall"));
    assert_eq!(names(&engine), vec!["Kitchen"]);
    assert_eq!(engine.sync().target_latency(), latency_from_millis(50) + MIN_SAFETY_MARGIN);

    assert_eq!(engine.set_all_latencies(latency_from_millis(80)), 1);
    assert!(engine.set_device_latency(&id("Kitchen"), latency_from_millis(10)).is_ok());
    match engine.set_device_latency(&id("Hall"), latency_from_millis(10)) {
        Err(Error::DeviceNotFound(m)) => assert_eq!(m, "Hall"),
        _ => panic!("expected DeviceNotFound"),
    }

    engine.capture_stopped();
    assert!(!engine.is_running());
    assert!(engine.active_outputs().is_empty());
    assert_eq!(engine.sync().device_count(), 0);
    assert_eq!(engine.outputs().count(), 0);
}

#[test]
fn test_signals_are_tracked_per_device() {
    let mut engine = EngineState::new();
    engine.capture_started("Speakers".to_string());
    assert_eq!(engine.check_test_signal("Speakers"), Err(ERR_FEEDBACK_LOOP.to_string()));
    assert_eq!(engine.check_test_signal("Kitchen"), Ok(()));
    engine.test_started("Kitchen".to_string());
    assert_eq!(
        engine.check_test_signal("Kitchen"),
        Err("test already playing on Kitchen".to_string())
    );
    engine.test_stopped("Kitchen");
    assert_eq!(engine.check_test_signal("Kitchen"), Ok(()));
}

#[test]
fn master_controls_through_engine() {
    let mut engine = EngineState::new();
    engine.set_master_gain_bits(0.5f32.to_bits());
    engine.set_master_muted(true);
    assert_eq!(engine.outputs().master().gain_bits(), 0.5f32.to_bits());
    assert!(engine.outputs().master().muted());
    assert_eq!(engine.outputs().master().effective_gain_bits(), 0);
}
