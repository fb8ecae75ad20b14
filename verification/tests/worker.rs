use zound::core_types::DeviceId;
use zound::engine::EngineState;
use zound::guard::{ENGINE_NOT_STARTED, ERR_FEEDBACK_LOOP};
use zound::sync::latency_from_millis;
use zound::worker::{WorkerAction, WorkerCommand};

fn id(s: &str) -> DeviceId {
    DeviceId::from_str(s)
}

fn err_text(a: WorkerAction) -> String {
    match a {
        WorkerAction::ReplyErr(e) => e,
        other => panic!("expected a refusal, got {other:?}"),
    }
}

#[test]
fn start_opens_capture_once() {
    let mut st = EngineState::new();
    assert!(matches!(st.decide(WorkerCommand::Start), WorkerAction::OpenCapture));
    st.capture_started("Speakers".to_string());
    assert!(matches!(st.decide(WorkerCommand::Start), WorkerAction::ReplyOk));
}

#[test]
fn add_output_is_checked_before_opening() {
    let mut st = EngineState::new();
    let r = st.decide(WorkerCommand::AddOutput { device_name: "Kitchen".into() });
    assert_eq!(err_text(r), ENGINE_NOT_STARTED);
    st.capture_started("Speakers".to_string());
    let r = st.decide(WorkerCommand::AddOutput { device_name: "Speakers".into() });
    assert_eq!(err_text(r), ERR_FEEDBACK_LOOP);
    match st.decide(WorkerCommand::AddOutput { device_name: "Kitchen".into() }) {
        WorkerAction::OpenOutput { device_name, intrinsic_latency } => {
            assert_eq!(device_name, "Kitchen");
            assert_eq!(intrinsic_latency, latency_from_millis(20));
        }
        other => panic!("expected OpenOutput, got {other:?}"),
    }
    // Nothing is registered until the stream has opened.
    assert!(st.active_outputs().is_empty());
}

#[test]
fn settings_go_to_the_first_stream_of_the_device() {
    let mut st = EngineState::new();
    st.capture_started("Speakers".to_string());
    st.output_opened(id("Kitchen"), latency_from_millis(20), 48_000);
    st.output_opened(id("Hall"), latency_from_millis(20), 48_000);
    assert!(matches!(st.decide(WorkerCommand::SetVolume { id: id("Hall") }), WorkerAction::ApplyToOutput { index: 1 }));
    assert!(matches!(st.decide(WorkerCommand::SetEq { id: id("Kitchen") }), WorkerAction::ApplyToOutput { index: 0 }));
    assert_eq!(err_text(st.decide(WorkerCommand::SetBalance { id: id("Attic") })), "device not found: Attic");
    assert!(matches!(
        st.decide(WorkerCommand::SetMuted { id: id("Hall"), muted: true }),
        WorkerAction::ApplyToOutput { index: 1 }
    ));
    assert!(st.outputs().state(&id("Hall")).unwrap().muted);
    assert_eq!(err_text(st.decide(WorkerCommand::SetMuted { id: id("Attic"), muted: true })), "device not found: Attic");
}

#[test]
fn remove_and_stop_update_the_registries() {
    let mut st = EngineState::new();
    st.capture_started("Speakers".to_string());
    st.output_opened(id("Kitchen"), latency_from_millis(20), 48_000);
    match st.decide(WorkerCommand::RemoveOutput { id: id("Kitchen") }) {
        WorkerAction::CloseOutput { id } => assert_eq!(id.0, "Kitchen"),
        other => panic!("expected CloseOutput, got {other:?}"),
    }
    assert!(st.active_outputs().is_empty());
    assert_eq!(st.sync().device_count(), 0);
    st.output_opened(id("Hall"), latency_from_millis(20), 48_000);
    assert!(matches!(st.decide(WorkerCommand::StopCapture), WorkerAction::CloseAll));
    assert!(!st.is_running());
    assert_eq!(st.outputs().count(), 0);
}

#[test]
fn master_controls_and_test_signals() {
    let mut st = EngineState::new();
    assert!(matches!(st.decide(WorkerCommand::SetMasterGain { gain_bits: 0.25f32.to_bits() }), WorkerAction::ReplyOk));
    assert!(matches!(st.decide(WorkerCommand::SetMasterMuted { muted: true }), WorkerAction::ReplyOk));
    assert_eq!(st.outputs().master().gain_bits(), 0.25f32.to_bits());
    assert!(st.outputs().master().muted());

    st.capture_started("Speakers".to_string());
    assert_eq!(err_text(st.decide(WorkerCommand::PlayTestSignal { device_name: "Speakers".into() })), ERR_FEEDBACK_LOOP);
    assert!(matches!(
        st.decide(WorkerCommand::PlayTestSignal { device_name: "Kitchen".into() }),
        WorkerAction::StartTest { .. }
    ));
    st.test_started("Kitchen".to_string());
    assert_eq!(
        err_text(st.decide(WorkerCommand::PlayTestSignal { device_name: "Kitchen".into() })),
        "test already playing on Kitchen"
    );
    assert!(matches!(
        st.decide(WorkerCommand::StopTestSignal { device_name: "Kitchen".into() }),
        WorkerAction::StopTest { .. }
    ));
    assert!(matches!(
        st.decide(WorkerCommand::PlayTestSignal { device_name: "Kitchen".into() }),
        WorkerAction::StartTest { .. }
    ));
    assert!(matches!(st.decide(WorkerCommand::Shutdown), WorkerAction::Exit));
}
