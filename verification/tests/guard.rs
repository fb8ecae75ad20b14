use zound::core_types::{DeviceId, Error, SampleFormat};
use zound::guard::{
    device_not_found_message, is_capture_source, test_already_playing_message, CommandError,
    CommandErrorKind, ERR_FEEDBACK_LOOP,
};

#[test]
fn no_capture_means_anything_is_allowed() {
    assert!(!is_capture_source(None, "Speakers"));
    assert!(!is_capture_source(None, ""));
}

#[test]
fn matches_only_exact_name() {
    assert!(is_capture_source(Some("Speakers"), "Speakers"));
    assert!(!is_capture_source(Some("Speakers"), "Speaker"));
    assert!(!is_capture_source(Some("Speakers"), "speakers"));
    assert!(!is_capture_source(Some("Speakers"), " Speakers"));
}

#[test]
fn from_engine_string_recovers_kinds() {
    assert!(matches!(
        CommandError::from_engine_string(ERR_FEEDBACK_LOOP.into()),
        CommandError::FeedbackBlocked { .. }
    ));
    assert!(matches!(
        CommandError::from_engine_string("device not found: a".into()),
        CommandError::DeviceNotFound { .. }
    ));
    assert!(matches!(
        CommandError::from_engine_string("engine thread gone".into()),
        CommandError::EngineDead { .. }
    ));
    assert!(matches!(
        CommandError::from_engine_string("test already playing on Spkr".into()),
        CommandError::TestAlreadyPlaying { .. }
    ));
    assert!(matches!(
        CommandError::from_engine_string("oops".into()),
        CommandError::Backend { .. }
    ));
}

#[test]
fn engine_string_messages_are_kept() {
    let e = CommandError::from_engine_string("device not found: Kitchen".into());
    assert_eq!(e.kind(), CommandErrorKind::DeviceNotFound);
    assert_eq!(e.message(), "Kitchen");
    let e = CommandError::from_engine_string("test already playing on Spkr".into());
    assert_eq!(e.message(), "test already playing on Spkr");
    let e = CommandError::from_engine_string(ERR_FEEDBACK_LOOP.into());
    assert_eq!(e.message(), ERR_FEEDBACK_LOOP);
    let e = CommandError::from_engine_string("engine not started".into());
    assert_eq!(e.kind(), CommandErrorKind::EngineNotStarted);
    let e = CommandError::from_engine_string("engine died".into());
    assert_eq!(e.kind(), CommandErrorKind::EngineDead);
    let e = CommandError::from_engine_string("engine thread dropped reply".into());
    assert_eq!(e.kind(), CommandErrorKind::EngineDead);
    let e = CommandError::from_engine_string(String::new());
    assert_eq!(e.kind(), CommandErrorKind::Backend);
    assert_eq!(e.message(), "");
}

#[test]
fn built_worker_failures_round_trip() {
    let msg = device_not_found_message(&DeviceId::from_str("Наушники"));
    assert_eq!(msg, "device not found: Наушники");
    let e = CommandError::from_engine_string(msg);
    assert_eq!(e.kind(), CommandErrorKind::DeviceNotFound);
    assert_eq!(e.message(), "Наушники");

    let msg = test_already_playing_message("Spkr");
    assert_eq!(msg, "test already playing on Spkr");
    let e = CommandError::from_engine_string(msg);
    assert_eq!(e.kind(), CommandErrorKind::TestAlreadyPlaying);
}

#[test]
fn constructors_set_kind_and_message() {
    assert_eq!(CommandError::feedback_blocked("x").kind(), CommandErrorKind::FeedbackBlocked);
    assert_eq!(CommandError::device_not_found("x").kind(), CommandErrorKind::DeviceNotFound);
    assert_eq!(CommandError::engine_not_started("x").kind(), CommandErrorKind::EngineNotStarted);
    assert_eq!(CommandError::engine_dead("x").kind(), CommandErrorKind::EngineDead);
    assert_eq!(CommandError::test_already_playing("x").kind(), CommandErrorKind::TestAlreadyPlaying);
    assert_eq!(CommandError::bad_request("x").kind(), CommandErrorKind::BadRequest);
    assert_eq!(CommandError::backend("y").kind(), CommandErrorKind::Backend);
    assert_eq!(CommandError::backend("y").message(), "y");
}

#[test]
fn core_error_texts() {
    assert_eq!(Error::Backend("boom".into()).message(), "audio backend: boom");
    assert_eq!(Error::DeviceNotFound("X".into()).message(), "device not found: X");
    assert_eq!(
        Error::UnsupportedFormat(SampleFormat::U16).message(),
        "unsupported sample format: U16"
    );
    assert_eq!(Error::Overrun.message(), "buffer overrun");
    assert_eq!(Error::Underrun.message(), "buffer underrun");
    assert_eq!(Error::Other("plain".into()).message(), "plain");
    let e = CommandError::from_engine_string(Error::DeviceNotFound("X".into()).message());
    assert_eq!(e.kind(), CommandErrorKind::DeviceNotFound);
    assert_eq!(e.message(), "X");
}

#[test]
fn sample_format_sizes() {
    assert_eq!(SampleFormat::F32.bytes(), 4);
    assert_eq!(SampleFormat::I32.bytes(), 4);
    assert_eq!(SampleFormat::I16.bytes(), 2);
    assert_eq!(SampleFormat::U16.bytes(), 2);
}

#[test]
fn command_errors_display_kind_and_message() {
    assert_eq!(CommandError::device_not_found("m").to_text(), "device not found: m");
    assert_eq!(CommandError::feedback_blocked("x").to_text(), "feedback loop: x");
    assert_eq!(CommandError::engine_not_started("y").to_text(), "engine not started: y");
    assert_eq!(CommandError::engine_dead("z").to_text(), "engine dead: z");
    assert_eq!(CommandError::test_already_playing("t").to_text(), "test already playing: t");
    assert_eq!(CommandError::bad_request("b").to_text(), "bad request: b");
    assert_eq!(CommandError::backend("e").to_text(), "backend error: e");
}
