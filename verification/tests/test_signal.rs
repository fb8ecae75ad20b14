use zound::guard::CommandErrorKind;
use zound::test_signal::{parse_test_kind, SignalTiming, TestKind, TestSchedule, TestStep, CLICK_REPEATS};

fn timing() -> SignalTiming {
    SignalTiming { click_total: 2, ramp_samples: 1, click_interval: 3, sine_total: 4, sine_fade: 1 }
}

#[test]
fn test_kinds_are_parsed() {
    assert_eq!(parse_test_kind("click", None).unwrap(), TestKind::Click);
    assert_eq!(parse_test_kind("sine", Some(90)).unwrap(), TestKind::Sine1kHz);
    assert_eq!(parse_test_kind("metronome", None).unwrap(), TestKind::Metronome { bpm: 120 });
    assert_eq!(parse_test_kind("metronome", Some(10)).unwrap(), TestKind::Metronome { bpm: 40 });
    assert_eq!(parse_test_kind("metronome", Some(999)).unwrap(), TestKind::Metronome { bpm: 240 });
    let e = parse_test_kind("noise", None).unwrap_err();
    assert_eq!(e.kind(), CommandErrorKind::BadRequest);
    assert_eq!(e.message(), "unknown test kind: noise");
}

#[test]
fn click_series_plays_five_clicks_then_stops() {
    let mut s = TestSchedule::new(TestKind::Click, 48_000, timing());
    let mut starts = 0;
    let mut frames = 0;
    while !s.is_done() {
        if let TestStep::Click { pos: 0, total, ramp } = s.advance() {
            assert_eq!((total, ramp), (2, 1));
            starts += 1;
        }
        frames += 1;
        assert!(frames < 1000);
    }
    assert_eq!(starts, CLICK_REPEATS);
    // Each click: 2 frames of click, then 2 silent frames before the next.
    assert_eq!(frames, 20);
    assert_eq!(s.advance(), TestStep::Silence);
}

#[test]
fn click_steps_in_order() {
    let mut s = TestSchedule::new(TestKind::Click, 48_000, timing());
    let steps: Vec<TestStep> = (0..5).map(|_| s.advance()).collect();
    assert_eq!(
        steps,
        vec![
            TestStep::Click { pos: 0, total: 2, ramp: 1 },
            TestStep::Click { pos: 1, total: 2, ramp: 1 },
            TestStep::Silence,
            TestStep::Silence,
            TestStep::Click { pos: 0, total: 2, ramp: 1 },
        ]
    );
}

#[test]
fn tone_plays_its_length_then_stops() {
    let mut s = TestSchedule::new(TestKind::Sine1kHz, 48_000, timing());
    for i in 0..4u64 {
        assert_eq!(s.advance(), TestStep::Sine { pos: i, total: 4, fade: 1 });
        assert!(!s.is_done());
    }
    assert_eq!(s.advance(), TestStep::Silence);
    assert!(s.is_done());
}

#[test]
fn metronome_beats_at_its_interval_until_stopped() {
    // 4 samples per second at 60 bpm: one beat every 4 samples after a click.
    let mut s = TestSchedule::new(TestKind::Metronome { bpm: 60 }, 4, timing());
    assert_eq!(s.samples_to_next_click, 4);
    let mut starts = Vec::new();
    for f in 0..40 {
        if let TestStep::Click { pos: 0, .. } = s.advance() {
            starts.push(f);
        }
    }
    assert!(!s.is_done());
    assert_eq!(starts, vec![0, 5, 10, 15, 20, 25, 30, 35]);
    s.stop();
    assert!(s.is_done());
    assert_eq!(s.advance(), TestStep::Silence);
}

#[test]
fn metronome_needs_a_beat_interval_in_32_bits() {
    assert!(TestSchedule::fits(TestKind::Metronome { bpm: 60 }, 48_000));
    assert!(!TestSchedule::fits(TestKind::Metronome { bpm: 60 }, u32::MAX / 60 + 1));
    assert!(TestSchedule::fits(TestKind::Click, u32::MAX));
    assert!(TestSchedule::fits(TestKind::Sine1kHz, u32::MAX));
}
