use zound::calibration::lag_to_micros;
use zound::core_types::DeviceId;
use zound::guard::{ENGINE_NOT_STARTED, ERR_FEEDBACK_LOOP};
use zound::pipeline::{
    adapt_channels_into, apply_compensation_delta, apply_frame_stretch, check_add_output,
    check_test_signal, compensation_target_samples, deinterleave, fill_planar_input,
    interleave_planar, locate_device,
};

fn average(a: f32, b: f32) -> f32 {
    (a + b) * 0.5
}

fn stretch_delta(frames: usize, correction: f32) -> i32 {
    (frames as f32 * correction).round() as i32
}

fn drift_stretch(buf: &mut Vec<f32>, channels: usize, correction: f32) {
    if channels == 0 || buf.is_empty() {
        return;
    }
    let delta = stretch_delta(buf.len() / channels, correction);
    apply_frame_stretch(buf, channels, delta);
}

#[test]
fn channel_adapt_stereo_to_mono_averages() {
    let src = vec![1.0, -1.0, 0.5, 0.5];
    let mut out = Vec::new();
    adapt_channels_into(&src, 2, 1, &mut out, average);
    assert_eq!(out, vec![0.0, 0.5]);
}

#[test]
fn channel_adapt_mono_to_stereo_duplicates() {
    let src = vec![0.3, -0.4];
    let mut out = Vec::new();
    adapt_channels_into(&src, 1, 2, &mut out, average);
    assert_eq!(out, vec![0.3, 0.3, -0.4, -0.4]);
}

#[test]
fn channel_adapt_same_count_passthrough() {
    let src = vec![0.1, 0.2, 0.3, 0.4];
    let mut out = Vec::new();
    adapt_channels_into(&src, 2, 2, &mut out, average);
    assert_eq!(out, src);
}

#[test]
fn channel_adapt_stereo_to_quad_repeats_last_channel() {
    let src = vec![1, 2, 3, 4];
    let mut out = vec![9, 9];
    adapt_channels_into(&src, 2, 4, &mut out, |a: i32, _b: i32| a);
    assert_eq!(out, vec![1, 2, 2, 2, 3, 4, 4, 4]);
}

#[test]
fn drift_stretch_zero_correction_is_noop() {
    let mut buf = vec![0.1, 0.2, 0.3, 0.4];
    let original = buf.clone();
    drift_stretch(&mut buf, 2, 0.0);
    assert_eq!(buf, original);
}

#[test]
fn drift_stretch_positive_inserts_frames() {
    let mut buf = vec![1.0; 200];
    drift_stretch(&mut buf, 2, 0.05);
    assert_eq!(buf.len(), 210);
}

#[test]
fn drift_stretch_negative_drops_frames() {
    let mut buf = vec![1.0; 200];
    drift_stretch(&mut buf, 2, -0.05);
    assert_eq!(buf.len(), 190);
}

#[test]
fn frame_stretch_repeats_last_frame_and_caps() {
    let mut buf = vec![1, 2, 3, 4];
    apply_frame_stretch(&mut buf, 2, 1);
    assert_eq!(buf, vec![1, 2, 3, 4, 3, 4]);
    let mut buf = vec![1, 2, 3, 4];
    apply_frame_stretch(&mut buf, 2, 10);
    assert_eq!(buf, vec![1, 2, 3, 4, 3, 4, 3, 4]);
    let mut buf = vec![1, 2, 3, 4, 5, 6];
    apply_frame_stretch(&mut buf, 2, -10);
    assert_eq!(buf, vec![1, 2]);
    let mut buf: Vec<i32> = Vec::new();
    apply_frame_stretch(&mut buf, 2, 3);
    assert!(buf.is_empty());
}

#[test]
fn lag_micros_conversion() {
    assert_eq!(lag_to_micros(480, 48000), 10_000);
    assert_eq!(lag_to_micros(480, 0), 0);
    assert_eq!(lag_to_micros(1, 48000), 20);
}

#[test]
fn compensation_targets() {
    // 20 ms at 48 kHz stereo.
    assert_eq!(compensation_target_samples(20_000_000, 48_000, 2), 1920);
    assert_eq!(compensation_target_samples(0, 48_000, 2), 0);
    // 1 ms at 44.1 kHz mono: 44.1 rounds to 44.
    assert_eq!(compensation_target_samples(1_000_000, 44_100, 1), 44);
    // 1.5 samples round up to 2, then down to whole stereo frames.
    assert_eq!(compensation_target_samples(1_500_000_000, 1, 1), 2);
    assert_eq!(compensation_target_samples(1_500_000_000, 1, 2), 2);
    // 0 channels counts as one.
    assert_eq!(compensation_target_samples(1_000_000_000, 3, 0), 0);
}

#[test]
fn compensation_inserts_silence_then_drops() {
    let mut buf = vec![1, 2, 3, 4, 5, 6, 7, 8];
    let mut applied: i64 = 0;
    apply_compensation_delta(&mut buf, &mut applied, 2, 2, 0);
    assert_eq!(applied, 2);
    assert_eq!(buf, vec![0, 0, 1, 2, 3, 4, 5, 6, 7, 8]);

    // Capped at half the buffer per pass.
    let mut buf = vec![1, 2, 3, 4, 5, 6, 7, 8];
    let mut applied: i64 = 0;
    apply_compensation_delta(&mut buf, &mut applied, 100, 2, 0);
    assert_eq!(applied, 4);
    assert_eq!(buf.len(), 12);

    // Target lowered: samples are dropped from the start.
    let mut buf = vec![1, 2, 3, 4, 5, 6, 7, 8];
    let mut applied: i64 = 10;
    apply_compensation_delta(&mut buf, &mut applied, 8, 2, 0);
    assert_eq!(applied, 8);
    assert_eq!(buf, vec![3, 4, 5, 6, 7, 8]);

    // At target: nothing changes.
    let mut buf = vec![1, 2];
    let mut applied: i64 = 4;
    apply_compensation_delta(&mut buf, &mut applied, 4, 2, 0);
    assert_eq!(applied, 4);
    assert_eq!(buf, vec![1, 2]);
}

#[test]
fn deinterleave_splits_channels() {
    let src = vec![1, 10, 2, 20, 3, 30, 4];
    let mut dst = vec![vec![0; 4], vec![0; 3], vec![7]];
    deinterleave(&src, 2, &mut dst);
    assert_eq!(dst, vec![vec![1, 2, 3, 0], vec![10, 20, 30], vec![7]]);
}

#[test]
fn worker_checks() {
    assert_eq!(check_add_output(None, "Speakers"), Err(ENGINE_NOT_STARTED.to_string()));
    assert_eq!(check_add_output(Some("Speakers"), "Speakers"), Err(ERR_FEEDBACK_LOOP.to_string()));
    assert_eq!(check_add_output(Some("Speakers"), "Kitchen"), Ok(()));

    let playing = vec!["Kitchen".to_string()];
    assert_eq!(
        check_test_signal(Some("Speakers"), &playing, "Kitchen"),
        Err("test already playing on Kitchen".to_string())
    );
    assert_eq!(
        check_test_signal(Some("Speakers"), &playing, "Speakers"),
        Err(ERR_FEEDBACK_LOOP.to_string())
    );
    assert_eq!(check_test_signal(None, &playing, "Hall"), Ok(()));

    let ids = vec![DeviceId("a".to_string()), DeviceId("b".to_string())];
    assert_eq!(locate_device(&ids, &DeviceId("b".to_string())), Ok(1));
    assert_eq!(
        locate_device(&ids, &DeviceId("zz".to_string())),
        Err("device not found: zz".to_string())
    );
}

#[test]
fn planar_input_repeats_last_capture_channel() {
    let planar_src = vec![vec![1, 2, 3], vec![10, 20, 30]];
    let mut input = vec![vec![0; 3], vec![0; 3], vec![0, 0, 0, 9]];
    fill_planar_input(&planar_src, 2, 2, &mut input);
    assert_eq!(input, vec![vec![1, 2, 0], vec![10, 20, 0], vec![10, 20, 0, 9]]);
}

#[test]
fn planar_output_is_interleaved() {
    let planar = vec![vec![1, 2, 3], vec![10, 20, 30]];
    let mut out = vec![7];
    interleave_planar(&planar, 2, 2, &mut out);
    assert_eq!(out, vec![1, 10, 2, 20]);
    interleave_planar(&planar, 2, 3, &mut out);
    assert_eq!(out, vec![1, 10, 10, 2, 20, 20]);
    interleave_planar(&planar, 3, 1, &mut out);
    assert_eq!(out, vec![1, 2, 3]);
}
