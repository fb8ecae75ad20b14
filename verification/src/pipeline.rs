//! Sample-buffer bookkeeping of the audio worker: latency compensation,
//! drift stretching, channel layout changes and the checks the worker
//! makes before it acts on a command. Buffers are generic over the sample
//! type; the application runs them on `f32`.

use vstd::prelude::*;
use crate::sync::MAX_DURATION_NANOS;
use crate::core_types::DeviceId;
use crate::guard::{
    device_not_found_message, is_capture_source, test_already_playing_message, ENGINE_NOT_STARTED,
    ERR_FEEDBACK_LOOP, DEVICE_NOT_FOUND_PREFIX, TEST_PLAYING_PREFIX,
};
use crate::text::str_eq;

verus! {

/// Frames the worker handles per pass: 480 at 48 kHz is 10 ms.
pub const WORKER_CHUNK_FRAMES: usize = 480;

/// Nanoseconds per second.
pub const NANOS_PER_SEC: u128 = 1_000_000_000;

/// `x / d` rounded to the nearest integer, halves away from zero, for
/// non-negative `x` and positive `d`.
pub open spec fn div_round(x: int, d: int) -> int {
    (2 * x + d) / (2 * d)
}

/// Number of interleaved samples that a delay of `nanos` makes at
/// `sample_rate` and `channels`, rounded to the nearest sample, saturated
/// at `i64::MAX`, then rounded down to whole frames.
pub open spec fn target_samples_spec(nanos: u128, sample_rate: u32, channels: u16) -> int {
    let exact = div_round(nanos * sample_rate * channels, NANOS_PER_SEC as int);
    let sat = if exact > i64::MAX { i64::MAX as int } else { exact };
    let ch = if channels == 0 { 1int } else { channels as int };
    sat - sat % ch
}

/// Samples of compensation that the device needs for a delay of `nanos`.
pub fn compensation_target_samples(nanos: u128, sample_rate: u32, channels: u16) -> (r: i64)
    requires
        nanos <= MAX_DURATION_NANOS,
    ensures
        r == target_samples_spec(nanos, sample_rate, channels),
        r >= 0,
{
    assert((sample_rate as u128) * (channels as u128) <= 0xffff_ffff * 0xffff) by (nonlinear_arith)
        requires sample_rate <= 0xffff_ffffu32, channels <= 0xffffu16;
    let sc: u128 = (sample_rate as u128) * (channels as u128);
    let q: u128 = nanos / NANOS_PER_SEC;
    let rem: u128 = nanos % NANOS_PER_SEC;
    proof {
        assert(sc <= 0xffff_ffff * 0xffff) by (nonlinear_arith)
            requires sc == (sample_rate as u128) * (channels as u128), sample_rate <= 0xffff_ffffu32, channels <= 0xffffu16;
        assert(q <= 18_446_744_073_709_551_615);
        assert(q * sc <= 18_446_744_073_709_551_615 * (0xffff_ffff * 0xffff)) by (nonlinear_arith)
            requires q <= 18_446_744_073_709_551_615, sc <= 0xffff_ffff * 0xffff;
        assert(rem * sc <= 1_000_000_000 * (0xffff_ffff * 0xffff)) by (nonlinear_arith)
            requires rem < 1_000_000_000, sc <= 0xffff_ffff * 0xffff;
    }
    assert(2 * rem * sc <= 2 * 1_000_000_000 * (0xffff_ffff * 0xffff)) by (nonlinear_arith)
        requires rem < 1_000_000_000, sc <= 0xffff_ffff * 0xffff;
    let whole: u128 = q * sc;
    let frac: u128 = (2 * rem * sc + NANOS_PER_SEC) / (2 * NANOS_PER_SEC);
    let exact: u128 = whole + frac;
    proof {
        let x = nanos * sample_rate * channels;
        assert(nanos == q * NANOS_PER_SEC + rem);
        assert(x == q * sc * NANOS_PER_SEC + rem * sc) by (nonlinear_arith)
            requires x == nanos * sample_rate * channels, nanos == q * NANOS_PER_SEC + rem,
                sc == sample_rate * channels;
        assert((2 * x + NANOS_PER_SEC) == (q * sc) * (2 * NANOS_PER_SEC) + (2 * rem * sc + NANOS_PER_SEC)) by (nonlinear_arith)
            requires x == q * sc * NANOS_PER_SEC + rem * sc;
        let y = (2 * rem * sc + NANOS_PER_SEC) as int;
        let dd = (2 * NANOS_PER_SEC) as int;
        let f = y / dd;
        let r2 = y % dd;
        assert(y == f * dd + r2 && 0 <= r2 < dd) by (nonlinear_arith)
            requires f == y / dd, r2 == y % dd, dd > 0;
        assert(2 * x + NANOS_PER_SEC == ((q * sc) as int + f) * dd + r2) by (nonlinear_arith)
            requires (2 * x + NANOS_PER_SEC) == (q * sc) * dd + y, y == f * dd + r2;
        vstd::arithmetic::div_mod::lemma_fundamental_div_mod_converse(
            2 * x + NANOS_PER_SEC,
            dd,
            (q * sc) as int + f,
            r2,
        );
        assert(frac == f);
        assert(exact as int == div_round(x, NANOS_PER_SEC as int));
    }
    let sat: i64 = if exact > (i64::MAX as u128) {
        i64::MAX
    } else {
        exact as i64
    };
    let ch: i64 = if channels == 0 {
        1
    } else {
        channels as i64
    };
    proof {
        let a = sat as int;
        let c = ch as int;
        assert(a % c <= a) by (nonlinear_arith)
            requires a >= 0, c > 0;
    }
    sat - sat % ch
}

/// The largest compensation change applied in one pass over a buffer of
/// `len` samples: half the buffer in whole frames, at least one frame.
pub open spec fn max_step_spec(len: int, ch: int) -> int {
    let half = len / 2 / ch * ch;
    if half > ch { half } else { ch }
}

/// The change of applied compensation in one pass: the remaining
/// difference, capped to `max_step_spec` either way.
pub open spec fn compensation_step_spec(len: int, ch: int, delta: int) -> int {
    let m = max_step_spec(len, ch);
    if delta > m { m } else if delta < -m { -m } else { delta }
}

/// Moves the applied compensation of a device towards `target_samples`
/// by at most half a buffer: a positive step inserts that many samples of
/// silence at the start of the buffer, a negative step drops that many
/// samples from its start (the whole buffer if it is shorter).
pub fn apply_compensation_delta<T: Copy>(
    buf: &mut Vec<T>,
    applied_comp_samples: &mut i64,
    target_samples: i64,
    out_channels: u16,
    silence: T,
)
    requires
        0 <= *old(applied_comp_samples),
        0 <= target_samples,
        old(buf)@.len() <= i64::MAX,
        3 * old(buf)@.len() / 2 + 0x1_0000 <= usize::MAX,
    ensures
        ({
            let ch = if out_channels == 0 { 1int } else { out_channels as int };
            let delta = target_samples - *old(applied_comp_samples);
            let len = old(buf)@.len() as int;
            if delta == 0 || len == 0 {
                &&& final(buf)@ == old(buf)@
                &&& *final(applied_comp_samples) == *old(applied_comp_samples)
            } else {
                let step = compensation_step_spec(len, ch, delta);
                &&& *final(applied_comp_samples) == *old(applied_comp_samples) + step
                &&& step > 0 ==> final(buf)@ == Seq::new(step as nat, |i: int| silence) + old(buf)@
                &&& step < 0 ==> final(buf)@ == (if -step >= len { Seq::<T>::empty() } else { old(buf)@.skip(-step) })
            }
        }),
        0 <= *final(applied_comp_samples),
{
    let ch: i64 = if out_channels == 0 {
        1
    } else {
        out_channels as i64
    };
    let delta = target_samples - *applied_comp_samples;
    if delta == 0 {
        return;
    }
    let len = buf.len();
    if len == 0 {
        return;
    }
    let buf_len = len as i64;
    proof {
        let bl = buf_len as int;
        let c = ch as int;
        assert((bl / 2 / c) * c <= bl / 2 && (bl / 2 / c) * c >= 0) by (nonlinear_arith)
            requires bl >= 0, c > 0;
    }
    let half = buf_len / 2 / ch * ch;
    let max_step = if half > ch {
        half
    } else {
        ch
    };
    let step = if delta > max_step {
        max_step
    } else if delta < -max_step {
        -max_step
    } else {
        delta
    };
    let ghost pre = buf@;
    if step > 0 {
        let n = step as usize;
        let mut out: Vec<T> = Vec::with_capacity(len + n);
        let mut i: usize = 0;
        while i < n
            invariant
                i <= n,
                out@ == Seq::new(i as nat, |j: int| silence),
            decreases n - i,
        {
            out.push(silence);
            assert(out@ =~= Seq::new((i + 1) as nat, |j: int| silence));
            i = i + 1;
        }
        let mut j: usize = 0;
        while j < len
            invariant
                buf@ == pre,
                len == pre.len(),
                j <= len,
                out@ == Seq::new(n as nat, |k: int| silence) + pre.take(j as int),
            decreases len - j,
        {
            out.push(buf[j]);
            assert(pre.take(j + 1) =~= pre.take(j as int).push(pre[j as int]));
            assert(out@ =~= Seq::new(n as nat, |k: int| silence) + pre.take(j + 1));
            j = j + 1;
        }
        assert(pre.take(len as int) =~= pre);
        *buf = out;
    } else {
        let n = (-step) as usize;
        if n >= len {
            buf.clear();
            assert(buf@ =~= Seq::<T>::empty());
        } else {
            let mut out: Vec<T> = Vec::with_capacity(len - n);
            let mut j: usize = n;
            while j < len
                invariant
                    buf@ == pre,
                    len == pre.len(),
                    n <= j <= len,
                    out@ == pre.subrange(n as int, j as int),
                decreases len - j,
            {
                out.push(buf[j]);
                assert(out@ =~= pre.subrange(n as int, j + 1));
                j = j + 1;
            }
            assert(pre.subrange(n as int, len as int) =~= pre.skip(n as int));
            *buf = out;
        }
    }
    *applied_comp_samples = *applied_comp_samples + step;
}

/// A compensation step never overshoots: the applied amount moves
/// towards the target and stays between where it was and the target.
pub proof fn law_compensation_step_never_overshoots(len: int, ch: int, applied: int, target: int)
    requires
        len > 0,
        ch > 0,
    ensures
        ({
            let step = compensation_step_spec(len, ch, target - applied);
            &&& applied <= target ==> applied <= applied + step <= target
            &&& target <= applied ==> target <= applied + step <= applied
        }),
{
}

/// Repeated steps reach the target: each step that does not land on the
/// target moves by at least one whole frame.
pub proof fn law_compensation_step_progress(len: int, ch: int, applied: int, target: int)
    requires
        len > 0,
        ch > 0,
        applied != target,
    ensures
        ({
            let step = compensation_step_spec(len, ch, target - applied);
            applied + step == target || step >= ch || step <= -ch
        }),
{
    let half = len / 2 / ch * ch;
    assert(max_step_spec(len, ch) >= ch);
}

/// Index bounds of sample `c` of frame `f` in an interleaved buffer of
/// `len` samples with `ch` channels.
pub proof fn lemma_frame_index(f: int, c: int, ch: int, len: int)
    requires
        0 <= f < len / ch,
        0 <= c < ch,
        ch > 0,
        len >= 0,
    ensures
        0 <= f * ch,
        f * ch + c < len,
        f * ch + ch <= len,
        (len / ch) * ch <= len,
{
    vstd::arithmetic::div_mod::lemma_fundamental_div_mod(len, ch);
    vstd::arithmetic::mul::lemma_mul_inequality(f + 1, len / ch, ch);
    vstd::arithmetic::mul::lemma_mul_is_distributive_add_other_way(ch, f, 1);
    vstd::arithmetic::mul::lemma_mul_nonnegative(f, ch);
    vstd::arithmetic::mul::lemma_mul_is_commutative(ch, len / ch);
    vstd::arithmetic::div_mod::lemma_mod_pos_bound(len, ch);
}

/// The frames appended when stretching by `n` frames: copies of the
/// last whole frame of `s`.
pub open spec fn repeated_last_frame<T>(s: Seq<T>, channels: int, n: int) -> Seq<T> {
    let last_start = (s.len() as int / channels - 1) * channels;
    Seq::new((n * channels) as nat, |i: int| s[last_start + i % channels])
}

/// Stretches a buffer by whole frames: for `delta > 0` appends `delta`
/// copies of the last frame (at most as many as there are frames); for
/// `delta < 0` drops `-delta` frames from the end, always keeping one
/// frame, and keeping whole frames only. This is how the worker absorbs
/// a tiny clock-drift correction.
pub fn apply_frame_stretch<T: Copy>(buf: &mut Vec<T>, channels: usize, delta: i32)
    requires
        delta != i32::MIN,
        delta > 0 && channels > 0 && old(buf)@.len() > 0 ==> old(buf)@.len() as int / (channels as int) > 0,
        2 * old(buf)@.len() <= usize::MAX,
    ensures
        ({
            let len = old(buf)@.len() as int;
            let ch = channels as int;
            if channels == 0 || len == 0 || delta == 0 {
                final(buf)@ == old(buf)@
            } else if delta > 0 {
                let frames = len / ch;
                let n = if (delta as int) < frames { delta as int } else { frames };
                final(buf)@ == old(buf)@ + repeated_last_frame(old(buf)@, ch, n)
            } else {
                let frames = len / ch;
                let keep_max = if frames > 0 { frames - 1 } else { 0 };
                let n = if -(delta as int) < keep_max { -(delta as int) } else { keep_max };
                final(buf)@ == old(buf)@.take((frames - n) * ch)
            }
        }),
{
    if channels == 0 || buf.len() == 0 || delta == 0 {
        return;
    }
    let len = buf.len();
    let frames = len / channels;
    proof {
        let l = len as int;
        let c = channels as int;
        assert((l / c) * c <= l) by (nonlinear_arith)
            requires l >= 0, c > 0;
    }
    if delta > 0 {
        let n: usize = if (delta as usize) < frames { delta as usize } else { frames };
        proof {
            lemma_frame_index((frames - 1) as int, 0, channels as int, len as int);
            let c = channels as int;
            let fm = (frames - 1) as int;
            assert(fm * c + c == (fm + 1) * c) by (nonlinear_arith);
            let nn = n as int;
            let fr = frames as int;
            assert(nn * c <= fr * c) by (nonlinear_arith)
                requires nn <= fr, c > 0;
        }
        let last_start = (frames - 1) * channels;
        let total = n * channels;
        let ghost pre = buf@;
        let mut i: usize = 0;
        while i < total
            invariant
                len == pre.len(),
                channels > 0,
                frames == len / channels,
                frames >= 1,
                last_start == (frames - 1) * channels,
                last_start + channels <= frames * channels <= len,
                total == n * channels,
                total <= len,
                2 * len <= usize::MAX,
                i <= total,
                buf@ == pre + Seq::new(i as nat, |j: int| pre[last_start + j % (channels as int)]),
            decreases total - i,
        {
            proof {
                vstd::arithmetic::div_mod::lemma_mod_pos_bound(i as int, channels as int);
            }
            let v = buf[last_start + i % channels];
            buf.push(v);
            assert(buf@ =~= pre + Seq::new((i + 1) as nat, |j: int| pre[last_start + j % (channels as int)]));
            i = i + 1;
        }
        assert(buf@ =~= pre + repeated_last_frame(pre, channels as int, n as int));
    } else {
        let keep_max: usize = if frames > 0 { frames - 1 } else { 0 };
        let d: usize = (-delta) as usize;
        let n: usize = if d < keep_max { d } else { keep_max };
        proof {
            let c = channels as int;
            assert((frames - n) * c <= frames * c) by (nonlinear_arith)
                requires n <= frames, c > 0;
        }
        let new_len = (frames - n) * channels;
        let ghost pre = buf@;
        buf.truncate(new_len);
        assert(buf@ =~= pre.take(new_len as int));
    }
}

/// Splits an interleaved buffer into per-channel buffers: sample `f` of
/// channel `c` goes to `dst[c][f]`. Entries past the whole frames of
/// `src`, and channels past `channels`, are left as they are.
pub fn deinterleave<T: Copy>(src: &[T], channels: usize, dst: &mut Vec<Vec<T>>)
    requires
        channels > 0,
        old(dst)@.len() >= channels,
        forall|c: int| 0 <= c < channels ==> #[trigger] old(dst)@[c]@.len() >= src@.len() as int / (channels as int),
    ensures
        final(dst)@.len() == old(dst)@.len(),
        forall|c: int| channels <= c < old(dst)@.len() ==> #[trigger] final(dst)@[c] == old(dst)@[c],
        forall|c: int| 0 <= c < channels ==> #[trigger] final(dst)@[c]@.len() == old(dst)@[c]@.len(),
        forall|c: int, f: int| 0 <= c < channels && 0 <= f < final(dst)@[c]@.len() ==> #[trigger] final(dst)@[c]@[f] == (
            if f < src@.len() as int / (channels as int) {
                src@[f * channels + c]
            } else {
                old(dst)@[c]@[f]
            }),
{
    let frames = src.len() / channels;
    let ghost pre = dst@;
    let mut c: usize = 0;
    while c < channels
        invariant
            channels > 0,
            src@.len() <= usize::MAX,
            frames == src@.len() as int / (channels as int),
            dst@.len() == pre.len(),
            pre.len() >= channels,
            c <= channels,
            forall|k: int| 0 <= k < channels ==> #[trigger] pre[k]@.len() >= frames,
            forall|k: int| c <= k < pre.len() ==> #[trigger] dst@[k] == pre[k],
            forall|k: int| 0 <= k < c ==> #[trigger] dst@[k]@.len() == pre[k]@.len(),
            forall|k: int, f: int| 0 <= k < c && 0 <= f < dst@[k]@.len() ==> #[trigger] dst@[k]@[f] == (
                if f < frames {
                    src@[f * channels + k]
                } else {
                    pre[k]@[f]
                }),
        decreases channels - c,
    {
        let old_col = &dst[c];
        let m = old_col.len();
        let mut col: Vec<T> = Vec::with_capacity(m);
        let mut f: usize = 0;
        while f < m
            invariant
                channels > 0,
                src@.len() <= usize::MAX,
                c < channels,
                frames == src@.len() as int / (channels as int),
                m == old_col@.len(),
                old_col == pre[c as int],
                f <= m,
                col@.len() == f,
                forall|g: int| 0 <= g < f ==> #[trigger] col@[g] == (if g < frames {
                    src@[g * channels + c]
                } else {
                    old_col@[g]
                }),
            decreases m - f,
        {
            if f < frames {
                proof {
                    lemma_frame_index(f as int, c as int, channels as int, src@.len() as int);
                    assert((f as int) * (channels as int) + (c as int) < src@.len());
                    assert(f * channels + c < src@.len());
                }
                col.push(src[f * channels + c]);
            } else {
                col.push(old_col[f]);
            }
            f = f + 1;
        }
        dst.set(c, col);
        c = c + 1;
    }
}

/// The channel that channel `c` reads when only `n` channels exist: the
/// same one, or the last one for channels past the end.
pub open spec fn channel_source(c: int, n: int) -> int {
    if c < n - 1 { c } else { n - 1 }
}

/// Capture channel `channel_source(c, cap)` exists and holds at least
/// `frames` samples.
pub open spec fn feeds_channel<T>(planar_src: Seq<Vec<T>>, cap: int, frames: int, c: int) -> bool {
    &&& 0 <= channel_source(c, cap) < planar_src.len()
    &&& planar_src[channel_source(c, cap)]@.len() >= frames
}

/// Fills the resampler's planar input with the first `frames` samples of
/// the capture's planar channels: input channel `c` reads capture channel
/// `c`, or the last capture channel when the device has more channels.
/// Samples past `frames` are left as they are.
pub fn fill_planar_input<T: Copy>(
    planar_src: &Vec<Vec<T>>,
    cap_channels: usize,
    frames: usize,
    input: &mut Vec<Vec<T>>,
)
    requires
        cap_channels > 0 || old(input)@.len() == 0,
        forall|c: int| 0 <= c < old(input)@.len() ==> #[trigger] feeds_channel(planar_src@, cap_channels as int, frames as int, c),
        forall|c: int| 0 <= c < old(input)@.len() ==> #[trigger] old(input)@[c]@.len() >= frames,
    ensures
        final(input)@.len() == old(input)@.len(),
        forall|c: int| 0 <= c < final(input)@.len() ==> #[trigger] final(input)@[c]@.len() == old(input)@[c]@.len(),
        forall|c: int, f: int| 0 <= c < final(input)@.len() && 0 <= f < final(input)@[c]@.len() ==> #[trigger] final(input)@[c]@[f] == (
            if f < frames {
                planar_src@[channel_source(c, cap_channels as int)]@[f]
            } else {
                old(input)@[c]@[f]
            }),
{
    let ghost pre = input@;
    let n = input.len();
    let mut c: usize = 0;
    while c < n
        invariant
            n == pre.len(),
            input@.len() == n,
            cap_channels > 0 || n == 0,
            c <= n,
            forall|k: int| 0 <= k < n ==> #[trigger] feeds_channel(planar_src@, cap_channels as int, frames as int, k),
            forall|k: int| 0 <= k < n ==> #[trigger] pre[k]@.len() >= frames,
            forall|k: int| c <= k < n ==> #[trigger] input@[k] == pre[k],
            forall|k: int| 0 <= k < c ==> #[trigger] input@[k]@.len() == pre[k]@.len(),
            forall|k: int, f: int| 0 <= k < c && 0 <= f < input@[k]@.len() ==> #[trigger] input@[k]@[f] == (
                if f < frames {
                    planar_src@[channel_source(k, cap_channels as int)]@[f]
                } else {
                    pre[k]@[f]
                }),
        decreases n - c,
    {
        let src_ch = if c < cap_channels - 1 { c } else { cap_channels - 1 };
        assert(src_ch == channel_source(c as int, cap_channels as int));
        assert(feeds_channel(planar_src@, cap_channels as int, frames as int, c as int));
        let src = &planar_src[src_ch];
        let old_col = &input[c];
        let m = old_col.len();
        let mut col: Vec<T> = Vec::with_capacity(m);
        let mut f: usize = 0;
        while f < m
            invariant
                m == old_col@.len(),
                old_col == pre[c as int],
                m >= frames,
                src@.len() >= frames,
                f <= m,
                col@.len() == f,
                forall|g: int| 0 <= g < f ==> #[trigger] col@[g] == (if g < frames {
                    src@[g]
                } else {
                    old_col@[g]
                }),
            decreases m - f,
        {
            if f < frames {
                col.push(src[f]);
            } else {
                col.push(old_col[f]);
            }
            f = f + 1;
        }
        input.set(c, col);
        c = c + 1;
    }
}

/// Interleaves `frames` frames of the resampler's planar output for a
/// device of `out_channels` channels: output channel `c` takes planar
/// channel `c`, or the last planar channel past the end. `out` is
/// rewritten.
pub fn interleave_planar<T: Copy>(planar: &Vec<Vec<T>>, frames: usize, out_channels: usize, out: &mut Vec<T>)
    requires
        frames > 0 && out_channels > 0 ==> planar@.len() > 0,
        forall|p: int| 0 <= p < planar@.len() && p < out_channels ==> #[trigger] planar@[p]@.len() >= frames,
        frames * out_channels <= usize::MAX,
    ensures
        final(out)@.len() == frames * out_channels,
        forall|f: int, c: int| 0 <= f < frames && 0 <= c < out_channels ==> #[trigger] final(out)@[f * out_channels + c]
            == planar@[channel_source(c, planar@.len() as int)]@[f],
{
    out.clear();
    let mut f: usize = 0;
    while f < frames
        invariant
            frames > 0 && out_channels > 0 ==> planar@.len() > 0,
            forall|p: int| 0 <= p < planar@.len() && p < out_channels ==> #[trigger] planar@[p]@.len() >= frames,
            frames * out_channels <= usize::MAX,
            f <= frames,
            out@.len() == f * out_channels,
            forall|g: int, c: int| 0 <= g < f && 0 <= c < out_channels ==> #[trigger] out@[g * out_channels + c]
                == planar@[channel_source(c, planar@.len() as int)]@[g],
        decreases frames - f,
    {
        proof {
            assert((f + 1) * out_channels <= frames * out_channels) by (nonlinear_arith)
                requires f + 1 <= frames;
        }
        let ghost before = out@;
        let mut c: usize = 0;
        while c < out_channels
            invariant
                f < frames,
                frames > 0 && out_channels > 0 ==> planar@.len() > 0,
                forall|p: int| 0 <= p < planar@.len() && p < out_channels ==> #[trigger] planar@[p]@.len() >= frames,
                (f + 1) * out_channels <= usize::MAX,
                c <= out_channels,
                before.len() == f * out_channels,
                out@.len() == f * out_channels + c,
                forall|j: int| 0 <= j < before.len() ==> #[trigger] out@[j] == before[j],
                forall|k: int| 0 <= k < c ==> #[trigger] out@[f * out_channels + k]
                    == planar@[channel_source(k, planar@.len() as int)]@[f as int],
            decreases out_channels - c,
        {
            proof {
                assert(f * out_channels + c < (f + 1) * out_channels) by (nonlinear_arith)
                    requires c < out_channels;
            }
            let last = planar.len() - 1;
            let p = if c < last { c } else { last };
            assert(p == channel_source(c as int, planar@.len() as int));
            out.push(planar[p][f]);
            c = c + 1;
        }
        proof {
            assert forall|g: int, k: int| 0 <= g < f + 1 && 0 <= k < out_channels implies
                #[trigger] out@[g * out_channels + k] == planar@[channel_source(k, planar@.len() as int)]@[g] by {
                if g < f {
                    assert(g * out_channels + k < f * out_channels) by (nonlinear_arith)
                        requires g < f, k < out_channels;
                    assert(out@[g * out_channels + k] == before[g * out_channels + k]);
                }
            }
            assert(out@.len() == (f + 1) * out_channels) by (nonlinear_arith)
                requires out@.len() == f * out_channels + out_channels;
        }
        f = f + 1;
    }
}

/// Per-frame layout change from `src_ch` to `dst_ch` channels: stereo to
/// mono mixes the pair with `downmix`; otherwise output channel `c` takes
/// input channel `min(c, src_ch - 1)` (mono to stereo duplicates).
pub open spec fn adapted_sample<T>(src: Seq<T>, src_ch: int, dst_ch: int, f: int, c: int) -> T {
    src[f * src_ch + (if c < src_ch - 1 { c } else { src_ch - 1 })]
}

/// A layout change other than stereo to mono keeps each input channel
/// that the output has, in its place, and fills the output's extra
/// channels with the input's last channel: going down to fewer channels
/// keeps the first ones (front left and right of a 5.1 frame for stereo),
/// going up repeats the last (mono to both sides of stereo).
pub proof fn law_channel_adaptation_keeps_channels<T>(src: Seq<T>, src_ch: int, dst_ch: int, f: int, c: int)
    requires
        src_ch > 0,
        0 <= c,
    ensures
        c < src_ch ==> adapted_sample(src, src_ch, dst_ch, f, c) == src[f * src_ch + c],
        c >= src_ch ==> adapted_sample(src, src_ch, dst_ch, f, c) == src[f * src_ch + src_ch - 1],
{
}

/// Rewrites `out` with `src` adapted from `src_ch` to `dst_ch` channels.
/// Same counts copy the buffer; stereo to mono takes `downmix` of each
/// pair; any other change maps output channel `c` to input channel
/// `min(c, src_ch - 1)`, frame by frame, over the whole frames of `src`.
pub fn adapt_channels_into<T: Copy, F: Fn(T, T) -> T>(
    src: &[T],
    src_ch: usize,
    dst_ch: usize,
    out: &mut Vec<T>,
    downmix: F,
)
    requires
        src_ch == dst_ch || src_ch > 0,
        forall|a: T, b: T| #[trigger] downmix.requires((a, b)),
        src_ch != dst_ch ==> (src@.len() as int / (src_ch as int)) * (dst_ch as int) <= usize::MAX,
    ensures
        src_ch == dst_ch ==> final(out)@ == src@,
        src_ch != dst_ch ==> {
            let frames = src@.len() as int / (src_ch as int);
            &&& final(out)@.len() == frames * dst_ch
            &&& forall|f: int, c: int| 0 <= f < frames && 0 <= c < dst_ch ==> {
                let v = #[trigger] final(out)@[f * dst_ch + c];
                if src_ch == 2 && dst_ch == 1 {
                    downmix.ensures((src@[2 * f], src@[2 * f + 1]), v)
                } else {
                    v == adapted_sample(src@, src_ch as int, dst_ch as int, f, c)
                }
            }
            &&& !(src_ch == 2 && dst_ch == 1) ==> forall|f: int, c: int| 0 <= f < frames && 0 <= c < dst_ch && c < src_ch
                ==> #[trigger] final(out)@[f * dst_ch + c] == src@[f * src_ch + c]
            &&& !(src_ch == 2 && dst_ch == 1) ==> forall|f: int, c: int| 0 <= f < frames && src_ch <= c < dst_ch
                ==> #[trigger] final(out)@[f * dst_ch + c] == src@[f * src_ch + src_ch - 1]
        },
{
    proof {
        if src_ch > 0 {
            assert forall|f: int, c: int| 0 <= c < src_ch implies #[trigger] adapted_sample(
                src@,
                src_ch as int,
                dst_ch as int,
                f,
                c,
            ) == src@[f * src_ch + c] by {
                law_channel_adaptation_keeps_channels(src@, src_ch as int, dst_ch as int, f, c);
            }
            assert forall|f: int, c: int| src_ch <= c implies #[trigger] adapted_sample(
                src@,
                src_ch as int,
                dst_ch as int,
                f,
                c,
            ) == src@[f * src_ch + src_ch - 1] by {
                law_channel_adaptation_keeps_channels(src@, src_ch as int, dst_ch as int, f, c);
            }
        }
    }
    out.clear();
    if src_ch == dst_ch {
        let mut i: usize = 0;
        while i < src.len()
            invariant
                i <= src@.len(),
                out@ == src@.take(i as int),
            decreases src@.len() - i,
        {
            out.push(src[i]);
            assert(out@ =~= src@.take(i + 1));
            i = i + 1;
        }
        assert(src@.take(src@.len() as int) =~= src@);
        return;
    }
    let frames = src.len() / src_ch;
    let mut f: usize = 0;
    while f < frames
        invariant
            src_ch > 0,
            src_ch != dst_ch,
            src@.len() <= usize::MAX,
            frames == src@.len() as int / (src_ch as int),
            frames * dst_ch <= usize::MAX,
            forall|a: T, b: T| #[trigger] downmix.requires((a, b)),
            f <= frames,
            out@.len() == f * dst_ch,
            forall|g: int, c: int| 0 <= g < f && 0 <= c < dst_ch ==> {
                let v = #[trigger] out@[g * dst_ch + c];
                if src_ch == 2 && dst_ch == 1 {
                    downmix.ensures((src@[2 * g], src@[2 * g + 1]), v)
                } else {
                    v == adapted_sample(src@, src_ch as int, dst_ch as int, g, c)
                }
            },
        decreases frames - f,
    {
        proof {
            let ff = f as int;
            lemma_frame_index(ff, 0, src_ch as int, src@.len() as int);
            assert((ff + 1) * (dst_ch as int) <= frames * (dst_ch as int)) by (nonlinear_arith)
                requires ff + 1 <= frames;
        }
        let base = f * src_ch;
        let ghost before = out@;
        if src_ch == 2 && dst_ch == 1 {
            let v = downmix(src[base], src[base + 1]);
            out.push(v);
            proof {
                assert forall|g: int, c: int| 0 <= g < f + 1 && 0 <= c < dst_ch implies {
                    let v = #[trigger] out@[g * dst_ch + c];
                    downmix.ensures((src@[2 * g], src@[2 * g + 1]), v)
                } by {
                    assert(c == 0);
                    assert(g * dst_ch + c == g) by (nonlinear_arith)
                        requires dst_ch == 1, c == 0;
                    assert(out@ == before.push(v));
                    if g < f {
                        assert(out@[g * dst_ch + c] == before[g * dst_ch + c]);
                        assert(downmix.ensures((src@[2 * g], src@[2 * g + 1]), before[g * dst_ch + c]));
                    } else {
                        assert(base == 2 * f) by (nonlinear_arith)
                            requires base == f * src_ch, src_ch == 2;
                        assert(out@[g] == v);
                    }
                }
            }
        } else {
            let mut c: usize = 0;
            while c < dst_ch
                invariant
                    src_ch > 0,
                    src@.len() <= usize::MAX,
                    !(src_ch == 2 && dst_ch == 1),
                    base == f * src_ch,
                    base + src_ch <= src@.len(),
                    f < frames,
                    (f + 1) * dst_ch <= usize::MAX,
                    c <= dst_ch,
                    before.len() == f * dst_ch,
                    out@.len() == f * dst_ch + c,
                    forall|j: int| 0 <= j < before.len() ==> #[trigger] out@[j] == before[j],
                    forall|k: int| 0 <= k < c ==> #[trigger] out@[f * dst_ch + k]
                        == adapted_sample(src@, src_ch as int, dst_ch as int, f as int, k),
                decreases dst_ch - c,
            {
                proof {
                    assert(f * dst_ch + c < (f + 1) * dst_ch) by (nonlinear_arith)
                        requires c < dst_ch;
                }
                let sc = if c < src_ch - 1 { c } else { src_ch - 1 };
                out.push(src[base + sc]);
                c = c + 1;
            }
            proof {
                assert forall|g: int, k: int| 0 <= g < f + 1 && 0 <= k < dst_ch implies
                    #[trigger] out@[g * dst_ch + k] == adapted_sample(src@, src_ch as int, dst_ch as int, g, k) by {
                    if g < f {
                        assert(g * dst_ch + k < f * dst_ch) by (nonlinear_arith)
                            requires g < f, k < dst_ch;
                        assert(out@[g * dst_ch + k] == before[g * dst_ch + k]);
                    }
                }
            }
        }
        proof {
            assert(out@.len() == (f + 1) * dst_ch) by (nonlinear_arith)
                requires out@.len() == f * dst_ch + dst_ch;
        }
        f = f + 1;
    }
}

/// Whether `name` is the loopback source of a running capture.
pub open spec fn is_source_of(loopback_source: Option<&str>, name: Seq<char>) -> bool {
    match loopback_source {
        Some(src) => src@ == name,
        None => false,
    }
}

/// The text of a worker refusal, `None` when the worker goes ahead.
pub open spec fn refusal<T>(r: Result<T, String>) -> Option<Seq<char>> {
    match r {
        Ok(_) => None,
        Err(e) => Some(e@),
    }
}

/// Whether the worker may add `device_name` as an output: capture must
/// run, and the device must not be the loopback source.
pub fn check_add_output(loopback_source: Option<&str>, device_name: &str) -> (r: Result<(), String>)
    ensures
        is_source_of(loopback_source, device_name@) ==> refusal(r) == Some(ERR_FEEDBACK_LOOP@),
        loopback_source is None ==> refusal(r) == Some(ENGINE_NOT_STARTED@),
        loopback_source is Some && !is_source_of(loopback_source, device_name@) ==> r is Ok,
{
    if is_capture_source(loopback_source, device_name) {
        return Err(ERR_FEEDBACK_LOOP.to_owned());
    }
    match loopback_source {
        None => Err(ENGINE_NOT_STARTED.to_owned()),
        Some(_) => Ok(()),
    }
}

/// Whether the worker may start a test signal on `device_name`: not on the
/// loopback source, and not twice on one device.
pub fn check_test_signal(loopback_source: Option<&str>, playing: &Vec<String>, device_name: &str) -> (r: Result<(), String>)
    ensures
        is_source_of(loopback_source, device_name@) ==> refusal(r) == Some(ERR_FEEDBACK_LOOP@),
        !is_source_of(loopback_source, device_name@) ==> {
            &&& (exists|i: int| 0 <= i < playing@.len() && #[trigger] playing@[i]@ == device_name@) ==> refusal(r)
                == Some(TEST_PLAYING_PREFIX@ + device_name@)
            &&& (forall|i: int| 0 <= i < playing@.len() ==> #[trigger] playing@[i]@ != device_name@) ==> r is Ok
        },
{
    if is_capture_source(loopback_source, device_name) {
        return Err(ERR_FEEDBACK_LOOP.to_owned());
    }
    assert(!is_source_of(loopback_source, device_name@));
    let mut i: usize = 0;
    while i < playing.len()
        invariant
            i <= playing@.len(),
            !is_source_of(loopback_source, device_name@),
            forall|j: int| 0 <= j < i ==> #[trigger] playing@[j]@ != device_name@,
        decreases playing@.len() - i,
    {
        if str_eq(playing[i].as_str(), device_name) {
            return Err(test_already_playing_message(device_name));
        }
        i = i + 1;
    }
    Ok(())
}

/// Index of the first worker whose device is `id`, or the worker's
/// "device not found" failure.
pub fn locate_device(ids: &Vec<DeviceId>, id: &DeviceId) -> (r: Result<usize, String>)
    ensures
        r matches Ok(i) ==> (i < ids@.len() && ids@[i as int]@ == id@ && forall|j: int| 0 <= j < i ==> #[trigger] ids@[j]@ != id@),
        r is Err ==> refusal(r) == Some(DEVICE_NOT_FOUND_PREFIX@ + id@),
        r is Err <==> forall|j: int| 0 <= j < ids@.len() ==> #[trigger] ids@[j]@ != id@,
{
    let mut i: usize = 0;
    while i < ids.len()
        invariant
            i <= ids@.len(),
            forall|j: int| 0 <= j < i ==> #[trigger] ids@[j]@ != id@,
        decreases ids@.len() - i,
    {
        if ids[i].same_as(id) {
            return Ok(i);
        }
        i = i + 1;
    }
    Err(device_not_found_message(id))
}

} // verus!
