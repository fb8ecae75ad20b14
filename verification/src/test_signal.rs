//! Test signals for by-ear calibration: the schedule of clicks, tones
//! and metronome beats, counted in samples. The waveform itself (sine
//! phase and envelope shape) is computed by the application from the
//! steps this schedule emits.

use vstd::prelude::*;
use crate::guard::{CommandError, CommandErrorKind, command_failure};
use crate::text::str_eq;

verus! {

/// Clicks in one `Click` series; the stream stops after the last one.
pub const CLICK_REPEATS: u32 = 5;

/// Slowest metronome tempo.
pub const MIN_BPM: u16 = 40;

/// Fastest metronome tempo.
pub const MAX_BPM: u16 = 240;

/// Metronome tempo when the request names none.
pub const DEFAULT_BPM: u16 = 120;

/// Kind of test signal.
#[derive(Debug, Clone, Copy, PartialEq, Eq, Structural)]
pub enum TestKind {
    /// A series of short 1 kHz clicks, one per second; stops by itself.
    Click,
    /// A 1 kHz tone with fade-in and fade-out; stops by itself.
    Sine1kHz,
    /// Periodic clicks until stopped, at 40 to 240 beats per minute.
    Metronome { bpm: u16 },
}

/// `bpm` limited to the metronome's range.
pub open spec fn clamp_bpm(bpm: u16) -> u16 {
    if bpm < MIN_BPM { MIN_BPM } else if bpm > MAX_BPM { MAX_BPM } else { bpm }
}

/// Samples between metronome beats at `sample_rate`.
pub open spec fn beat_interval(sample_rate: u32, bpm: u16) -> u32 {
    (sample_rate * 60 / (clamp_bpm(bpm) as int)) as u32
}

/// The test kind that a request names: `"click"`, `"sine"` or
/// `"metronome"` (with `bpm`, 120 when absent, clamped to 40..=240).
pub open spec fn requested_kind(kind: Seq<char>, bpm: Option<u16>) -> Option<TestKind> {
    if kind == "click"@ {
        Some(TestKind::Click)
    } else if kind == "sine"@ {
        Some(TestKind::Sine1kHz)
    } else if kind == "metronome"@ {
        Some(TestKind::Metronome {
            bpm: clamp_bpm(match bpm {
                Some(b) => b,
                None => DEFAULT_BPM,
            }),
        })
    } else {
        None
    }
}

fn clamp_bpm_exec(bpm: u16) -> (r: u16)
    ensures
        r == clamp_bpm(bpm),
{
    if bpm < MIN_BPM {
        MIN_BPM
    } else if bpm > MAX_BPM {
        MAX_BPM
    } else {
        bpm
    }
}

/// Reads a test-signal request; an unknown kind is a bad request whose
/// message names it.
pub fn parse_test_kind(kind: &str, bpm: Option<u16>) -> (r: Result<TestKind, CommandError>)
    ensures
        requested_kind(kind@, bpm) matches Some(k) ==> r == Ok::<TestKind, CommandError>(k),
        requested_kind(kind@, bpm) is None ==> command_failure(r) == Some(
            (CommandErrorKind::BadRequest, "unknown test kind: "@ + kind@),
        ),
{
    if str_eq(kind, "click") {
        Ok(TestKind::Click)
    } else if str_eq(kind, "sine") {
        Ok(TestKind::Sine1kHz)
    } else if str_eq(kind, "metronome") {
        let b = match bpm {
            Some(b) => b,
            None => DEFAULT_BPM,
        };
        Ok(TestKind::Metronome { bpm: clamp_bpm_exec(b) })
    } else {
        let mut msg = "unknown test kind: ".to_owned();
        msg.append(kind);
        Err(CommandError::bad_request(msg.as_str()))
    }
}

/// Lengths, in samples, that the signal shapes take at the stream's
/// sample rate.
#[derive(Debug, Clone, Copy)]
pub struct SignalTiming {
    /// Length of one click (10 ms, at least one sample).
    pub click_total: u32,
    /// Attack and release of a click's envelope (1 ms, at least one).
    pub ramp_samples: u32,
    /// Samples between clicks of a `Click` series (1 s).
    pub click_interval: u32,
    /// Length of the tone (5 s).
    pub sine_total: u64,
    /// Fade-in and fade-out of the tone (50 ms, at least one).
    pub sine_fade: u32,
}

/// What to play for the next frame.
#[derive(Debug, Clone, Copy, PartialEq, Eq, Structural)]
pub enum TestStep {
    Silence,
    /// Sample `pos` of a click of `total` samples with envelope ramp
    /// `ramp`. `pos == 0` starts a new click.
    Click { pos: u32, total: u32, ramp: u32 },
    /// Sample `pos` of a tone of `total` samples with fade `fade`.
    Sine { pos: u64, total: u64, fade: u32 },
}

/// The scheduler state behind one test stream.
#[derive(Debug, Clone, Copy)]
pub struct TestSchedule {
    pub kind: TestKind,
    pub sample_rate: u32,
    pub timing: SignalTiming,
    /// Frames produced so far.
    pub samples_played: u64,
    /// Position inside the current click; `click_total` or more means no
    /// click plays.
    pub click_pos: u32,
    /// Frames until the next click starts (counted once a click ends).
    pub samples_to_next_click: u32,
    /// Clicks finished in a `Click` series.
    pub clicks_done: u32,
    /// The stream played out (or was stopped); it stays silent.
    pub stopped: bool,
}

/// Whether a schedule for `kind` can run at `sample_rate`: the
/// metronome's beat interval is computed in 32 bits.
pub open spec fn schedule_fits(kind: TestKind, sample_rate: u32) -> bool {
    kind matches TestKind::Metronome { .. } ==> sample_rate * 60 <= u32::MAX
}

/// The schedule's invariant: a click series has not passed its last
/// click, and the metronome's interval fits in 32 bits.
pub open spec fn schedule_wf(s: TestSchedule) -> bool {
    &&& schedule_fits(s.kind, s.sample_rate)
    &&& s.clicks_done <= CLICK_REPEATS
    &&& (s.kind == TestKind::Click && !s.stopped) ==> s.clicks_done < CLICK_REPEATS
}

/// The click part of a step: the current click's sample, if one plays.
pub open spec fn click_part(s: TestSchedule) -> (TestStep, u32) {
    if s.click_pos >= s.timing.click_total {
        (TestStep::Silence, s.click_pos)
    } else {
        (TestStep::Click { pos: s.click_pos, total: s.timing.click_total, ramp: s.timing.ramp_samples }, (s.click_pos + 1) as u32)
    }
}

/// One frame of the schedule: the step to play and the next state.
pub open spec fn advance_spec(s: TestSchedule) -> (TestStep, TestSchedule) {
    if s.stopped {
        (TestStep::Silence, s)
    } else {
        match s.kind {
            TestKind::Click => {
                let (step, pos) = click_part(s);
                let s1 = TestSchedule { click_pos: pos, ..s };
                let s2 = if pos >= s.timing.click_total && s.samples_to_next_click > 0 {
                    let left = (s.samples_to_next_click - 1) as u32;
                    if left == 0 {
                        let done = (s.clicks_done + 1) as u32;
                        if done >= CLICK_REPEATS {
                            TestSchedule { samples_to_next_click: left, clicks_done: done, stopped: true, ..s1 }
                        } else {
                            TestSchedule {
                                samples_to_next_click: s.timing.click_interval,
                                clicks_done: done,
                                click_pos: 0,
                                ..s1
                            }
                        }
                    } else {
                        TestSchedule { samples_to_next_click: left, ..s1 }
                    }
                } else {
                    s1
                };
                (step, TestSchedule { samples_played: (s2.samples_played + 1) as u64, ..s2 })
            },
            TestKind::Sine1kHz => {
                if s.samples_played >= s.timing.sine_total {
                    (TestStep::Silence, TestSchedule { stopped: true, ..s })
                } else {
                    (
                        TestStep::Sine { pos: s.samples_played, total: s.timing.sine_total, fade: s.timing.sine_fade },
                        TestSchedule { samples_played: (s.samples_played + 1) as u64, ..s },
                    )
                }
            },
            TestKind::Metronome { bpm } => {
                let (step, pos) = click_part(s);
                let s1 = TestSchedule { click_pos: pos, ..s };
                let s2 = if pos >= s.timing.click_total && s.samples_to_next_click > 0 {
                    let left = (s.samples_to_next_click - 1) as u32;
                    if left == 0 {
                        TestSchedule {
                            samples_to_next_click: beat_interval(s.sample_rate, bpm),
                            click_pos: 0,
                            ..s1
                        }
                    } else {
                        TestSchedule { samples_to_next_click: left, ..s1 }
                    }
                } else {
                    s1
                };
                (step, TestSchedule { samples_played: (s2.samples_played + 1) as u64, ..s2 })
            },
        }
    }
}

/// The state a schedule starts in.
pub open spec fn start_state(kind: TestKind, sample_rate: u32, timing: SignalTiming) -> TestSchedule {
    TestSchedule {
        kind,
        sample_rate,
        timing,
        samples_played: 0,
        click_pos: match kind {
            TestKind::Sine1kHz => timing.click_total,
            _ => 0,
        },
        samples_to_next_click: match kind {
            TestKind::Click => timing.click_interval,
            TestKind::Metronome { bpm } => beat_interval(sample_rate, bpm),
            TestKind::Sine1kHz => 0,
        },
        clicks_done: 0,
        stopped: false,
    }
}

impl TestSchedule {
    /// Whether a schedule for `kind` can run at `sample_rate`.
    pub fn fits(kind: TestKind, sample_rate: u32) -> (r: bool)
        ensures
            r == schedule_fits(kind, sample_rate),
    {
        match kind {
            TestKind::Metronome { .. } => sample_rate <= u32::MAX / 60,
            _ => true,
        }
    }

    /// A schedule at its start: clicks and beats begin at once, the tone
    /// from its first sample.
    pub fn new(kind: TestKind, sample_rate: u32, timing: SignalTiming) -> (r: Self)
        requires
            schedule_fits(kind, sample_rate),
        ensures
            r == start_state(kind, sample_rate, timing),
            schedule_wf(r),
    {
        let click_pos = match kind {
            TestKind::Sine1kHz => timing.click_total,
            _ => 0,
        };
        let samples_to_next_click = match kind {
            TestKind::Click => timing.click_interval,
            TestKind::Metronome { bpm } => {
                let b = clamp_bpm_exec(bpm) as u32;
                sample_rate * 60 / b
            },
            TestKind::Sine1kHz => 0,
        };
        TestSchedule {
            kind,
            sample_rate,
            timing,
            samples_played: 0,
            click_pos,
            samples_to_next_click,
            clicks_done: 0,
            stopped: false,
        }
    }

    /// Whether the stream has finished (or was stopped).
    pub fn is_done(&self) -> (r: bool)
        ensures
            r == self.stopped,
    {
        self.stopped
    }

    /// Stops the stream: from now on it is silent.
    pub fn stop(&mut self)
        requires
            schedule_wf(*old(self)),
        ensures
            schedule_wf(*final(self)),
            *final(self) == (TestSchedule { stopped: true, ..*old(self) }),
    {
        self.stopped = true;
    }

    fn click_step(&mut self) -> (r: TestStep)
        ensures
            (r, final(self).click_pos) == click_part(*old(self)),
            *final(self) == (TestSchedule { click_pos: final(self).click_pos, ..*old(self) }),
    {
        if self.click_pos >= self.timing.click_total {
            TestStep::Silence
        } else {
            let pos = self.click_pos;
            self.click_pos = pos + 1;
            TestStep::Click { pos, total: self.timing.click_total, ramp: self.timing.ramp_samples }
        }
    }

    /// Produces the step for the next frame and moves the schedule on.
    pub fn advance(&mut self) -> (r: TestStep)
        requires
            old(self).samples_played < u64::MAX,
            schedule_wf(*old(self)),
        ensures
            (r, *final(self)) == advance_spec(*old(self)),
            schedule_wf(*final(self)),
    {
        if self.stopped {
            return TestStep::Silence;
        }
        match self.kind {
            TestKind::Click => {
                let step = self.click_step();
                if self.click_pos >= self.timing.click_total && self.samples_to_next_click > 0 {
                    self.samples_to_next_click = self.samples_to_next_click - 1;
                    if self.samples_to_next_click == 0 {
                        self.clicks_done = self.clicks_done + 1;
                        if self.clicks_done >= CLICK_REPEATS {
                            self.stopped = true;
                        } else {
                            self.click_pos = 0;
                            self.samples_to_next_click = self.timing.click_interval;
                        }
                    }
                }
                self.samples_played = self.samples_played + 1;
                step
            },
            TestKind::Sine1kHz => {
                if self.samples_played >= self.timing.sine_total {
                    self.stopped = true;
                    return TestStep::Silence;
                }
                let step = TestStep::Sine {
                    pos: self.samples_played,
                    total: self.timing.sine_total,
                    fade: self.timing.sine_fade,
                };
                self.samples_played = self.samples_played + 1;
                step
            },
            TestKind::Metronome { bpm } => {
                let step = self.click_step();
                if self.click_pos >= self.timing.click_total && self.samples_to_next_click > 0 {
                    self.samples_to_next_click = self.samples_to_next_click - 1;
                    if self.samples_to_next_click == 0 {
                        let b = clamp_bpm_exec(bpm) as u32;
                        self.click_pos = 0;
                        self.samples_to_next_click = self.sample_rate * 60 / b;
                    }
                }
                self.samples_played = self.samples_played + 1;
                step
            },
        }
    }
}

/// The schedule after `n` frames.
pub open spec fn advance_n(s: TestSchedule, n: nat) -> TestSchedule
    decreases n,
{
    if n == 0 {
        s
    } else {
        advance_n(advance_spec(s).1, (n - 1) as nat)
    }
}

/// A finished stream stays silent and does not change.
pub proof fn law_stopped_stays_silent(s: TestSchedule)
    requires
        s.stopped,
    ensures
        advance_spec(s) == (TestStep::Silence, s),
{
}

/// Every frame keeps the schedule's invariant.
pub proof fn law_advance_keeps_invariant(s: TestSchedule)
    requires
        schedule_wf(s),
    ensures
        schedule_wf(advance_spec(s).1),
{
}

/// The metronome never stops by itself.
pub proof fn law_metronome_runs_until_stopped(s: TestSchedule, bpm: u16)
    requires
        s.kind == (TestKind::Metronome { bpm }),
        !s.stopped,
    ensures
        !advance_spec(s).1.stopped,
{
}

/// The tone plays exactly `sine_total` frames, each tagged with its
/// position, and then stops.
pub proof fn law_tone_plays_its_length(s: TestSchedule)
    requires
        s.kind == TestKind::Sine1kHz,
        !s.stopped,
    ensures
        s.samples_played < s.timing.sine_total ==> advance_spec(s).0 == (TestStep::Sine {
            pos: s.samples_played,
            total: s.timing.sine_total,
            fade: s.timing.sine_fade,
        }) && !advance_spec(s).1.stopped && advance_spec(s).1.samples_played == s.samples_played + 1,
        s.samples_played >= s.timing.sine_total ==> advance_spec(s).0 == TestStep::Silence && advance_spec(s).1.stopped,
{
}

/// After a click ends, the pause lasts exactly `samples_to_next_click`
/// silent frames; then the next click starts (position 0) or, when a
/// click series has played its last click, the stream stops.
pub proof fn law_next_click_after_pause(s: TestSchedule)
    requires
        schedule_wf(s),
        !s.stopped,
        s.kind != TestKind::Sine1kHz,
        s.click_pos >= s.timing.click_total,
        s.samples_to_next_click > 0,
    ensures
        ({
            let t = advance_n(s, s.samples_to_next_click as nat);
            &&& t.click_pos == 0 || t.stopped
            &&& t.stopped ==> s.kind == TestKind::Click && t.clicks_done == CLICK_REPEATS
            &&& t.click_pos == 0 && !t.stopped ==> t.samples_to_next_click == (match s.kind {
                TestKind::Metronome { bpm } => beat_interval(s.sample_rate, bpm),
                _ => s.timing.click_interval,
            })
        }),
        forall|i: nat| i < s.samples_to_next_click ==> #[trigger] advance_spec(advance_n(s, i)).0 == TestStep::Silence,
    decreases s.samples_to_next_click,
{
    let s1 = advance_spec(s).1;
    assert(advance_spec(s).0 == TestStep::Silence);
    if s.samples_to_next_click == 1 {
        assert(advance_n(s, 1) == advance_n(s1, 0));
        assert forall|i: nat| i < s.samples_to_next_click implies #[trigger] advance_spec(advance_n(s, i)).0 == TestStep::Silence by {
            assert(i == 0);
            assert(advance_n(s, 0) == s);
        }
    } else {
        assert(s1.samples_to_next_click == s.samples_to_next_click - 1);
        assert(!s1.stopped);
        law_next_click_after_pause(s1);
        assert(advance_n(s, s.samples_to_next_click as nat) == advance_n(s1, s1.samples_to_next_click as nat));
        assert forall|i: nat| i < s.samples_to_next_click implies #[trigger] advance_spec(advance_n(s, i)).0 == TestStep::Silence by {
            if i > 0 {
                assert(advance_n(s, i) == advance_n(s1, (i - 1) as nat));
                assert(advance_spec(advance_n(s1, (i - 1) as nat)).0 == TestStep::Silence);
            } else {
                assert(advance_n(s, 0) == s);
            }
        }
    }
}


/// `n` frames of the schedule, in two runs.
proof fn lemma_advance_n_compose(s: TestSchedule, a: nat, b: nat)
    ensures
        advance_n(s, a + b) == advance_n(advance_n(s, a), b),
    decreases a,
{
    if a > 0 {
        lemma_advance_n_compose(advance_spec(s).1, (a - 1) as nat, b);
        assert((a + b - 1) as nat == ((a - 1) as nat + b) as nat);
    }
}

/// One frame of the schedule.
proof fn lemma_advance_one(s: TestSchedule)
    ensures
        advance_n(s, 1) == advance_spec(s).1,
{
    assert(advance_n(advance_spec(s).1, 0) == advance_spec(s).1);
}

/// A stopped schedule does not change.
proof fn lemma_stopped_stays(s: TestSchedule, j: nat)
    requires
        s.stopped,
    ensures
        advance_n(s, j) == s,
    decreases j,
{
    if j > 0 {
        lemma_stopped_stays(advance_spec(s).1, (j - 1) as nat);
    }
}

/// Frames from the start of one click of a series to the start of the
/// next: the click's `click_total` frames, then the pause, whose count of
/// `click_interval` starts on the click's last frame.
pub open spec fn click_period(t: SignalTiming) -> int {
    t.click_total + t.click_interval - 1
}

/// The step played at frame `n * click_period + k` of schedule `s0`.
pub open spec fn series_step(s0: TestSchedule, n: int, k: int) -> TestStep {
    advance_spec(advance_n(s0, (n * click_period(s0.timing) + k) as nat)).0
}

/// What a click series plays at position `k` of a period: the click's
/// samples, then silence.
pub open spec fn series_expected(t: SignalTiming, k: int) -> TestStep {
    if k < t.click_total {
        TestStep::Click { pos: k as u32, total: t.click_total, ramp: t.ramp_samples }
    } else {
        TestStep::Silence
    }
}

/// The schedule before frame `n * click_period + k` of a click series.
spec fn series_state(s0: TestSchedule, n: int, k: int) -> TestSchedule {
    let t = s0.timing;
    TestSchedule {
        click_pos: (if k < t.click_total { k } else { t.click_total as int }) as u32,
        samples_to_next_click: (if k < t.click_total { t.click_interval as int } else { click_period(t) - k }) as u32,
        clicks_done: n as u32,
        samples_played: (n * click_period(t) + k) as u64,
        stopped: false,
        ..s0
    }
}

/// The schedule once a click series has stopped.
spec fn series_end(s0: TestSchedule) -> TestSchedule {
    TestSchedule {
        click_pos: s0.timing.click_total,
        samples_to_next_click: 0,
        clicks_done: CLICK_REPEATS,
        samples_played: (CLICK_REPEATS * click_period(s0.timing)) as u64,
        stopped: true,
        ..s0
    }
}

proof fn lemma_series_bounds(p: int, n: int, k: int)
    requires
        1 <= p <= 2 * 0xffff_ffff,
        0 <= n < CLICK_REPEATS,
        0 <= k < p,
    ensures
        0 <= n * p + k,
        n * p + k + 1 <= CLICK_REPEATS * p,
        CLICK_REPEATS * p < 0x1_0000_0000_0000_0000,
        n * p + k + 1 == (if k + 1 < p { n * p + (k + 1) } else { (n + 1) * p }),
{
    assert(0 <= n * p && n * p + p <= 5 * p && (n + 1) * p == n * p + p) by (nonlinear_arith)
        requires 1 <= p, 0 <= n < 5;
}

/// One frame of a click series.
proof fn lemma_series_frame(s0: TestSchedule, n: int, k: int)
    requires
        s0.kind == TestKind::Click,
        1 <= s0.timing.click_total,
        1 <= s0.timing.click_interval,
        0 <= n < CLICK_REPEATS,
        0 <= k < click_period(s0.timing),
    ensures
        advance_spec(series_state(s0, n, k)).0 == series_expected(s0.timing, k),
        advance_spec(series_state(s0, n, k)).1 == (if k + 1 < click_period(s0.timing) {
            series_state(s0, n, k + 1)
        } else if n + 1 < CLICK_REPEATS {
            series_state(s0, n + 1, 0)
        } else {
            series_end(s0)
        }),
{
    lemma_series_bounds(click_period(s0.timing), n, k);
}

/// Where a click series stands after `n` periods and `k` frames.
proof fn lemma_series_at(s0: TestSchedule, n: int, k: int)
    requires
        s0 == start_state(TestKind::Click, s0.sample_rate, s0.timing),
        1 <= s0.timing.click_total,
        1 <= s0.timing.click_interval,
        0 <= n < CLICK_REPEATS,
        0 <= k < click_period(s0.timing),
    ensures
        advance_n(s0, (n * click_period(s0.timing) + k) as nat) == series_state(s0, n, k),
    decreases n, k,
{
    let p = click_period(s0.timing);
    if k > 0 {
        lemma_series_at(s0, n, k - 1);
        lemma_series_bounds(p, n, k - 1);
        lemma_advance_n_compose(s0, (n * p + k - 1) as nat, 1);
        lemma_advance_one(series_state(s0, n, k - 1));
        lemma_series_frame(s0, n, k - 1);
        assert((n * p + k) as nat == ((n * p + k - 1) as nat + 1) as nat);
    } else if n > 0 {
        lemma_series_at(s0, n - 1, p - 1);
        lemma_series_bounds(p, n - 1, p - 1);
        lemma_advance_n_compose(s0, ((n - 1) * p + p - 1) as nat, 1);
        lemma_advance_one(series_state(s0, n - 1, p - 1));
        lemma_series_frame(s0, n - 1, p - 1);
        assert((n * p + k) as nat == (((n - 1) * p + p - 1) as nat + 1) as nat);
    } else {
        assert(advance_n(s0, 0) == s0);
        assert(series_state(s0, 0, 0) == s0);
    }
}

/// A click series plays exactly `CLICK_REPEATS` clicks: click `n` starts
/// at frame `n * click_period` and plays its `click_total` samples, the
/// rest of each period is silent, and after the last period the stream
/// has stopped and stays silent. (A zero-length click or pause never
/// advances the series.)
pub proof fn law_click_series_plays_its_clicks(sample_rate: u32, timing: SignalTiming)
    requires
        1 <= timing.click_total,
        1 <= timing.click_interval,
    ensures
        ({
            let s0 = start_state(TestKind::Click, sample_rate, timing);
            let end = (CLICK_REPEATS * click_period(timing)) as nat;
            &&& forall|n: int, k: int| 0 <= n < CLICK_REPEATS && 0 <= k < click_period(timing) ==> #[trigger] series_step(s0, n, k)
                == series_expected(timing, k)
            &&& advance_n(s0, end).stopped
            &&& advance_n(s0, end).clicks_done == CLICK_REPEATS
            &&& forall|j: nat| #[trigger] advance_spec(advance_n(s0, end + j)).0 == TestStep::Silence
        }),
{
    let s0 = start_state(TestKind::Click, sample_rate, timing);
    let p = click_period(timing);
    let end = (CLICK_REPEATS * p) as nat;
    assert forall|n: int, k: int| 0 <= n < CLICK_REPEATS && 0 <= k < p implies #[trigger] series_step(s0, n, k)
        == series_expected(timing, k) by {
        lemma_series_at(s0, n, k);
        lemma_series_frame(s0, n, k);
    }
    lemma_series_at(s0, 4, p - 1);
    lemma_series_bounds(p, 4, p - 1);
    lemma_series_frame(s0, 4, p - 1);
    lemma_advance_n_compose(s0, (4 * p + p - 1) as nat, 1);
    lemma_advance_one(series_state(s0, 4, p - 1));
    assert(end == ((4 * p + p - 1) as nat + 1) as nat);
    assert(advance_n(s0, end) == series_end(s0));
    assert forall|j: nat| #[trigger] advance_spec(advance_n(s0, end + j)).0 == TestStep::Silence by {
        lemma_advance_n_compose(s0, end, j);
        lemma_stopped_stays(series_end(s0), j);
    }
}

} // verus!
