# Zound

A multi-device audio hub: it captures the system's loopback audio and
plays it in step on several output devices at once (headphones,
speakers, Bluetooth), with per-device volume, mute, balance, EQ and
manual latency compensation.

## Layout

- `src/` — the verified library (Verus). It holds the logic:
  - `sync` — the sync engine: per-device latencies, the common target
    and each device's compensation delay, drift figures;
  - `engine` — the audio worker's state (capture, outputs, test
    streams) and the registries it keeps in step;
  - `worker` — the worker's command loop, one step at a time: the
    decision on each command and the I/O action that follows;
  - `pipeline` — sample-buffer bookkeeping: compensation, frame
    stretching, channel layout changes, planar/interleaved copies, and
    the worker's checks;
  - `output` — per-device and master controls;
  - `guard` — command errors and their round trip through the worker's
    messages;
  - `devices`, `test_signal`, `cli`, `i18n`, `calibration`, `dto`,
    `profile`, `text`, `table`, `core_types`.
- `tests/` — tests of the library.
- `app/` — the program around it: audio I/O (cpal, PulseAudio,
  CoreAudio, ScreenCaptureKit), the worker thread, floating-point DSP,
  serialisation, the Tauri commands and the CLI.

Gains and balances travel through the library as `f32` bit patterns;
latencies are `u128` nanoseconds.
