# vapor_tap

Application audio capture, recording and transcription, with the rules verified
by Verus.

- `src/` is the library. It decides what is captured and how on each operating
  system (`platform`), which application a selector means (`selector`), what a
  WAV file holds (`wav`, `recording`), how captured packets become 60 ms chunks
  of 16 kHz mono PCM (`audio`, `pieces`), how a FunASR session proceeds (`asr`)
  and what a transcript shows and stores (`transcript`, `transcription`). Every
  function states in its contract what it returns; the proof functions named
  `law_..` state what holds across functions.
- `app/` is the command-line program around it: devices, files, the network, and
  arithmetic on floating-point samples.
- `tests/` runs the library.

The library trusts a handful of functions of the standard library, `serde_json`,
`http` and `tungstenite`. Each stands behind a small wrapper whose comment says what is taken
for granted: `text.rs` (trimming, lower case, substrings, numbers, JSON
strings), `time.rs` (durations) and `asr/protocol.rs` (header values, URLs).

Samples are of any type in the library. The program uses `f32` and hands in the
functions that average, resample and quantize them.
