# dglab_audio_link

A desktop program that turns speaker playback into DG-LAB channel strengths and
pulse frames. The decisions are made by a library that is verified with Verus;
the program around it opens sockets, streams and the window.

## Layout

- `src/dglab/` - pairing addresses, control messages, packets and the decisions
  of the websocket server.
- `src/signal/` - from band levels to strengths.
- `src/pipeline/` - envelopes, waveforms, and the worker that tells the channels
  what to do.
- `src/audio/` - the choice of devices and stream formats, the capture buffer and
  its frames.
- `src/app/` - the window's state, scenes, settings, log and texts.
- `src/level.rs` - signal levels by bit pattern, ordered and limited exactly.
- `src/seconds.rs` - times by bit pattern, compared exactly.
- `src/text.rs` - trimming, splitting, searching and number texts over
  characters.
- `tests/` - scenarios on concrete values.
- `app/` - the program: `main`, the window, the websocket, the settings file,
  the audio streams and all floating-point arithmetic.

## What is proved

Every public function of the library states what it returns or changes, and for
every error the inputs on which it comes. Promises that span several functions
stand beside them as proof functions named `law_...`: a report is read back from
its text, an accepted message fits into a packet, a binding needs a matching bind
packet, strengths keep to the app's limits, kept scenes and settings
come back, also after a restart.

Floating-point results (a band's rise above its threshold, the step that a
smoothness allows, the rounded wave for a strength, the moves of an envelope, how
old a point of the history is) are handed to the library as arguments; what
becomes of them is decided and proved there.

The library believes, without proof, what a few wrappers state of outside
functions (new UUIDs, JSON strings, QR codes, the system's locale) and what
`String::push` does.
