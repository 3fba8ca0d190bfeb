# brume

The verified core of the Brume instrument, written in Verus.

- `src/` is the library. Its functions carry `requires`/`ensures`
  contracts that Verus proves, and the public `lemma_*` proof functions
  state the laws the library keeps (a ring buffer keeps the most recent
  values, a solo pressed twice clears the mixer, a finger's release stops
  exactly the notes its press started, a safe name never leaves its
  directory, and so on). The exceptions are the splash screen's clock
  readings (`SplashState::new`, `wordmark_visible`, `dismissed`,
  `elapsed_ms`): any instant or elapsed time is a possible outcome, so
  they have no `ensures`; the decisions they apply, `wordmark_visible_at`
  and `dismissed_at`, have exact ones.
- `app/` is ordinary Rust around it: the floating-point curves, LFOs,
  modulation router, ring-buffer statistics and meters, JSON files on disk
  for patches, performances and settings (including the legacy `complex/`
  migration, which edits arbitrary JSON), the debounced persistence
  threads, and the glue that turns the library's decisions into engine
  commands.
- `tests/` runs the library on concrete values.

## What is not here

- The touch-screen UI's views and event loop, which are drawn with the
  `iced` toolkit. Their decisions (navigation, keyboard, mixer, MIDI Learn,
  channel and modulation routing, persistence, control surfaces) are in
  `src/`; the drawing is not built here.
- The Lua scripting engine (script VM, sandbox and time budget, Lua FX
  slots, the `brume` API bindings), which is built on `mlua`. The script
  name guard, command file, script listing and the chord, scale and
  note-name helpers are in `src/`.
- The engine-side types the UI talks to (parameter ids, engine messages,
  the control matrix, audio and MIDI I/O), which live in the engine's own
  crates.
- Floating-point behaviour in general: Verus does not reason about it, so
  it sits in `app/` and is not proved.
