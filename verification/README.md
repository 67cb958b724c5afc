# nsf_player

An NSF (NES sound format) player with a piano-roll and perspective
visualization. The decision logic, the playlist, the audio ring handling and
the integer parts of the renderer are a Verus-verified library; the program
around it (window, audio device, emulator, file access) is ordinary Rust.

## Layout

- `src/playlist.rs`: the playlist with its cursor, repeat mode and the
  expansion of an NSF/NSFe file (with its M3U entries) into subsong items.
- `src/player_thread.rs`: the player thread's state machine (`PlayerCore`):
  requests in, actions out; end-of-track detection, volume scaling and
  channel interleaving, prefill sizing and frame pacing.
- `src/audio.rs`: the sample ring between the player thread and the audio
  callback (backed by `ringbuf`), its sizing and the callback's fill logic.
- `src/perspective.rs`: canvas primitives (clipped pixels and lines), the
  keyboard and grid geometry in integers, note-to-key mapping, the channel
  strip layout and the blit of the strip into the canvas.
- `src/config.rs`: persisted settings and the helpers that interpret them.
- `src/window_state.rs`: the player window's state machine: every button,
  slider and player event maps to the requests to send and the UI updates
  to make, keeping the persisted settings in step.
- `tests/`: tests of the library on concrete values.
- `app/`: the executable: the GUI, the audio stream, the emulator loop and
  configuration files, driving the library.
