# lofi

A mesh of small boxes that keep one musical timeline together and each play
part of a shared, deterministic lo-fi arrangement.

The library (`src/`) is verified with Verus:

- `clock`, `mesh` — the disciplined local clock, the peer table, root
  election and the sync engine, and the wire format of its frames.
- `transport`, `event`, `protocol` — ticks on the shared timeline, scheduled
  events, and the control frame.
- `music` — roles and the phrase-by-phrase arrangement, chord theory and
  progressions, the reviewed groove content, the packed sample catalogue,
  FLAC decoding for the packer, and the symbolic score (`music::score`): the
  session cast from a seed, the scene's voice bindings, and the drum and
  tonal lanes as symbolic events.
- `device` — one box: its sync engine, events, arrangement and roles per
  audio block, and its LCD.
- `sim` — the lab simulator's boxes, network model, statistics, WAV bytes
  and command line.
- `web` — the decisions behind the browser ABI.

`app/` holds what is not verified: the floating-point audio path (sample
playback, filters, tape and vinyl character, the per-lane mix), the
simulator's `main`, the stereo mixer, the browser ABI's entry points, the
sample packer's file handling, and the live producer thread.

`tests/` exercises the library from outside, with synthetic sample packs.
