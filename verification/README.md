# renderer_engine

The decision logic of a desktop Spotify playback engine, verified with Verus.
The engine keeps a play queue with shuffle, repeat and per-playlist
exclusions, follows the player's transport events, recovers from failed loads
and lost sessions, and keeps a local listening history in an append-only
journal. The functions in `src/` state in their `requires` / `ensures` what
they return or change, and Verus proves it. The exceptions are the few
functions that read a clock: they state only what holds of every reading,
and each has a twin that takes the reading as an argument and is exact.
Calls into the standard library and librespot go through small trusted
wrappers whose contracts say what those libraries document.

## Layout

- `src/planner.rs`: the queue plan. Shuffle bag, history, next/previous, moving,
  removing, adding and restoring rows, cache marks, exclusions.
- `src/eligibility.rs`: which rows automatic playback may choose, and the
  sequential walks over them.
- `src/transport.rs`: play, pause, seek, loop passes, and how player events
  and audio signals move the transport.
- `src/track_uri.rs`: which queue rows name a Spotify track, through
  librespot's URI parser.
- `src/commands.rs`: what the command loop does with a command before
  running it: which commands run without an output device, stale restores,
  re-authentication on a status request, and pacing of track changes.
- `src/recovery.rs`: what a failed load leads to (hold, retry, skip, stop),
  settled against the queue; playback health and preload targets.
- `src/session.rs`: authentication answers, reconnect backoff, output device
  loss and probing, readiness, volume and normalisation.
- `src/timing.rs`: backoff ladders, pacing of track changes, and wrappers for
  the clocks.
- `src/history.rs`: the listening history, with what counts as a play, paging
  and ordering, and the bound on what is kept.
- `src/journal.rs`: reading the journal (tagged lines, torn tails, legacy
  snapshots), idempotent import, and the write plans that persist it.
- `src/arguments.rs`, `src/follow.rs`, `src/sorting.rs`, `src/text.rs`,
  `src/model.rs`: command-line arguments, followed artists, sort keys, text
  helpers and the shared row types.
- `tests/`: tests that run the library on concrete values.
- `app/`: the program around the library: arguments and the process, the
  line protocol on stdin/stdout, and the history files on disk.
