# blue_fire_splitter

The decision logic of a LiveSplit auto splitter for the game Blue Fire,
written in Verus and proved against its contracts.

- `src/` — the verified library:
  - `splitter.rs`: the per-tick state machine (which checkpoints a run
    reached, the watchers of the game's values) and the timer commands it
    decides; laws on every decision (a checkpoint splits at most once between
    resets, only when enabled, resets clear everything).
  - `splits.rs`: checkpoint numbers and the maps from shrine ids, event names
    and streamed chunks to checkpoints.
  - `watcher.rs`: the two-value watcher that notices changes.
  - `utf16.rs`: strict and lossy UTF-16 decoding, with both round-trip laws
    (decoding an encoding, and encoding a successful decoding).
  - `text.rs`: the completion text (`12.34%`) and string helpers.
  - `jujstme_string.rs`: .NET string objects in the game's memory.
  - `offsets.rs`, `splitter_settings.rs`: pointer paths and settings.
- `app/` — the host side: attaching to the game, reading its memory, the
  settings page, and performing the timer commands.
- `tests/` — tests of the library, including comparisons with std's UTF-16
  decoding.
