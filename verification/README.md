# bw_scripting

Scripting support for a space game, as a verified library: the rules by which game scripts
are registered, scheduled, dispatched, validated and debugged, with their contracts proved.

## Layout

- `src/` — the library. Every executable function carries a contract that Verus checks.
  - `coroutines/` — scripts that yield and resume: the scheduler, its wake-ups and ticks.
  - `events/`, `actions/`, `handlers.rs`, `behaviors/` — registries of script handlers and the
    dispatchers that pick which handler runs and read what it returns.
  - `debug/` — breakpoints, sessions, and the stepping decisions made while a script runs.
  - `persistence/`, `transaction.rs`, `data.rs` — stored script state, queued mutations, game data.
  - `schema.rs`, `validation/` — action schemas and the functions a script must define.
  - `state.rs`, `ships.rs`, `overlay.rs` — permissions and the changes a script queues, which
    it reads back before they are applied.
  - `archetypes/` — ship, weapon, ability and effect archetypes.
  - `maps.rs`, `text.rs` — insertion-ordered maps and character-level string helpers.
  - Public `law_*` proof functions state what holds across calls (a load after a save gives the
    data back, rollback restores the queue, cancelling undoes a spawn, and so on).
- `tests/` — tests run against the compiled library.
- `app/` — the host side: the Rhai engine and the functions registered on it, thread-local
  state, file storage, and the parts that compute with floating-point values.
