# engine

Building blocks for small raylib games, with their behaviour stated in
contracts and proved with Verus.

- `src/` — the verified library:
  - `ecs` — entity component system bookkeeping: entity identifiers and
    uuids, component type registration and signatures, the entity sets of
    systems, and the world managers that keep them in step;
  - `ecs_thread` — the same bookkeeping for systems that run in threads;
  - `command` — commands and an undo/redo stack;
  - `observe` — subjects and observers;
  - `event` — events and the routing table of the event broker;
  - `assets` — an asset cache;
  - `ringo` — a seeded pseudorandom generator and integer hashes;
  - `platform_compat` — path helpers.
- `app/` — the game and what the verifier cannot take: typed component
  storage, systems driven with frame times, threads and channels, RON
  serialisation, float draws from the generator, file loading.
- `tests/` — tests of the library.
