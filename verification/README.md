# oispa_halla_analytics

Analytics for recorded games of 2048 (Oispa Halla): a web server that records
games and hands them out, and an analyzer that merges data files, keeps the
games that validate, stores them with their moves and validation data, and
tabulates move frequencies and scores.

- `src/` is the verified library (Verus): the recordings the game engine
  can be handed without failing hard (`engine_input`), the engine's results
  behind trusted wrappers (`libproxy`), the merging and filtering of data files
  (`io`, `filter`), the analyses (`analyzer`), and the server's decisions
  (`server`).
- `app/` runs the server (poem, sqlx) and, with the argument `analyzer`, the
  analyzer; it performs the I/O and renders the floating-point shares.
- `tests/` exercises the library with the real engine.
