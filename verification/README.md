# cs2_gsi

Counter-Strike 2 Game State Integration: a listener for the JSON documents
CS2 posts about a live match, a diff engine that turns consecutive snapshots
into typed events, a generator for `gamestate_integration_*.cfg` files, and
Steam library discovery.

## Layout

- `src/` — the library, verified with Verus:
  - `model/` — the game-state model (floating-point readings kept as their
    IEEE 754 bit patterns), `strmap` — a string-keyed map kept in key order,
    `snapshot` — content equality and exact copies;
  - `handlers` — the diff engine, with the laws it keeps (every event is a
    real change, the new state comes first, a kill-feed entry pairs a kill
    with a death of the same window, ...);
  - `dispatcher` — which handlers an event reaches, and in which order;
  - `listener` — how a request is answered, the start/stop lifecycle, and
    the bind-retry plan;
  - `cfg` — the cfg file text; `steam` — the Valve KeyValues parsers, the
    discovery decisions and the registry's UTF-16 text; `numbers` — numbers
    sent as text; `text` — character-level helpers.
- `app/` — what touches the outside world: serde parsing, the hyper/tokio
  server, the file system and the registry, and the error messages.
- `tests/` — tests of the library.
