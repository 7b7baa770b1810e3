# photon_backend

Verified backend of the Photon operations console: the id validation, href
encoding, DTO mapping, dashboard aggregates, list filters and read decisions
behind the `/photon` ops pages, written in Verus with their contracts proved.

- `src/` — the library; every function carries a `requires`/`ensures`
  contract, and the `law_*` proof functions state properties that span calls
  (encoding round-trips, trimming, sort stability, cut-off monotonicity).
- `tests/` — executable checks of the contracts on concrete values.
- `app/` — host glue: serde shapes of the DTOs, clock reads, and the Photon
  reads whose results `photon_backend::ops` decides on.

Run `verus` on `src/lib.rs` to check the proofs.
