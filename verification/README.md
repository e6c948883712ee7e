# ploy_clean

Adaptive sampling of Polymarket price histories, with its decision logic verified in Verus.

- `src/` — the verified library:
  - `sampling/planner.rs`: the sampling plan that splits a timeline into sparse, dense and
    medium stretches around change points (proved to cover the whole timeline, with one dense
    window per change point);
  - `sampling/detector.rs`: the sliding-window walk of change-point detection and the merging
    of nearby change points (stable time order, merged points half a window apart);
  - `sampling/strategy.rs`: sampling levels, interval lengths (`Span`) and the per-level intervals;
  - `sampling/adaptive.rs`: which prices an adaptive sampling run fetches and keeps, and how
    they are put together with the coarse history (coarse prices inside a change-point
    window left out);
  - `api/`: request paths, the retry/backoff discipline, and the Gamma keyword search over pages;
  - `models/`: market records, their normalization and the ETL market selection;
  - `utils/`: timestamp alignment and formatting, substring search, word splitting and
    decimal rendering;
  - `cli.rs`, `config.rs`: command-line commands and configuration defaults.
- `app/` — the `ploy-clean` program: HTTP (reqwest/tokio), SQLite (rusqlite), TOML configuration,
  the command line (clap), and the floating-point statistics (volatility, Z-score tests,
  interval smoothing), which the verifier does not take.
- `tests/` — tests of the library.
