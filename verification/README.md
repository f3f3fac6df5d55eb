# depot

A developer disk-space reclaimer and shared package store: it finds what
quietly eats gigabytes (`node_modules`, virtualenvs, package-manager caches,
ML models, build artifacts), groups it by category and sends what you pick to
the Recycle Bin; and it routes pnpm (Node) and uv (Python) through one shared
store, so `depot run`, `depot ensure` and `depot hub …` assemble a project's
dependencies on demand.

## Layout

- `src/`: the library, verified with Verus.
  - `scan/`: categories, found items, the filter every finding passes
    through, the scan plan, the walk's decision for each directory and the
    aggregation of small caches (`walk`), the well-known locations (`known`).
  - `report`: largest-first ordering, the grouped table and the JSON rows.
  - `tui`: the interactive view's state (rows, layout, cursor, ticks,
    filters, deletion) and the text of every cell it draws.
  - `run`, `hub`: `run`/`ensure` and the `hub` commands as state machines:
    the caller performs each step and answers it.
  - `project`, `cli`, `util`, `text`, `paths`, `order`: ecosystems and
    steps, command-line options, sizes and ages, text helpers, path
    components, stable sorting.
- `app/`: the `depot` program around the library: argument parsing, the
  terminal, the file system, launching pnpm and uv, the JSON/TOML files.
- `tests/`: tests of the library on concrete values.
