# wasm_slim

Size analysis for Rust projects that build to WebAssembly: heavy dependencies
and their lighter alternatives, unused feature flags, panic sites, embedded
assets, `cargo bloat` and `twiggy` reports, size budgets and build history.

## Layout

- `src/` — the library, verified with Verus. Every public function states what
  it returns in its contract; the laws of the library (budget statuses grow
  with size, a larger asset never gets a lower priority, a twiggy row that
  twiggy writes parses back to itself, the build history keeps the newest
  hundred records first, ...) are public proof functions.
  - `text.rs` — the string toolkit the parsers are built on (trimming,
    splitting, decimal notation, number and float-literal syntax), each
    operation specified over `Seq<char>`.
  - `analyzer/` — dependencies, features, panics, assets, allocator advice,
    `cargo bloat` and `twiggy` output, and the fixes of `Cargo.toml`: their
    plans, and carrying them out on the manifest's text with `toml_edit`
    (`manifest.rs`).
  - `cicd/` — size budgets and build history.
  - `bench_tracker/` — benchmark figures and their presentation.
  - `cmd/` — what the `analyze`, `build` and `compare` commands decide.
  - `clock.rs` — the system clock, behind a stated contract.
- `app/` — the `bench-tracker` program and everything that talks to the
  outside world: `cargo metadata`, `cargo tree`, `cargo bloat`, `twiggy`,
  parsing Rust sources with `syn`, reading and writing `Cargo.toml` (with a
  backup),
  JSON files, console output, and the floating-point percentages.
- `tests/` — tests of the library.
