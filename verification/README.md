# soroban_drift

Detects breaking changes between two versions of a Soroban smart contract:
storage layout drift, dropped or weakened `require_auth()` checks, and
function signature changes read from the compiled module's `contractspecv0`
section.

Layout:

- `src/` — the verified library (Verus).
  - `types.rs` — the data types and their mathematical models.
  - `diff_engine.rs` — the comparison of two versions, its model, and the
    laws proved about it.
  - `report.rs` — the Markdown rendering and the exit code.
  - `spec_extractor.rs` — reading function signatures from a compiled module.
  - `syntax.rs`, `syn_bridge.rs` — the plain form of Rust source that the
    analyses read, and the walk that builds it from `syn`'s tree.
  - `rust_parser.rs`, `auth_extractor.rs`, `storage_extractor.rs` — storage
    keys, auth calls and storage writes found in the source.
  - `text.rs`, `debug_text.rs` — string building and `{:?}` renderings.
- `tests/` — tests of the library.
- `app/` — the command-line program: arguments, reading files, JSON output,
  printable errors.
