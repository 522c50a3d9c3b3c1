# amari_discovery

Bounded, read-only discovery of what a project uses of the Amari libraries:
Cargo manifests and lockfiles, npm packages, TypeScript sources, Rust
comments and vocabulary, and Cargo platform configuration. Results are
deterministic snapshots with framed SHA-256 provenance hashes, written as
newline-delimited JSON.

## Layout

- `src/` is the library, verified with Verus. Each public function states in
  its contract what it returns, usually as an exact spec function, and the
  laws of the library are public proof functions (`lemma_*`).
- `app/` is the command-line program around the library: directory walks,
  file opening and reading, and JSON rendering.
- `tests/` holds the tests, which run the library with its outside crates.

Calls into outside crates (`sha2`, `hex`, `toml`, `serde_json`, `syn`) and a
few `std` functions stand behind small trusted wrappers whose contracts say
what the crates' sources and documentation show.
