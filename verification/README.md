# cargo-msrv-pin

Downgrades a Cargo project's registry dependencies to the highest versions
whose declared minimum Rust version (`rust_version`) fits a given toolchain,
then checks that the project builds with it.

## Layout

- `src/` — the verified library:
  - `version.rs`: toolchain version strings, padding (`1.75` → `1.75.0`),
    semver versions and requirements (through the `semver` crate);
  - `precedence.rs`: how pre-release tags and build metadata order;
  - `metadata.rs`: the `cargo metadata` model, the incompatible packages, and
    the resolve graph read backwards (direct parents);
  - `registry.rs`: choosing the highest compatible published version;
  - `manifest.rs`: pinning a blocking requirement in `Cargo.toml` (through
    `toml_edit`);
  - `lockfile.rs`: recognising a lock file the toolchain cannot read;
  - `command.rs`: turning what a command reported into a result;
  - `downgrade.rs`: the downgrade loop as a state machine whose every step is
    proved to bring the run closer to its end;
  - `text.rs`: character-level helpers.
- `app/` — the command-line program: argument parsing, logging, running
  `cargo`, querying crates.io, reading and writing files, and driving the
  state machine.
- `tests/` — tests of the library.
