# awspm

A verified core for an AWS profile manager: it merges the profiles of the
AWS config and credentials files and the environment with tags, aliases,
notes and region overrides kept in a YAML metadata file, and decides what
the commands `sync`, `list`, `search`, `switch`, `pin`, `exec`, `env`,
`current` and `update` do.

- `src/` is the library, written and proved with Verus. Its contracts are
  stated over mathematical views (`Seq`, `Set`, `Map`) of the types, and
  `src/laws.rs`, `src/sync.rs` and `src/pin.rs` hold the properties that
  relate several operations (what a save gives back, what a sync leaves,
  pinning twice).
- `app/` is the command-line program around it: argument parsing, files,
  the terminal, and subprocesses.
- `tests/` runs the library on concrete inputs.
