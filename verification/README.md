# avm

The verified core of a host-owned instrumented virtual computer: the evaluator's
policy and evidence rules, display reconstruction and temporal perception, browser
evidence and failure diagnosis, experience queries, the workspace gate and repository
fingerprints, run checks and remote publication.

- `src/` is the library. Every function there is verified by Verus against its
  `requires` / `ensures`; the few calls into outside crates (SHA-256, PNG, UUIDs, the
  clock, UTF-8 decoding, quoting a text as `{:?}` does) stand behind small trusted wrappers whose doc comments say
  what is assumed of them.
- `tests/` runs the library on concrete values.
- `app/` is the command line around the library: it reads the tree, Git and the
  timeline database and hands plain values to the library.
