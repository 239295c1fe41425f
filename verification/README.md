# jabberwok

Jabberwok is a push-to-talk speech-to-text service: hold a key, speak,
release, and the transcript is typed into the focused input.

This crate holds the decisions of the program as a library verified with
Verus; each public function carries a `requires`/`ensures` contract over
mathematical models (`Seq`, `Map`, `int`), and the properties that relate
several functions stand as public proof functions (`lemma_*`).

## Layout

- `src/text.rs`: character-sequence operations (`trim`, `split`, `lines`,
  `join`, decimal and quoting) with their specifications.
- `src/cli.rs`: the command-line grammar, its parser and help text.
- `src/config/`: the configuration model (models catalog, logging, per-host
  device preferences) and the locations of configuration, logs and bundled
  resources.
- `src/devices.rs`, `src/menu.rs`: device listing and selection.
- `src/setup.rs`, `src/setup_worker.rs`, `src/setup_view.rs`: readiness
  evaluation, the doctor report, permission handling, and the first-run
  setup flow as a state machine.
- `src/daemon.rs`, `src/transcribe.rs`: the push-to-talk state machine and
  transcription decisions.
- `src/models.rs`: download bookkeeping, checksum verification and progress
  lines.
- `src/commands.rs`, `src/state.rs`, `src/logs.rs`, `src/service.rs`,
  `src/platform/`: command planning, local state paths, log retention, the
  launch agent, and platform capabilities.
- `src/xtask/`: release and packaging rules of the developer tooling.
- `app/`: the program around the library: argument handling, audio, file and
  network I/O, logging and the platform integrations.
- `tests/`: tests of the library.
