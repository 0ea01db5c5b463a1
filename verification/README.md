# nulctl

Operator CLI for nulnet agents: a terminal dashboard of server telemetry (usage charts, Docker
containers, older history loaded on demand), a server picker with a saved history, agent
self-update with a streamed log, and scripting subcommands (`telemetry`, `update`, `version`,
`servers`).

Layout:

- `src/` is the library, verified with Verus: telemetry merging and older-history planning, the
  chart window and panning, the Docker panel, key bindings, the picker, dashboard and log-view
  state changes, reconnection decisions, authentication replies, markup rendering, version
  comparison, the connection history, and the text helpers they use. Calls into `colored`,
  `ed25519-dalek`, `hex` and `serde_json` stand behind small trusted wrappers whose contracts are
  documented where they are declared.
- `app/` is the program around it: the command line (`clap`), the agent connection (`tokio`,
  `ssh`), files under the configuration directory, `curl`, and drawing with `ratatui`.
- `tests/` exercises the library.
