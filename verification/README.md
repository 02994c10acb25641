# gqy

The verified core of GQY (顾清影), a companion agent that lives in the
terminal, a menu-bar app, QQ and Telegram. The crate holds the rules of the
program, each with a contract that Verus proves; what touches the world
(files, processes, the network, the clock) is done by `app/`.

## Layout

- `src/` — the library, one module per concern:
  - paths and layout: `paths`, `path_guard`;
  - alarms: `alarm`, `alarm_tools`;
  - backups: `backup` (settings, remotes, the backup run as a step machine),
    `backup_flow` (setup and restore plans, comment stripping, redaction);
  - chat bridges: `qq`, `qq_inbound`, `qq_turn`, `qq_events`, `qq_outbox`,
    `qq_view`, `bridges`, `bridge_setup`;
  - the model side: `llm`, `provider`, `pi_bridge`, `pi_turn`, `task`,
    `agents`, `usage`, `balance`, `finetune`, `learning`;
  - tools: `tools`, `import`, `import_manage`, `local_tools`, `memory_tools`,
    `log_reader`, `activity`, `speech`;
  - the shell and the desktop: `shell`, `menubar`, `repl_avatar`, `plugins`;
  - shared pieces: `text`, `numbers`, `json`.
- `tests/` — tests run against the compiled library.
- `app/` — the `gqy` command: reads the environment and files, calls the
  library, and prints or writes what it decides.

Laws of the library (for example that removing an installed shell hook gives
the rc file back, that a redacted configuration keeps no secret, or that the
per-model request counts add up to the total) are public proof functions next
to the functions they speak of.
