# Potsworth

Potsworth is a butler for groups that meet in sessions: he keeps a fixed tea
rota and a calendar, and answers the `/rota`, `/session` and `/potsworth`
commands. Every channel has a rota and a calendar of its own.

- `src/` is the library, verified with Verus: the rota and its calendar
  (`rota.rs`, `store.rs`), dates and texts (`date.rs`, `text.rs`), the commands
  (`request.rs`, `rota_command.rs`, `session_command.rs`,
  `potsworth_command.rs`, `registry.rs`), the models that the contracts speak of
  (`model.rs`, `reply.rs`), and what holds of them (`upkeep.rs`, `calendar.rs`,
  `rota_laws.rs`, `session_laws.rs`, `date_laws.rs`, `command_laws.rs`).
- `tests/` runs the library on concrete values.
- `app/` is the Discord bot around it: the gateway, and the JSON file in which
  the state is kept (`rota_data.json`, or what `DATA_PATH` names).

The bot reads `DISCORD_TOKEN`, and `TEST_GUILD_ID` to register its commands with
a single server.
