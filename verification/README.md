# ghost_commands

The commands of a background task runner, with their behaviour stated in contracts and
proved by Verus.

The library decides; it never acts. Each command (`spawn`, `list`, `log`, `stop`, `restart`,
`status`, `cleanup`, `tui`) asks for one thing at a time, such as storing a task or killing a
process group, and goes on with the reply.

- `src/protocol.rs`: requests, replies, steps, and what a whole run is.
- `src/spawn.rs`, `list.rs`, `log.rs`, `stop.rs`, `restart.rs`, `status.rs`, `cleanup.rs`,
  `tui.rs`: one command each, with its laws.
- `src/lookup.rs`, `shell.rs`, `status_filter.rs`, `excerpt.rs`, `stored.rs`: the rules that
  commands share.
- `src/text.rs`, `task.rs`, `error.rs`: texts, tasks and errors.
- `app/`: carries the requests out, over a task store, a process layer and a terminal that
  are handed in through traits.
- `tests/`: runs of every command, and the rules on concrete values.

What is taken on trust is small: that `String::push` appends, and what `serde_json::from_str`
makes of a text (`src/stored.rs`).
