# kovi

The core of a OneBot V11 bot framework, verified with Verus: messages and their segments,
CQ codes, the events a OneBot server reports, the bot's plugins, administrators and access
lists, the requests a bot sends, and the routing of events and replies.

## Layout

- `src/` — the verified library.
  - `json.rs`: JSON values and their mathematical model; objects keep their keys in key order.
  - `message.rs`, `cq.rs`, `lagrange.rs`: messages, CQ strings, forwarded-message nodes.
  - `event.rs`: message and request events read from JSON.
  - `bot.rs`: configuration, plugins, administrators and access control.
  - `handler.rs`: routing of reports, listeners and the event loop's steps.
  - `registry.rs`, `task.rs`: maps keyed by text (awaited replies, tasks per plugin), cron patterns.
  - `api.rs`, `onebot.rs`: requests to the server and what is read from their replies.
  - `default_plugin.rs`: commands and answers of the built-in administration plugin.
  - `project.rs`: the kovi version and `Cargo.toml` lines of a new bot project.
  - `text.rs`, `utils.rs`, `error.rs`: text helpers, pskey, errors.
- `tests/` — tests on concrete values.
- `app/` — the runtime around the library: configuration files, WebSocket connections,
  the event loop, the handle that plugins send requests through, the built-in plugin, a
  logger, and the `new`/`add` project commands.
