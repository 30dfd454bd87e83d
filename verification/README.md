# codeg

Agents that run as command line programs, brought to viewers, to chats and to a
platform: the parts of codeg that decide, verified with Verus.

## The library

`src/` holds plain values and decisions. Each function states in its contract what
it returns or changes, over a mathematical view of its arguments. What belongs to
several functions stands as a public proof function beside them.

- `text`, `json`, `paths`, `ids`, `table`, `digest`: the ground the rest stands on.
- `cli`: the agents' streams (`stream_json`, `dsh_stream`, `codex_stream`) become
  events; the pumps (`driver`, `dsh_driver`, `codex_driver`) take the inputs of a
  turn one by one and say what to do; `turn` records and completes it.
- `chat`: replies as Telegram HTML (`tg_html`), in messages that fit (`composer`),
  written while a turn runs (`turn_relay`).
- `handlers`: requests of the web server, running commands and background tasks, the
  MCP endpoint, metrics.
- `commands`: installed skills, the platform's route and its uploads.
- `replay_gate`, `events`, `errors`, `agents`, `tool_description`, `image_pins`.

The turn pumps, the relay of a turn to a chat, the replay gate and the installation
of skills are state machines: an input goes in, the effects to perform come out.
Nothing in them waits, reads or writes.

## Around it

`app/` performs what the library decides: processes, files, HTTP, Telegram and the
clock. It is not verified. `tests/` runs the library.

What the library takes from other crates (JSON, YAML, regular expressions, Base64,
SHA-256, UUIDs, shell words) is called through small functions whose contracts are
believed; the doc comment of each says what it claims.
