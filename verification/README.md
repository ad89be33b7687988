# discord-echo

Discord text integration for echo-system entities, as a Verus-verified library.

`src/` holds the logic, each function with a contract that Verus proves; the one
exception is `echo::share`, a trusted wrapper around `Arc::clone`:

- `split` — cutting a message into pieces of at most 2000 characters, preferring newlines,
  with the laws that the pieces rejoin to the message, fit the limit, and end at a
  newline or the limit.
- `channel_map`, `config` — channel names mapped to IDs, and the channel and user filters.
- `client` — the REST requests that post a message, and the error texts.
- `types`, `gateway` — the gateway protocol values and the session state machine:
  connect URL, identify or resume, reconnect backoff, and what each event changes
  and asks for.
- `echo` — plugin lifecycle and health, setup questions, silent replies, and the
  chat forwarding rules.
- `tool` — the `discord_post` tool's input checks and answers.
- `text` — string equality, Unicode white-space trimming, prefixes.

`app/` runs the I/O around it: the WebSocket loop, HTTP calls, JSON (de)serialisation,
and the pulse-system plugin and tool adapters.
