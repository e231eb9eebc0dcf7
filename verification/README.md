# chromium_mcp

A verified core for an MCP server that drives one shared headless Chrome
tab over the Chrome DevTools Protocol.

- `src/session.rs` — the shared browser session as a state machine: each tool
  call becomes a run of browser commands (launching Chrome lazily when no
  session is open), each command's outcome decides the next step, and
  failures turn into the tool's error message.
- `src/laws.rs` — what holds of whole calls and across calls (lazy launch,
  successful and failed calls, session reuse, closing).
- `src/flags.rs` — splitting the `CHROME_FLAGS` value into flags.
- `src/params.rs` — the tool arguments and the call each tool makes.
- `src/replies.rs` — the tools' answer texts, screenshot file names, and
  Base64 encoding of binary answers.
- `app/` — the program: argument parsing, the MCP transports (stdio and
  streamable HTTP) and the chromiumoxide calls that perform each command.
