# agent_platform

The logic of an LLM agent platform, written in Verus and proved against its
contracts.  Before a prompt reaches the language model, the agent tries its
tools: addition and subtraction of the first two integers of the prompt, a
calculator for `calc <expression>`, and a memory tool that recalls the last
prompt.  The HTTP server around it stores every exchange in SQLite and asks
an Ollama server when no tool applies.

Layout:

- `src/` — the verified library.
  - `text.rs`: Unicode whitespace, word splitting, trimming, substring search.
  - `number.rs`: decimal integers read as `str::parse` reads them and written
    as `Display` writes them, with the proof that one undoes the other.
  - `calc.rs`: the calculator: tokens, recursive descent into reverse Polish
    notation, a stack machine, and the proof that the postfix program computes
    the value of the expression.
  - `agent.rs`: the tools, the router that picks one, and the agent.
  - `json.rs`: JSON string literals, with the proof that they read back.
  - `api.rs`: the decisions of the HTTP API, including the steps of a chat turn.
  - `storage.rs`: runs and the rows they are stored as.
  - `model.rs`, `config.rs`: the model gateway's prompt and status handling,
    and the server's settings.
- `app/` — the server: axum routes, SQLite through sqlx, the Ollama client,
  and the `rig` tool definitions.  It performs the I/O and calls the library
  for every decision.
- `tests/` — tests of the library on concrete values.
