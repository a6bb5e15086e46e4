# home_llm_bot

A Telegram bot for a family's home: it answers chat and voice messages with a
local LLM (LM Studio) and acts on Home Assistant through the tools the LLM
asks for; voice notes are transcribed by Whisper.

## Layout

- `src/` — the verified library (Verus).
  - `orchestrator.rs`: the agentic loop as a step function (`AgentTurn`):
    from the outcome of the last action to the next action (call the LLM, run
    a tool, save a message, finish). The LLM is called at most
    `MAX_TOOL_ITERATIONS + 1` times per message; the last call goes without tools.
  - `state.rs`: the conversation (messages, mode, context window).
  - `plugins/`: tool definitions and the registry that dispatches calls;
    Home Assistant (REST and MCP), LM Studio and Whisper requests and answers.
  - `telegram.rs`: commands, sender names, cutting long replies into messages.
  - `config.rs`, `error.rs`, `json.rs`, `text.rs`: settings, errors, JSON
    documents, text helpers.
- `app/` — the program around it: HTTP, SQLite, Telegram, the async loop that
  performs the actions the library names, and the floating-point settings.
- `tests/` — tests of the library.
