# openagents

An agent workbench: conversations with language models (Anthropic Messages and
OpenAI Responses), a tool layer the agents call, multi-agent tasks with
handovers, scheduled runs, skills read from disk, and a small web API.

## Layout

- `src/` is the verified library (Verus). It holds the logic with contracts:
  message replay and conversion between the two model protocols
  (`transform`, `anthropic`, `responses`), the two streaming state machines
  (`anthropic_stream`, `responses_stream`, `legacy_responses`), JSON repair and
  partial parsing (`json_parse`, `json_value`), tool-call ids and hashing
  (`tool_ids`, `hash`), the tool commands (`tools`, `commands`), the task
  round rules (`task_loop`, `conversation_flow`), skills (`skills`), the
  database schema plan (`db_schema`) and the web rules (`web_rules`).
- `app/` is the program around it: the HTTP server, the database, the model
  HTTP clients, the scheduler and file access. It calls the library for every
  decision.
- `tests/` exercises the library on concrete values.
