# switchyard

Routing for language-model traffic: which model serves a turn, what goes out to
it, and what its replies mean. The rules are executable Rust with contracts that
Verus proves; the calls themselves are made around them.

- `src/` is the verified library.
  - `stage_router`, `handoff_notes`, `tier_prompts`, `stage`: routing by the tool
    results of a coding agent, with notes and prompts for the model that is picked.
  - `llm_class`, `escalation`: routing by a judge model, before a call or after it.
  - `anthropic`, `backend`, `sse`: the Anthropic Messages backend.
  - `protocol`, `target`, `state`, `classification`: what the routers work on.
  - `binary`, `text`, `json_text`: numbers by their bits, texts by their
    characters, and JSON values.
- `tests/` runs the library on concrete values.
- `app/` runs it: async calls, HTTP, the environment, serde, floating point, and
  the prompt of the escalation judge.

Laws that relate several functions are the proof functions named `law_...`.
