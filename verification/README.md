# coccinella-agent-sdk (verified)

A minimal agent runtime whose decisions are proved with Verus.

- `src/` is the verified library: the error type and its messages, the
  provider and message types, the scripted backend, the request/answer
  logic of the Ollama backend, reading tool calls from a reply, the
  `run_command` clean-up, shape-checked argument reads, tool dispatch, and
  the agent loop as a state
  machine (`Agent::start`, then `Agent::step` with each model reply until
  `Step::Done`). Laws of the loop and of the scripted backend are proof
  functions next to the code they speak of.
- `app/` is the I/O around it: the async `ChatBackend` trait, the HTTP
  client for a local Ollama daemon (`reqwest`), a thread-safe handle on the
  scripted backend, the error type with `thiserror` display, serializable
  wire copies of `Message` and `ChatRequest`, and the async `run` driver.
- `tests/` exercises the library from outside.
