# nuro

An agent SDK whose core is verified with Verus: messages and events, the agent run
as a state machine (guardrails, hooks, model calls, tool calls), state graphs with
checkpoints, conversation memory, keyword retrieval, the MCP and A2A message logic,
replay validation, and the task service of the runtime gateway (sessions, tasks,
approval, interruption, policy rules, metrics).

- `src/` is the verified library. Every public function states what it returns in
  its contract; properties that span several calls are public proof functions
  (`lemma_*`), for example in `server/lifecycle.rs`, `graph.rs`, `memory.rs` and
  `runtime/agent_loop.rs`.
- `app/` is the input/output around it: the async agent loop that performs what the
  run state machine asks for, SQLite and PostgreSQL stores, the MCP line transport,
  the A2A HTTP server and client, the OpenAI provider, the HTTP gateway, and the
  serde forms of the library's types.
- `tests/` exercises the library on concrete values.
