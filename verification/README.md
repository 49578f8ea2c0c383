# antikythera

The logic of the Antikythera agent framework as a library verified with
Verus: session-scoped logging, the agent's state machine and step
processing, the session store and streamed turns of the WASM agent runner
(preparing a turn, streaming and committing the model's answer, events and
counters for the host), rate limiting, tool name and JSON schema validation,
the JSON Schema of a struct's fields, the JSON-RPC decisions of the MCP
transports, the HTTP transport's mode decision and the builtin in-process
transport, the role mapping and failure decisions of the model providers, how a
WebAssembly agent's packed result is located in its memory,
hook precedence, task orchestration and audit records.

Layout:

- `src/` — the verified library; every public function carries a contract
  over spec models (`Seq`, `Map`, views of the library's types), and the
  properties that span functions are stated as proof functions (`lemma_*`).
- `tests/` — tests of the library on concrete values.
- `app/` — what Verus does not take: process-wide registries, `serde`
  encodings (JSON, Postcard), asynchronous retries and background tasks,
  and the handlers of the builtin transport.
