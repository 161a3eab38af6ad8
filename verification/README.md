# Orbflow

The rules of the Orbflow workflow engine's moving parts, written and proved in
Verus. Each decision that the engine takes is a function of plain values with a
contract; the program around it performs the I/O.

- `src/` is the verified library.
  - Messages: `subjects`, `wire`, `wire_json`, `natsbus`, `trigger`.
  - Execution: `workflow`, `execution`, `saga`, `manager`.
  - JSON-RPC: `frame`, `rpc`.
  - HTTP: `http`, `middleware`, `ratelimit`, `crypto`.
  - Outgoing requests: `weburl`, `ssrf`, `ssrf_resolver`, `credential_proxy`,
    `transport`, `mcp_tool`.
  - Budgets: `budget`, `time`.
  - Shared: `text`, `json`, `named`, `lists`, `error`.
- `tests/` runs the library on concrete values.
- `app/` connects it to TCP, HTTP, NATS and PostgreSQL.

What the library promises as a whole stands in the public proof functions whose
names start with `law_`. What it believes of other crates without proof stands in
the functions marked `external_body`, in the two `assume_specification` items of
`text`, and in the two declared types; each says in its doc comment what it claims.
