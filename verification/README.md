# liberado-tool-helper-mcp

An MCP server that fronts the mem0 memory API with five tools, each bound to
one of two isolated stores: the general store (`user_id = "openclaw"`) and the
procedural store (`agent_id = "tool_guidance"`).

Layout:

- `src/` — the verified library (Verus):
  - `config.rs`: configuration from plain values, default port, listen address;
  - `text.rs`: trailing-slash trimming, decimal text and `u16` parsing, the
    transport-name and memory-id predicates;
  - `metadata.rs`: memory metadata as a map with distinct names;
  - `request.rs`: request bodies and the two store scopes;
  - `server.rs`: the gateway (base URL and HTTP client), the request builders
    of the tools, the delete URL, and the meaning of an API answer;
  - `http_client.rs`: the HTTP client crate's types and calls the library uses.
- `app/` — the binary: environment, tracing, the MCP tool surface, and the
  HTTP exchanges themselves.
- `tests/` — tests of the library.
