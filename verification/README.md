# casper

The core of the Casper agent platform as a library verified with Verus:
every function in `src/` carries a `requires`/`ensures` contract that Verus
proves; many of the properties that span several functions are stated as
proof functions (`lemma_*`).

## Layout

- `src/` — the verified library.
  - `scope`, `role`, `types`, `context`, `error` — tenants, subjects, roles,
    `resource:action` scopes and the errors the platform answers with.
  - `jwt`, `revocation`, `vault` — EdDSA access/refresh tokens, the revoked
    token cache, and per-tenant AES-256-GCM secrets (HKDF-derived keys).
  - `json`, `codec`, `text` — the JSON value the library reasons about, its
    exchange with `serde_json`, and string helpers.
  - `llm`, `anthropic`, `inference`, `routing` — messages and content blocks,
    the Anthropic Messages API conversion and stream assembly, the
    OpenAI-compatible endpoint, deployment routing and retry plans.
  - `tools`, `react`, `prompt`, `assembler`, `history`, `knowledge` — the
    built-in tools and the tool dispatcher, the ReAct loop's decisions, system
    prompt assembly, history selection within a token budget, and document
    chunking.
  - `registry`, `wire`, `run`, `audit` — agent-backend connections and the
    actor table, the agent WebSocket protocol, run replies, and audit batching.
  - `connection`, `mcp_connection`, `training`, `requests` — the OAuth
    connection flow, MCP connection records, training export and request
    parameters.
- `tests/` — tests of the library on concrete values.
- `app/` — the unverified edge: environment and file reads, serde copies of
  the request and wire types, and the HTTP token response.

Calls into outside crates (`jsonwebtoken`, `aes-gcm`, `hkdf`, `sha2`,
`base64`, `rand`, `uuid`, `zeroize`, `hex`, `serde_json`) go through small
trusted wrappers whose contracts state what those crates document.
