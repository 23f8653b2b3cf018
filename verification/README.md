# proxy_crab_mitm

The capture rules of a man-in-the-middle HTTP(S) proxy, written in Verus and
proved against their contracts.

- `src/` is the verified library: header and tag maps kept in key order, the
  interceptor state that scripts change and its modification journal, the
  special request tags, the hop-by-hop and binary-header rules, body pumping,
  pacing and capture settlement, routing decisions, breakpoints with their
  hard cap, the in-memory system log, Session and interceptor-chain rules,
  workspace migrations, asset naming, the Lua codec limits and the JSON
  codec's key, value, order and warning rules, and the stored names of stages,
  origins and outcomes, the proxy's lifecycle and connection cap, the CONNECT
  and TLS-handshake decisions, the order of an interceptor chain's steps, and
  asset uploads' size and digest. Calls into `base64`, `hyper`, `sha2`,
  `mlua`, `flate2`, `brotli`, `zstd` and `serde_json` stand behind small
  trusted wrappers whose contracts are stated beside them.
- `app/` holds what needs I/O or the Lua interpreter: the `tracing` layer that
  feeds the system log, the workspace's JSON files, the JSON forms of the
  records, and the Lua engine that runs scripts under the library's rules.
- `tests/` exercises the library from outside.

The crate decides; it does not serve. Outside its scope are the proxy's
accept loop and per-connection serving, the certificate authority that signs
per-host certificates, the SQLite stores of captures and bypass rules, asset
file I/O, the task that owns the listener, the pool that bounds blocking
queries, and the objects that hand compiled filter and column scripts to a
web API. What those parts decide is here: `lifecycle`, `connect`, `chain`,
`capture_flow`, `body_flow`, `asset` and `scripting`.
