# agent_protocols

The core of the Agent Identity, Agent Profile, Agent Delegation and Agent
Discourse protocols, written in Verus. The library's functions carry contracts
that Verus proves, apart from two kinds: the small wrappers around calls into
outside crates and std (hashing, Ed25519, base64, JSON, JSON Schema, URLs,
randomness, the clock), whose contracts are trusted and say which outside
function each one calls; and the few functions whose result is random or opaque
(a freshly generated signer, a verifying key), which promise nothing of it.

## Layout

- `src/` — the verified library.
  - `identity` — `did:agent:` identifiers, event hashes and signatures, nonce
    checks, request JWTs.
  - `profile` — `profile.update` events, validation and materialization.
  - `delegation` — principal documents, grants and revocations, the authority
    rule, credentials and their use.
  - `discourse` — room events, the type registry and pack imports, role and
    state permissions, server records and their chains.
  - `local_connector` — the tool catalog and its dispatch, views, the inbox,
    the intake of server records (checks, the room-head rule and room
    projection), timeline and member reads, listings of rooms, drafts and
    join requests, and the decisions of joins and held-draft commits.
  - `http_client` — query strings and endpoint URLs of the services.
  - `json_text` — writing JSON objects, arrays and strings, from which the
    profile and delegation payloads write the text their signatures cover.
  - `codec`, `crypto`, `schema`, `text` — encodings, hashing and Ed25519,
    JSON Schema checks and text helpers; the calls into outside crates stand
    here, each with the contract it is trusted to meet.
- `tests/` — tests of the library on concrete values.
- `app/` — the networked side: serde wire formats, the HTTP clients, the
  connector's room and inbox state around the library's record intake, and
  error reporting.
