# okr_tracker

The domain logic of a small OKR (Objectives & Key Results) tracker, verified
with Verus, and the Cloudflare Worker that serves it.

- `src/` — the verified library:
  - `versioning` (edit / revert / burn state machine), `done` (per-version
    done flag), `authz` (authorization matrix), `code` (registration codes and
    setup secret), `ids` (references, codes, session ids, display names);
  - `webauthn` (passkey registration and assertion checks), `cbor`, `push`
    (VAPID tokens), `http` (security headers, cookies, CSRF, status codes),
    `requests` (routing and admission), `query` (listing options), `body`
    (request fields), `handlers` (the decisions of every API handler), `rows`
    (store rows), `markdown` (sanitised rendering), `ui` (web client decisions);
  - `json` (JSON text as serde_json writes it); `text`, `fmt`, `sorted`:
    string, number and set helpers.
- `tests/` — tests against the compiled library with the real outside crates.
- `app/` — the Worker: entry point, `Org` Durable Object, SQLite store,
  request flow and JSON answers; and the browser's API client with its passkey
  ceremonies. It performs the I/O and asks the library for every decision.
