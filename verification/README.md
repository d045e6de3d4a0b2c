# anypost

A client for the Anypost email API whose decision-making core is verified
with Verus.

- `src/` is the verified library: webhook signature verification, the
  classification of error responses, the retry policy and backoff ceilings,
  request headers (with automatic idempotency keys), path encoding, URLs and
  query strings, client configuration, and the typed builders for messages
  and list parameters. Calls into `hmac`, `sha2`, `hex`, `subtle`, `base64`,
  `fastrand`, `reqwest` (URL parsing) and `serde_json` stand behind small
  trusted wrappers whose contracts are documented where they are declared.
- `app/` is the async client around it: the `reqwest` transport, the Tokio
  sleeper, the request loop that performs attempts and sleeps, the resources,
  the blocking client, the JSON forms of the builders, and the error type
  (which carries a floating-point `Retry-After`).
- `tests/` exercises the library on concrete values.
