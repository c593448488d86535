# sentinel_core

The rules of Sentinel, a UTXO-based central bank digital currency, written in
Verus and proved against their contracts.

- `src/` is the verified library: coin selection (an exact match first, else
  largest first), the atomic UTXO transfer plan, minting, wallet
  defragmentation (dust merged into one token) and its history records, the
  audit proofs that chain every transfer, mint and merge, the kill switch and freeze rules, the per-client
  rate limiter, the session gate (bearer tokens bound to a device), input
  validation and sanitisation, CAPTCHA tokens (AES-256-GCM over JSON),
  password hashing, session tokens (HS256), audit proofs (SHA-256), security
  headers, SQL script splitting, port settings and the UDP discovery reply,
  and the decisions of the HTTP handlers (request checks, login, the
  diagnostics report and its summary). Calls into outside crates sit behind
  small trusted wrappers whose contracts say what the crate's source shows.
- `tests/` runs the library on concrete values.
- `app/` is the server around it: configuration from the environment, the
  PostgreSQL pool and queries, the axum router and middleware plumbing, JSON
  bodies, the UDP socket, and logging. It hands the library plain values and
  performs the writes that the library plans.

Laws proved in `src/` include conservation of value in transfers and
defragmentation, the round trip of
the kill-switch setting, the freeze rule, the rate limiter's bound per window,
the CAPTCHA issue/verify round trip, device binding of session tokens, that a
hashed password verifies, that a generated audit proof verifies and that a
modified record fails it (barring a SHA-256 collision), that sanitizing is
idempotent and ignores surrounding white space, that an advertised port parses back, and
the consistency of the diagnostics summary.
