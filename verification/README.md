# vault_identity

Sign-in and device bookkeeping for a password-vault server, verified with Verus.

- `src/` decides: which account signs in, with which second factor, which tokens and cookies it is
  sent, and how its devices are noted, listed and shown. Each endpoint is a step function. It is
  given where a request stands and how the last thing it asked for went, and says what to ask for
  next or what to answer.
- `app/` does what is asked for: it runs the statements on D1, calls the server's other services and
  sends the answers.
- `tests/` runs the library with the crates that it calls.

What holds of whole requests is proved in `src/runs.rs`: tokens go only to someone who has shown the
account's password and its second factor, or a refresh token that names the account; a remember token
is stored as a digest before it is sent; a refresh token that was sent renews its account; every
request is answered after at most nine steps. What the statements do to the table of devices is
written down in `src/table.rs`, with what follows: a device that was noted is known, and noting it
again changes only the time.

The functions whose contracts are believed, not proved, stand under a "what is trusted" heading in
`src/headers.rs`, `src/codec.rs` and `src/tokens.rs`, and in `src/clock.rs`. Each names the function
that it calls.
