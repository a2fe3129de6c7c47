# bookmark_hub

The logic of a self-hosted bookmark service, verified with Verus: URL
canonicalization and bookmark identifiers, tag normalization, the
sign-in rate limiter, the SQL of searches and task listings, the decisions
of the background work (retries, backoff, chunk reuse, embedding plans),
retrieval settings and token budgets for question answering, prompts,
image rewriting and the service's errors.

Layout:

- `src/` — the verified library, one module per concern. Public functions
  state in `ensures` what they return; where a result comes from an outside
  crate that cannot be named (the tokenizer, whose model is opaque and may
  sample), they state
  what holds of every outcome, and a verified function taking that outcome
  as an argument states the rest exactly. Laws that relate several
  functions are public proof functions named `law_*`.
- `tests/` — tests of the library on concrete values.
- `app/` — the server around the library: settings, database access,
  HTTP handlers, language-model clients and the background loops. It does
  the I/O and hands plain values to the library.

The server reads SQL migration files from `--schema-dir` and a tokenizer
definition from `--tokenizer-file` at startup.
