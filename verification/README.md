# sudodb

A verified library for reading records out of an in-memory object store, written in
Verus. A read selects the records of one object type that satisfy a list of filters:
comparisons on boolean, date, float, integer and string fields, membership tests on
relation fields, and nested `and` / `or` lists. Every function's result is stated in
its contract over spec functions in `src/read.rs`, and `src/laws.rs` proves properties
that hold over all records and filters.

Layout:

- `src/` — the library (Verus). Dates are read with the `chrono` crate through one
  trusted wrapper in `src/date.rs`.
- `src/json.rs` — JSON read and written through serde_json (four trusted wrappers),
  and the objects listed in a GraphQL response.
- `src/graphql_text.rs` — the GraphQL selection, query and mutation text (with its JSON
  variables) that search tests send, assembled from plain strings.
- `app/` — the part of search tests that sends GraphQL requests to a deployed canister
  and hands the responses to the library.
- `tests/` — tests that run the library, including comparisons against the standard
  library's string and float operations.

Floats are held by their IEEE-754 bit patterns (`f32::to_bits`), since the verified code
works on integers; comparisons follow IEEE-754 (NaN matches nothing, the two zeros are
equal).
