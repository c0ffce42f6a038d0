# httpmock mock store

The part of an HTTP mock server that stores mocks and matches requests
against them, verified with Verus.

- `src/util.rs`: `HeaderMap`, a map from header names to values, and the
  comparisons that matching uses (absent body read as empty, absent header
  map read as empty).
- `src/handlers/mod.rs`: requests, responses and the mock store with their
  abstract views.
- `src/handlers/mocks.rs`: `add_new_mock`, `clear_mocks`, `find_mock`,
  `request_matches`, the specification of matching and finding, and the
  laws proved of them.
- `app/`: serde forms of the types and the store shared behind a lock.
