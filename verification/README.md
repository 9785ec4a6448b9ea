# lanyte-verify

A library for verifying the outcomes of tool executions at agent runtime: a
common result model, a registry of verifiers by operation, and built-in
strategies for written files, JSON output and HTTP artifacts. The library is
written in Verus, and what it does is proved.

## Layout

- `src/` is the verified library.
  - `text`, `double` and `json` hold the data: texts, double-precision numbers
    by their bit patterns, and JSON values with their models.
  - `path` finds fields, `schema` checks values against a small part of JSON
    Schema, `constraint` applies constraints, and `outcome` puts results
    together.
  - `verifiers` holds the `Verifier` trait and the three built-in verifiers,
    `registry` the registry.
  - `laws` states what holds of all of these together.
- `tests/` runs the library.
- `app/` is ordinary Rust around it: the types as serde reads and writes them,
  reading files, asking servers, and everything that needs floating point.

## What is not proved

Quoting a JSON string and showing an integer as a double is done by
`serde_json`, the line diff by `similar`, and the words of a status code come
from `reqwest`. Their contracts stand where they
are called and say what is relied on. Time is read from the clock of std.
