# incr

A small pull-based incremental computation engine, verified with Verus.

Inputs are set by the user and carry the revision (`Epoch`) at which they last
changed; writing a value equal to the stored one keeps the old revision.
Queries are memoized in a `MemoTable` together with what they read. Asking for
a query serves its memo when it was confirmed at the current revision, reuses
an older memo when validation finds that nothing it (transitively) read has
changed, and otherwise recomputes it; a recomputed value equal to the old one
keeps the old memo's revision (Eq cutoff). Asking for a query that is being
computed is reported as a cycle.

Queries take the database by `&mut`: the memo table, its counters and the
stack of running queries are plain fields that a query updates, with no
interior mutability. A computation still only reads inputs: input writes go
through `MemoTable::begin_write`, which refuses them while a query is being
computed. A database is a `Db<I, V>`: the user's inputs `I` beside a
`MemoTable<V>`, so a struct deriving `Db` holds only inputs and needs no
`memo` field. `execute_query` leaves everything outside the memo table as it
was, apart from what the query's own computation does.

Layout:

- `src/ids.rs`: revisions and the identities of inputs, queries and
  dependency edges.
- `src/inputs.rs`: `InputTable` and `InputField`, with the write rule and its
  laws.
- `src/db.rs`: `Memo`, the `MemoTable` (memos, input revisions, counters and
  the stack of running queries), the `Database` trait and `Db`.
- `src/graph.rs`: the dependency graph as the specifications see it: walks,
  settled memos, reachable changes and cycles.
- `src/validate.rs`: validation of a cached tree; it answers `Clean` exactly
  when no stale memo and no cycle is reachable from the root.
- `src/consistency.rs`: what a served memo is worth: when the table agrees
  with the values a fresh database computes, a hit or a validated reuse
  serves exactly that value, and a reuse keeps the agreement.
- `src/runtime.rs`: the pre-compute plan, the Eq cutoff, the two steps of a
  query (`begin_query`, `finish_query`), `execute_query` and the laws that
  relate them. A cycle is returned as `CycleError`; after catching a panic
  out of a query, `MemoTable::unwind_to` drops the abandoned frames.
- `src/shape.rs`: the rules behind `#[derive(Db)]` and `#[query]`: accepted
  structs and signatures, their errors, input and key shapes.
- `app/`: a demo program and the code generation behind `#[derive(Db)]` and
  `#[query]`, which reads `syn` syntax trees into the `shape` rules and emits
  tokens.
