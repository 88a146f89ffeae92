# strife

The storage and ingestion rules of a self-hosted file archive, verified with
Verus.

- `src/` is the verified library: folder rules, email thread and duplicate
  grouping, the job queue lifecycle and claim order, backfill campaign
  transitions and refills, resumable uploads, watched-folder imports, trash
  and favorites, and the bounds every request is held to. Every public
  function carries a contract; the properties that span several functions
  are proof functions named `lemma_*`.
- `app/` is the PostgreSQL and filesystem layer. It runs the queries and the
  directory walks, and asks the library for every decision between them.
- `tests/` exercises the library on concrete values.

The only outside calls the library makes are UUIDv5 derivation (through the
`uuid` crate) and `str::trim`; both sit behind small trusted wrappers whose
contracts are stated next to them.
