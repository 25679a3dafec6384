# epoch_indexer

Indexing and pruning of per-epoch data, with the decisions verified in Verus.

- `src/` is the verified library.
  - `checkpoint`, `encoding`, `cast`, `error`: what the pipelines read of a checkpoint, its binary
    encoding, how numbers are stored, and what can go wrong.
  - `epoch_ends`, `epoch_starts`: the rows that the last checkpoint of an epoch gives rise to.
  - `epoch_filter`: which rows go when checkpoints are pruned.
  - `watermark`, `pending`, `pruner`, `prune_task`: the pruner as a state machine, from what
    happened to what to do next, and each of its attempts to prune a range.
  - `logging`: how loudly progress is traced.
  - `rounds`: what holds of each round of the pruner.
  - `laws`: what the pruner guarantees over many rounds. Above all, every checkpoint from the
    watermark that the pruner first found up to the one that is now in the database has been pruned,
    in whatever order attempts end and whichever of them fail, no range that was pruned is pruned
    again, and no more attempts are under way at a time than are allowed.
- `app/` drives the library against a Postgres database.
- `tests/` runs the library.

Of the `bcs` crate are trusted: `from_bytes` for twelve integers, `to_bytes` for a list of tagged
byte strings, and that an error is copied as it is. Their contracts stand in `encoding`.
