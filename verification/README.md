# partition_store

Stores for the partitions of a shuffle: in memory, in files, or in memory with a
copy on disk.

- `src/` is the verified library. It holds the partitions in memory and the books
  of the files, and decides what is created, written, finished, opened, removed
  and answered. `src/laws.rs` states what holds across calls and across stores.
- `app/` puts the library to work on real files, streams and background tasks,
  behind the asynchronous `PartitionStore` trait.
- `tests/` runs the library with arrow's batches and datafusion's streams.

What is taken on trust is marked `external_body` or stated by an
`assume_specification`, and says so where it stands: calls into `dashmap`, `arrow`
and `datafusion`.
