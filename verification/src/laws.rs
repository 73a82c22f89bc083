//! What holds across several calls, and across the stores.
//!
//! Each law speaks of the spec functions that the contracts of the stores are
//! written in.
use crate::batch::{batch_rows, batch_schema, Batch};
use crate::disk::{
    batch_write, is_fetched, is_take, open_writer, taken, with_writer, BatchWrite, Opened,
    PartitionWrite, StoredTotals, Take, WriteEvent, WriteRequest,
};
use crate::error::{open_failed_text, BallistaError};
use crate::hybrid::{
    is_fetch, Fetch, ForwardEvent, ForwardRequest, ForwardState, HybridContents,
};
use crate::memory::{GatheredBatches, MemoryContents};
use crate::stream::{yields, LocalShuffleStream, PartitionContents};
use datafusion::arrow::datatypes::SchemaRef;
use datafusion::arrow::error::ArrowError;
use datafusion::error::DataFusionError;
use vstd::prelude::*;

verus! {

// Memory.

/// Memory after each of `batches` was stored under `path`, first to last.
pub open spec fn memory_after<S>(
    contents: MemoryContents<S>,
    path: Seq<char>,
    batches: Seq<Batch>,
) -> MemoryContents<S>
    decreases batches.len(),
{
    if batches.len() == 0 {
        contents
    } else {
        memory_after(contents, path, batches.drop_last()).store_batch(path, batches.last())
    }
}

/// Batches that are stored one by one are gathered in order, under the schema of the
/// first of them, and nothing else changes.
pub proof fn law_batches_are_gathered<S>(
    contents: MemoryContents<S>,
    path: Seq<char>,
    batches: Seq<Batch>,
)
    requires
        !contents.batches.contains_key(path),
        batches.len() > 0,
    ensures
        memory_after(contents, path, batches) == (MemoryContents {
            batches: contents.batches.insert(
                path,
                GatheredBatches { schema: batch_schema(batches[0]), batches },
            ),
            ..contents
        }),
    decreases batches.len(),
{
    let before = batches.drop_last();
    assert(before.push(batches.last()) =~= batches);
    if before.len() > 0 {
        law_batches_are_gathered(contents, path, before);
    } else {
        assert(before =~= Seq::empty());
        assert(memory_after(contents, path, before) == contents);
    }
    assert(memory_after(contents, path, batches) =~= (MemoryContents {
        batches: contents.batches.insert(
            path,
            GatheredBatches { schema: batch_schema(batches[0]), batches },
        ),
        ..contents
    }));
}

/// What is read from memory is what was written: batches that are stored one by one
/// and finalized can be fetched, all of them, in order, under the schema of the
/// first. The fetch takes them out, and nothing else was touched.
pub proof fn law_memory_gives_back_batches<S>(
    contents: MemoryContents<S>,
    path: Seq<char>,
    batches: Seq<Batch>,
)
    requires
        !contents.batches.contains_key(path),
        batches.len() > 0,
    ensures
        ({
            let stored = memory_after(contents, path, batches);
            let finalized = stored.finalize_batches(path);
            &&& stored.batches.contains_key(path)
            &&& finalized.streams.contains_key(path)
            &&& finalized.streams[path] == (PartitionContents::<S>::Batches {
                schema: batch_schema(batches[0]),
                batches,
            })
            &&& finalized.without_stream(path) == contents.without_stream(path)
        }),
{
    law_batches_are_gathered(contents, path, batches);
    let finalized = memory_after(contents, path, batches).finalize_batches(path);
    assert(finalized.without_stream(path) =~= contents.without_stream(path));
}

/// A stream that is stored under a path is what is fetched there, whatever was
/// stored there before.
pub proof fn law_memory_gives_back_stream<S>(
    contents: MemoryContents<S>,
    path: Seq<char>,
    stream: S,
)
    ensures
        contents.store_partition(path, stream).streams.contains_key(path),
        contents.store_partition(path, stream).streams[path] == PartitionContents::Source(stream),
        contents.store_partition(path, stream).without_stream(path) == contents.without_stream(
            path,
        ),
{
    assert(contents.store_partition(path, stream).without_stream(path)
        =~= contents.without_stream(path));
}

/// A partition is handed out once: after a fetch, a take or a delete there is nothing
/// under the path, and doing it again changes nothing.
pub proof fn law_memory_hands_out_once<S>(contents: MemoryContents<S>, path: Seq<char>)
    ensures
        !contents.without_stream(path).streams.contains_key(path),
        contents.without_stream(path).without_stream(path) == contents.without_stream(path),
{
    assert(contents.without_stream(path).without_stream(path) =~= contents.without_stream(path));
}

/// What is being gathered under a path outlives a fetch, a take or a delete there:
/// finalizing afterwards gives the same partition.
pub proof fn law_gathering_outlives_delete<S>(contents: MemoryContents<S>, path: Seq<char>)
    requires
        contents.batches.contains_key(path),
    ensures
        contents.without_stream(path).batches == contents.batches,
        contents.without_stream(path).finalize_batches(path) == contents.finalize_batches(path),
{
    assert(contents.without_stream(path).finalize_batches(path) =~= contents.finalize_batches(
        path,
    ));
}

/// The two maps agree on `path`: both lack it, or both give it the same value.
pub open spec fn agree_on<V>(a: Map<Seq<char>, V>, b: Map<Seq<char>, V>, path: Seq<char>) -> bool {
    &&& a.contains_key(path) == b.contains_key(path)
    &&& a.contains_key(path) ==> a[path] == b[path]
}

/// Memory holds the same under `path` in both.
pub open spec fn same_at<S>(a: MemoryContents<S>, b: MemoryContents<S>, path: Seq<char>) -> bool {
    agree_on(a.streams, b.streams, path) && agree_on(a.batches, b.batches, path)
}

/// Paths are independent: no operation on one path changes what memory holds under
/// another.
pub proof fn law_paths_are_independent<S>(
    contents: MemoryContents<S>,
    path: Seq<char>,
    other: Seq<char>,
    batch: Batch,
    schema: SchemaRef,
    batches: Seq<Batch>,
    stream: S,
)
    requires
        path != other,
    ensures
        same_at(contents, contents.store_batch(path, batch), other),
        same_at(contents, contents.finalize_batches(path), other),
        same_at(contents, contents.store_waiting(path, schema, batches), other),
        same_at(contents, contents.store_partition(path, stream), other),
        same_at(contents, contents.without_stream(path), other),
{
}

/// Memory after each of `stores`, a batch and the path it is stored under, first to
/// last.
pub open spec fn memory_after_stores<S>(
    contents: MemoryContents<S>,
    stores: Seq<(Seq<char>, Batch)>,
) -> MemoryContents<S>
    decreases stores.len(),
{
    if stores.len() == 0 {
        contents
    } else {
        memory_after_stores(contents, stores.drop_last()).store_batch(
            stores.last().0,
            stores.last().1,
        )
    }
}

/// The batches that `stores` store under `path`.
pub open spec fn stored_under(stores: Seq<(Seq<char>, Batch)>, path: Seq<char>) -> Seq<Batch>
    decreases stores.len(),
{
    if stores.len() == 0 {
        Seq::empty()
    } else if stores.last().0 == path {
        stored_under(stores.drop_last(), path).push(stores.last().1)
    } else {
        stored_under(stores.drop_last(), path)
    }
}

/// However the storing of batches under many paths is interleaved, memory gathers
/// under each path its own batches, in order, as if nothing else had been stored.
pub proof fn law_memory_keeps_paths_apart<S>(
    contents: MemoryContents<S>,
    stores: Seq<(Seq<char>, Batch)>,
    path: Seq<char>,
)
    ensures
        same_at(
            memory_after_stores(contents, stores),
            memory_after(contents, path, stored_under(stores, path)),
            path,
        ),
    decreases stores.len(),
{
    if stores.len() > 0 {
        let before = stores.drop_last();
        law_memory_keeps_paths_apart(contents, before, path);
        if stores.last().0 == path {
            assert(stored_under(stores, path).drop_last() =~= stored_under(before, path));
        }
    }
}

// Disk, batch by batch.

/// A partition file: its schema, the batches written to it, and whether its writer
/// finished it.
#[verifier::ext_equal]
pub struct PartitionFile {
    pub schema: SchemaRef,
    pub batches: Seq<Batch>,
    pub finished: bool,
}

/// The file at a path after `batch` went where `write` says: a new file takes the
/// place of the old one, an open one grows.
pub open spec fn file_after_write(
    file: PartitionFile,
    write: BatchWrite,
    batch: Batch,
) -> PartitionFile {
    match write {
        BatchWrite::Create(schema) => PartitionFile {
            schema,
            batches: seq![batch],
            finished: false,
        },
        BatchWrite::Append(_) => PartitionFile { batches: file.batches.push(batch), ..file },
    }
}

/// The open writers after each of `batches` was stored under `path`, where a file
/// that is created is reported with `writer`.
pub open spec fn writers_after(
    writers: Map<Seq<char>, u64>,
    path: Seq<char>,
    batches: Seq<Batch>,
    writer: u64,
) -> Map<Seq<char>, u64>
    decreases batches.len(),
{
    if batches.len() == 0 {
        writers
    } else {
        with_writer(writers_after(writers, path, batches.drop_last(), writer), path, writer)
    }
}

/// The file at `path` after each of `batches` was stored there.
pub open spec fn file_after(
    writers: Map<Seq<char>, u64>,
    file: PartitionFile,
    path: Seq<char>,
    batches: Seq<Batch>,
    writer: u64,
) -> PartitionFile
    decreases batches.len(),
{
    if batches.len() == 0 {
        file
    } else {
        let before = batches.drop_last();
        file_after_write(
            file_after(writers, file, path, before, writer),
            batch_write(writers_after(writers, path, before, writer), path, batches.last()),
            batches.last(),
        )
    }
}

/// What a file holds is what was stored: batches that are stored one by one end up
/// in one new file, all of them, in order, under the schema of the first. Its writer
/// is the one that finalizing names, and afterwards no writer is open that was not
/// before.
pub proof fn law_disk_keeps_batches(
    writers: Map<Seq<char>, u64>,
    file: PartitionFile,
    path: Seq<char>,
    batches: Seq<Batch>,
    writer: u64,
)
    requires
        !writers.contains_key(path),
        batches.len() > 0,
    ensures
        file_after(writers, file, path, batches, writer) == (PartitionFile {
            schema: batch_schema(batches[0]),
            batches,
            finished: false,
        }),
        writers_after(writers, path, batches, writer) == writers.insert(path, writer),
        writers_after(writers, path, batches, writer).remove(path) == writers,
    decreases batches.len(),
{
    let before = batches.drop_last();
    assert(before.push(batches.last()) =~= batches);
    if before.len() > 0 {
        law_disk_keeps_batches(writers, file, path, before, writer);
    } else {
        assert(before =~= Seq::empty());
        assert(writers_after(writers, path, before, writer) == writers);
        assert(batches =~= seq![batches[0]]);
    }
    assert(writers.insert(path, writer).remove(path) =~= writers);
}

/// The file once its writer was told to finish it and that came out as `finished`;
/// `None` where no writer was open.
pub open spec fn file_after_finalize(
    file: PartitionFile,
    finished: Option<Result<(), ArrowError>>,
) -> PartitionFile {
    match finished {
        Some(Ok(())) => PartitionFile { finished: true, ..file },
        _ => file,
    }
}

/// Finalizing finishes the file exactly where a writer was open, and changes nothing
/// else about it, where finishing does not fail.
pub proof fn law_finalizing_finishes_file(
    writers: Map<Seq<char>, u64>,
    file: PartitionFile,
    path: Seq<char>,
    finished: Option<Result<(), ArrowError>>,
)
    requires
        finished is Some <==> open_writer(writers, path) is Some,
        !(finished matches Some(Err(_))),
    ensures
        file_after_finalize(file, finished) == if writers.contains_key(path) {
            PartitionFile { finished: true, ..file }
        } else {
            file
        },
{
}

/// Batches that are stored one by one and finalized end up in one finished file, all
/// of them, in order, under the schema of the first, where finishing does not fail.
pub proof fn law_disk_finishes_batches(
    writers: Map<Seq<char>, u64>,
    file: PartitionFile,
    path: Seq<char>,
    batches: Seq<Batch>,
    writer: u64,
    finished: Option<Result<(), ArrowError>>,
)
    requires
        !writers.contains_key(path),
        batches.len() > 0,
        finished is Some <==> open_writer(
            writers_after(writers, path, batches, writer),
            path,
        ) is Some,
        !(finished matches Some(Err(_))),
    ensures
        open_writer(writers_after(writers, path, batches, writer), path) == Some(writer),
        file_after_finalize(file_after(writers, file, path, batches, writer), finished) == (
        PartitionFile { schema: batch_schema(batches[0]), batches, finished: true }),
{
    law_disk_keeps_batches(writers, file, path, batches, writer);
}

/// What a reader that reads `file` without failing yields: each batch, then the end.
pub open spec fn file_reads(file: PartitionFile) -> Seq<Option<Result<Batch, ArrowError>>> {
    Seq::new(
        file.batches.len() + 1,
        |i: int|
            if i < file.batches.len() {
                Some(Ok(file.batches[i]))
            } else {
                None
            },
    )
}

/// `items` are the batches, in order, and then the end.
pub open spec fn are_batches(
    items: Seq<Option<Result<Batch, DataFusionError>>>,
    batches: Seq<Batch>,
) -> bool {
    &&& items.len() == batches.len() + 1
    &&& forall|i: int|
        0 <= i < batches.len() ==> #[trigger] items[i] == Some(
            Ok::<Batch, DataFusionError>(batches[i]),
        )
    &&& items[batches.len() as int] is None
}

/// The stream of a file yields what the file holds, where reading it does not fail.
pub proof fn law_file_gives_back_batches(
    file: PartitionFile,
    items: Seq<Option<Result<Batch, DataFusionError>>>,
)
    requires
        items.len() == file_reads(file).len(),
        forall|i: int|
            0 <= i < items.len() ==> yields(#[trigger] file_reads(file)[i], items[i]),
    ensures
        are_batches(items, file.batches),
{
    assert forall|i: int| 0 <= i < file.batches.len() implies #[trigger] items[i] == Some(
        Ok::<Batch, DataFusionError>(file.batches[i]),
    ) by {
        assert(yields(file_reads(file)[i], items[i]));
    }
    assert(yields(file_reads(file)[file.batches.len() as int], items[file.batches.len() as int]));
}

/// What is read from disk is what was written: batches that are stored one by one
/// are what the stream of their file yields, in order, where reading it does not
/// fail.
pub proof fn law_disk_gives_back_batches(
    writers: Map<Seq<char>, u64>,
    file: PartitionFile,
    path: Seq<char>,
    batches: Seq<Batch>,
    writer: u64,
    items: Seq<Option<Result<Batch, DataFusionError>>>,
)
    requires
        !writers.contains_key(path),
        batches.len() > 0,
        items.len() == file_reads(file_after(writers, file, path, batches, writer)).len(),
        forall|i: int|
            0 <= i < items.len() ==> yields(
                #[trigger] file_reads(file_after(writers, file, path, batches, writer))[i],
                items[i],
            ),
    ensures
        are_batches(items, batches),
{
    law_disk_keeps_batches(writers, file, path, batches, writer);
    law_file_gives_back_batches(file_after(writers, file, path, batches, writer), items);
}

/// Memory and disk hold the same: the batches that a hybrid store gathers under a
/// path are, in both places, the same batches in the same order under the same
/// schema.
pub proof fn law_memory_and_disk_agree<S>(
    contents: MemoryContents<S>,
    writers: Map<Seq<char>, u64>,
    file: PartitionFile,
    path: Seq<char>,
    batches: Seq<Batch>,
    writer: u64,
)
    requires
        !contents.batches.contains_key(path),
        !writers.contains_key(path),
        batches.len() > 0,
    ensures
        ({
            let gathered = memory_after(contents, path, batches).batches[path];
            let copied = file_after(writers, file, path, batches, writer);
            gathered.schema == copied.schema && gathered.batches == copied.batches
        }),
{
    law_batches_are_gathered(contents, path, batches);
    law_disk_keeps_batches(writers, file, path, batches, writer);
}

// Disk, many paths.

/// A call on the disk store.
pub enum DiskCall {
    /// A batch is stored under a path. Where a file is created for it, its writer is
    /// reported by this number.
    Store { path: Seq<char>, batch: Batch, writer: u64 },
    /// The gathering under a path is ended, and finishing its file does not fail.
    Finalize { path: Seq<char> },
}

impl DiskCall {
    /// The path that the call is about.
    pub open spec fn on(self) -> Seq<char> {
        match self {
            DiskCall::Store { path, .. } => path,
            DiskCall::Finalize { path } => path,
        }
    }
}

/// The open writers of a disk store, and the files.
#[verifier::ext_equal]
pub struct DiskContents {
    /// The number of the writer that is open at a path.
    pub writers: Map<Seq<char>, u64>,
    /// The path of the file that a writer writes to.
    pub targets: Map<u64, Seq<char>>,
    pub files: Map<Seq<char>, PartitionFile>,
}

/// What there is at one path.
#[verifier::ext_equal]
pub struct DiskPath {
    pub writer: Option<u64>,
    pub file: Option<PartitionFile>,
}

impl DiskContents {
    /// The writer that is open at a path writes to the file there.
    pub open spec fn wf(self) -> bool {
        forall|path: Seq<char>| #[trigger]
            self.writers.contains_key(path) ==> {
                &&& self.targets.contains_key(self.writers[path])
                &&& self.targets[self.writers[path]] == path
                &&& self.files.contains_key(path)
            }
    }

    /// A file that is created for the call gets a number that no open writer has.
    pub open spec fn allows(self, call: DiskCall) -> bool {
        match call {
            DiskCall::Store { path, writer, .. } => self.writers.contains_key(path) || forall|
                other: Seq<char>,
            | #[trigger]
                self.writers.contains_key(other) ==> self.writers[other] != writer,
            DiskCall::Finalize { .. } => true,
        }
    }

    /// What a call leaves. A batch goes where [`batch_write`] says: into a new file at
    /// the path, or wherever the writer writes to.
    pub open spec fn after(self, call: DiskCall) -> Self {
        match call {
            DiskCall::Store { path, batch, writer } => {
                let write = batch_write(self.writers, path, batch);
                let target = match write {
                    BatchWrite::Create(_) => path,
                    BatchWrite::Append(number) => self.targets[number],
                };
                DiskContents {
                    writers: with_writer(self.writers, path, writer),
                    targets: match write {
                        BatchWrite::Create(_) => self.targets.insert(writer, path),
                        BatchWrite::Append(_) => self.targets,
                    },
                    files: self.files.insert(
                        target,
                        file_after_write(self.files[target], write, batch),
                    ),
                }
            },
            DiskCall::Finalize { path } => match open_writer(self.writers, path) {
                Some(number) => {
                    let target = self.targets[number];
                    DiskContents {
                        writers: self.writers.remove(path),
                        files: self.files.insert(
                            target,
                            file_after_finalize(self.files[target], Some(Ok(()))),
                        ),
                        ..self
                    }
                },
                None => DiskContents { writers: self.writers.remove(path), ..self },
            },
        }
    }

    /// What there is at `path`.
    pub open spec fn at(self, path: Seq<char>) -> DiskPath {
        DiskPath {
            writer: open_writer(self.writers, path),
            file: if self.files.contains_key(path) {
                Some(self.files[path])
            } else {
                None
            },
        }
    }
}

impl DiskPath {
    /// What a call on the path leaves there: the first batch begins a new file, further
    /// ones join it, and finalizing finishes it.
    pub open spec fn after(self, call: DiskCall) -> Self {
        match (call, self.writer, self.file) {
            (DiskCall::Store { batch, .. }, Some(_), Some(file)) => DiskPath {
                file: Some(PartitionFile { batches: file.batches.push(batch), ..file }),
                ..self
            },
            (DiskCall::Store { batch, writer, .. }, _, _) => DiskPath {
                writer: Some(writer),
                file: Some(
                    PartitionFile {
                        schema: batch_schema(batch),
                        batches: seq![batch],
                        finished: false,
                    },
                ),
            },
            (DiskCall::Finalize { .. }, Some(_), Some(file)) => DiskPath {
                writer: None,
                file: Some(PartitionFile { finished: true, ..file }),
            },
            (DiskCall::Finalize { .. }, _, _) => self,
        }
    }
}

/// A call on one path does there what it does, and leaves every other path alone: its
/// writer and its file stay.
pub proof fn law_disk_paths_are_independent(
    contents: DiskContents,
    call: DiskCall,
    other: Seq<char>,
)
    requires
        contents.wf(),
        contents.allows(call),
    ensures
        contents.after(call).wf(),
        contents.after(call).at(call.on()) == contents.at(call.on()).after(call),
        other != call.on() ==> contents.after(call).at(other) == contents.at(other),
{
    let path = call.on();
    if contents.writers.contains_key(path) {
        assert(contents.targets[contents.writers[path]] == path);
    }
    if contents.writers.contains_key(other) {
        assert(contents.targets[contents.writers[other]] == other);
    }
    let after = contents.after(call);
    assert forall|p: Seq<char>| #[trigger] after.writers.contains_key(p) implies {
        &&& after.targets.contains_key(after.writers[p])
        &&& after.targets[after.writers[p]] == p
        &&& after.files.contains_key(p)
    } by {
        if p != path {
            assert(contents.writers.contains_key(p));
        }
    }
}

/// What `calls` leave, one after the other.
pub open spec fn disk_after(contents: DiskContents, calls: Seq<DiskCall>) -> DiskContents
    decreases calls.len(),
{
    if calls.len() == 0 {
        contents
    } else {
        disk_after(contents, calls.drop_last()).after(calls.last())
    }
}

/// Each of `calls` gets a number that is free when it comes.
pub open spec fn disk_allows(contents: DiskContents, calls: Seq<DiskCall>) -> bool
    decreases calls.len(),
{
    calls.len() > 0 ==> {
        &&& disk_allows(contents, calls.drop_last())
        &&& disk_after(contents, calls.drop_last()).allows(calls.last())
    }
}

/// Those of `calls` that are about `path`, in their order.
pub open spec fn calls_on(calls: Seq<DiskCall>, path: Seq<char>) -> Seq<DiskCall>
    decreases calls.len(),
{
    if calls.len() == 0 {
        Seq::empty()
    } else if calls.last().on() == path {
        calls_on(calls.drop_last(), path).push(calls.last())
    } else {
        calls_on(calls.drop_last(), path)
    }
}

/// What `calls` on one path leave there, one after the other.
pub open spec fn path_after(at: DiskPath, calls: Seq<DiskCall>) -> DiskPath
    decreases calls.len(),
{
    if calls.len() == 0 {
        at
    } else {
        path_after(at, calls.drop_last()).after(calls.last())
    }
}

/// However calls on many paths are interleaved, what they leave at a path is what the
/// calls on that path alone leave there.
pub proof fn law_disk_keeps_paths_apart(
    contents: DiskContents,
    calls: Seq<DiskCall>,
    path: Seq<char>,
)
    requires
        contents.wf(),
        disk_allows(contents, calls),
    ensures
        disk_after(contents, calls).wf(),
        disk_after(contents, calls).at(path) == path_after(
            contents.at(path),
            calls_on(calls, path),
        ),
    decreases calls.len(),
{
    if calls.len() > 0 {
        let before = calls.drop_last();
        law_disk_keeps_paths_apart(contents, before, path);
        law_disk_paths_are_independent(disk_after(contents, before), calls.last(), path);
        if calls.last().on() == path {
            assert(calls_on(calls, path).drop_last() =~= calls_on(before, path));
        }
    }
}

/// The batches that `calls` store.
pub open spec fn stored_batches(calls: Seq<DiskCall>) -> Seq<Batch> {
    calls.map_values(|call: DiskCall| call->batch)
}

/// However the storing of batches under many paths is interleaved, each path gets a
/// new file with its own batches, all of them, in order, under the schema of the
/// first; finalizing then finishes it.
pub proof fn law_interleaved_batches_are_kept(
    contents: DiskContents,
    calls: Seq<DiskCall>,
    path: Seq<char>,
)
    requires
        contents.wf(),
        disk_allows(contents, calls),
        !contents.writers.contains_key(path),
        calls_on(calls, path).len() > 0,
        forall|i: int|
            0 <= i < calls_on(calls, path).len() ==> #[trigger] calls_on(calls, path)[i] is Store,
    ensures
        ({
            let batches = stored_batches(calls_on(calls, path));
            let stored = disk_after(contents, calls);
            let file = PartitionFile {
                schema: batch_schema(batches[0]),
                batches,
                finished: false,
            };
            &&& stored.at(path).writer is Some
            &&& stored.at(path).file == Some(file)
            &&& stored.after(DiskCall::Finalize { path }).at(path) == (DiskPath {
                writer: None,
                file: Some(PartitionFile { finished: true, ..file }),
            })
        }),
{
    law_disk_keeps_paths_apart(contents, calls, path);
    stores_fill_a_file(contents.at(path), calls_on(calls, path));
    law_disk_paths_are_independent(
        disk_after(contents, calls),
        DiskCall::Finalize { path },
        path,
    );
}

proof fn stores_fill_a_file(at: DiskPath, calls: Seq<DiskCall>)
    requires
        at.writer is None,
        calls.len() > 0,
        forall|i: int| 0 <= i < calls.len() ==> #[trigger] calls[i] is Store,
    ensures
        path_after(at, calls).writer is Some,
        path_after(at, calls).file == Some(
            PartitionFile {
                schema: batch_schema(stored_batches(calls)[0]),
                batches: stored_batches(calls),
                finished: false,
            },
        ),
    decreases calls.len(),
{
    let before = calls.drop_last();
    let batch = calls.last()->batch;
    assert(calls[calls.len() - 1] is Store);
    assert(stored_batches(calls) =~= stored_batches(before).push(batch));
    if before.len() > 0 {
        assert forall|i: int| 0 <= i < before.len() implies #[trigger] before[i] is Store by {
            assert(calls[i] is Store);
        }
        stores_fill_a_file(at, before);
    } else {
        assert(path_after(at, before) == at);
        assert(stored_batches(calls) =~= seq![batch]);
    }
}

// Disk, a whole partition.

/// The rows of all the batches.
pub open spec fn total_rows(source: Seq<(Batch, usize)>) -> int
    decreases source.len(),
{
    if source.len() == 0 {
        0
    } else {
        total_rows(source.drop_last()) + batch_rows(source.last().0)
    }
}

/// The bytes of all the batches.
pub open spec fn total_bytes(source: Seq<(Batch, usize)>) -> int
    decreases source.len(),
{
    if source.len() == 0 {
        0
    } else {
        total_bytes(source.drop_last()) + source.last().1
    }
}

/// The state after `events`, from `state`.
pub open spec fn write_after(state: PartitionWrite, events: Seq<WriteEvent>) -> PartitionWrite
    decreases events.len(),
{
    if events.len() == 0 {
        state
    } else {
        write_after(state, events.drop_last()).next(events.last()).0
    }
}

/// Each of `events` could happen when it did.
pub open spec fn write_awaits(state: PartitionWrite, events: Seq<WriteEvent>) -> bool
    decreases events.len(),
{
    events.len() > 0 ==> {
        &&& write_awaits(state, events.drop_last())
        &&& write_after(state, events.drop_last()).awaits(events.last())
    }
}

/// What was asked for in answer to `events`, from `state`.
pub open spec fn write_requests(state: PartitionWrite, events: Seq<WriteEvent>) -> Seq<WriteRequest>
    decreases events.len(),
{
    if events.len() == 0 {
        Seq::empty()
    } else {
        write_requests(state, events.drop_last()).push(
            write_after(state, events.drop_last()).next(events.last()).1,
        )
    }
}

/// The events of storing `source` up to its last batch, when nothing goes wrong.
pub open spec fn source_events(source: Seq<(Batch, usize)>) -> Seq<WriteEvent>
    decreases source.len(),
{
    if source.len() == 0 {
        seq![WriteEvent::Created(Ok(())), WriteEvent::Opened(Ok(()))]
    } else {
        source_events(source.drop_last()).push(
            WriteEvent::Batch(source.last().0, source.last().1),
        ).push(WriteEvent::Written(Ok(())))
    }
}

/// What a file holds once `requests` were carried out, where the source has
/// `schema`.
pub open spec fn requested_file(schema: SchemaRef, requests: Seq<WriteRequest>) -> PartitionFile
    decreases requests.len(),
{
    if requests.len() == 0 {
        PartitionFile { schema, batches: Seq::empty(), finished: false }
    } else {
        let file = requested_file(schema, requests.drop_last());
        match requests.last() {
            WriteRequest::Write(batch) => PartitionFile { batches: file.batches.push(batch), ..file },
            WriteRequest::FinishFile => PartitionFile { finished: true, ..file },
            _ => file,
        }
    }
}

/// The totals can count every batch of the source.
pub open spec fn countable(source: Seq<(Batch, usize)>) -> bool {
    &&& total_rows(source) <= usize::MAX
    &&& total_bytes(source) <= usize::MAX
    &&& source.len() <= u64::MAX
}

/// The events of storing the whole of `source`, when nothing goes wrong.
pub open spec fn write_events(source: Seq<(Batch, usize)>) -> Seq<WriteEvent> {
    source_events(source).push(WriteEvent::Ended).push(WriteEvent::Finished(Ok(())))
}

/// The file that storing the whole of `source` leaves, when nothing goes wrong.
pub open spec fn stored_file(source: Seq<(Batch, usize)>, schema: SchemaRef) -> PartitionFile {
    requested_file(schema, write_requests(PartitionWrite::Creating, write_events(source)))
}

/// The batches of a source.
pub open spec fn source_batches(source: Seq<(Batch, usize)>) -> Seq<Batch> {
    source.map_values(|item: (Batch, usize)| item.0)
}

proof fn write_after_push(state: PartitionWrite, events: Seq<WriteEvent>, event: WriteEvent)
    ensures
        write_after(state, events.push(event)) == write_after(state, events).next(event).0,
        write_requests(state, events.push(event)) == write_requests(state, events).push(
            write_after(state, events).next(event).1,
        ),
        write_awaits(state, events.push(event)) == (write_awaits(state, events) && write_after(
            state,
            events,
        ).awaits(event)),
{
    assert(events.push(event).drop_last() =~= events);
}

proof fn requested_file_push(schema: SchemaRef, requests: Seq<WriteRequest>, request: WriteRequest)
    ensures
        ({
            let file = requested_file(schema, requests);
            requested_file(schema, requests.push(request)) == match request {
                WriteRequest::Write(batch) => PartitionFile {
                    batches: file.batches.push(batch),
                    ..file
                },
                WriteRequest::FinishFile => PartitionFile { finished: true, ..file },
                _ => file,
            }
        }),
{
    assert(requests.push(request).drop_last() =~= requests);
}

/// Midway through a source: the totals count every batch so far, and the file holds
/// every batch so far.
pub proof fn law_partial_write(source: Seq<(Batch, usize)>, schema: SchemaRef)
    requires
        countable(source),
    ensures
        write_awaits(PartitionWrite::Creating, source_events(source)),
        write_after(PartitionWrite::Creating, source_events(source)) == PartitionWrite::Reading(
            StoredTotals {
                num_rows: total_rows(source) as usize,
                num_batches: source.len() as u64,
                num_bytes: total_bytes(source) as usize,
            },
        ),
        requested_file(
            schema,
            write_requests(PartitionWrite::Creating, source_events(source)),
        ) == (PartitionFile { schema, batches: source_batches(source), finished: false }),
        total_rows(source) >= 0,
        total_bytes(source) >= 0,
    decreases source.len(),
{
    let start = PartitionWrite::Creating;
    if source.len() == 0 {
        let none = Seq::<WriteEvent>::empty();
        let created = WriteEvent::Created(Ok(()));
        let opened = WriteEvent::Opened(Ok(()));
        assert(source_events(source) =~= none.push(created).push(opened));
        write_after_push(start, none, created);
        write_after_push(start, none.push(created), opened);
        let no_request = Seq::<WriteRequest>::empty();
        assert(write_requests(start, none) == no_request);
        requested_file_push(schema, no_request, WriteRequest::OpenWriter);
        requested_file_push(
            schema,
            no_request.push(WriteRequest::OpenWriter),
            WriteRequest::ReadSource,
        );
        assert(source_batches(source) =~= Seq::empty());
    } else {
        let before = source.drop_last();
        let (batch, bytes) = source.last();
        total_grows(source);
        law_partial_write(before, schema);
        let events = source_events(before);
        let arrived = WriteEvent::Batch(batch, bytes);
        let written = WriteEvent::Written(Ok(()));
        write_after_push(start, events, arrived);
        write_after_push(start, events.push(arrived), written);
        let requests = write_requests(start, events);
        requested_file_push(schema, requests, WriteRequest::Write(batch));
        requested_file_push(
            schema,
            requests.push(WriteRequest::Write(batch)),
            WriteRequest::ReadSource,
        );
        assert(source_batches(source) =~= source_batches(before).push(batch));
    }
}

proof fn total_grows(source: Seq<(Batch, usize)>)
    requires
        source.len() > 0,
    ensures
        0 <= total_rows(source.drop_last()) <= total_rows(source),
        0 <= total_bytes(source.drop_last()) <= total_bytes(source),
    decreases source.len(),
{
    if source.len() > 1 {
        total_grows(source.drop_last());
    }
}

/// What a file holds is what was stored: when nothing goes wrong, storing a source
/// creates one file with the source's schema and all its batches in order, finishes
/// it, and reports the rows, the batches and the bytes of the source.
pub proof fn law_disk_keeps_partition(source: Seq<(Batch, usize)>, schema: SchemaRef)
    requires
        countable(source),
    ensures
        ({
            let events = write_events(source);
            let requests = write_requests(PartitionWrite::Creating, events);
            &&& write_awaits(PartitionWrite::Creating, events)
            &&& write_after(PartitionWrite::Creating, events) is Done
            &&& requests.last() matches WriteRequest::Return(Ok(Some(stats)))
            &&& stats.num_rows == Some(total_rows(source) as u64)
            &&& stats.num_batches == Some(source.len() as u64)
            &&& stats.num_bytes == Some(total_bytes(source) as u64)
            &&& stored_file(source, schema) == (PartitionFile {
                schema,
                batches: source_batches(source),
                finished: true,
            })
        }),
{
    let start = PartitionWrite::Creating;
    law_partial_write(source, schema);
    let events = source_events(source);
    let ended = events.push(WriteEvent::Ended);
    let finished = WriteEvent::Finished(Ok(()));
    write_after_push(start, events, WriteEvent::Ended);
    write_after_push(start, ended, finished);
    let requests = write_requests(start, events);
    requested_file_push(schema, requests, WriteRequest::FinishFile);
    let answer = write_after(start, ended).next(finished).1;
    requested_file_push(schema, requests.push(WriteRequest::FinishFile), answer);
    assert(write_requests(start, ended.push(finished)).last() == answer);
}

/// What is read from disk is what was written: the batches of a source that was
/// stored whole are what the stream of its file yields, in order, where neither
/// storing nor reading fails.
pub proof fn law_disk_gives_back_partition(
    source: Seq<(Batch, usize)>,
    schema: SchemaRef,
    items: Seq<Option<Result<Batch, DataFusionError>>>,
)
    requires
        countable(source),
        ({
            let reads = file_reads(stored_file(source, schema));
            &&& items.len() == reads.len()
            &&& forall|i: int| 0 <= i < items.len() ==> yields(#[trigger] reads[i], items[i])
        }),
    ensures
        are_batches(items, source_batches(source)),
{
    law_disk_keeps_partition(source, schema);
    law_file_gives_back_batches(stored_file(source, schema), items);
}

/// The failure that an event reports, as the caller is told of it.
pub open spec fn failure_of(event: WriteEvent) -> Option<BallistaError> {
    match event {
        WriteEvent::Created(Err(error)) => Some(BallistaError::IoError(error)),
        WriteEvent::Opened(Err(error)) => Some(BallistaError::ArrowError(error)),
        WriteEvent::Failed(error) => Some(BallistaError::DataFusionError(error)),
        WriteEvent::Written(Err(error)) => Some(BallistaError::ArrowError(error)),
        WriteEvent::Finished(Err(error)) => Some(BallistaError::ArrowError(error)),
        _ => None,
    }
}

/// The storing of a partition ends with the first failure, which is its answer, and
/// without a failure only with the file finished. Nothing happens after the end.
pub proof fn law_write_answers_once(state: PartitionWrite, event: WriteEvent, later: WriteEvent)
    requires
        state.awaits(event),
    ensures
        failure_of(event) matches Some(error) ==> state.next(event) == (
            PartitionWrite::Done,
            WriteRequest::Return(Err(error)),
        ),
        failure_of(event) is None ==> (state.next(event).1 is Return <==> event is Finished),
        state.next(event).1 is Return <==> state.next(event).0 is Done,
        !PartitionWrite::Done.awaits(later),
{
}

// Disk, files that come and go.

/// A partition: its schema, and its batches in order.
#[verifier::ext_equal]
pub struct Partition {
    pub schema: SchemaRef,
    pub batches: Seq<Batch>,
}

impl PartitionFile {
    /// What the file holds.
    pub open spec fn partition(self) -> Partition {
        Partition { schema: self.schema, batches: self.batches }
    }
}

/// `opened` is what comes of opening the file at a path, where `file` is what is
/// there, and nothing but its absence keeps a file from opening. `readers` tells what
/// a reader reads.
pub open spec fn opens<R>(
    file: Option<PartitionFile>,
    opened: Opened<R>,
    readers: spec_fn(R) -> Partition,
) -> bool {
    match file {
        Some(file) => opened matches Opened::Reading(reader) && readers(reader)
            == file.partition(),
        None => opened is Missing,
    }
}

/// What is left of `file` once its removal came out as `removed`.
pub open spec fn file_after_removal(
    file: Option<PartitionFile>,
    removed: Result<(), std::io::Error>,
) -> Option<PartitionFile> {
    if removed is Ok {
        None
    } else {
        file
    }
}

/// What is left of `file` once `take` was carried out.
pub open spec fn file_after_take<R>(
    file: Option<PartitionFile>,
    take: Take<R>,
    removed: Result<(), std::io::Error>,
) -> Option<PartitionFile> {
    match take {
        Take::Remove(_) => file_after_removal(file, removed),
        Take::Fail(_) => file,
    }
}

/// `fetched` fails because the file at `path` does not open.
pub open spec fn does_not_open<T>(path: Seq<char>, fetched: Result<T, BallistaError>) -> bool {
    exists|reason: Seq<char>|
        fetched is Err && fetched->Err_0.is_general(#[trigger] open_failed_text(path, reason))
}

/// A file can be fetched again and again: what is fetched is what it holds.
pub proof fn law_file_is_fetched<R>(
    path: Seq<char>,
    file: PartitionFile,
    opened: Opened<R>,
    fetched: Result<LocalShuffleStream<R>, BallistaError>,
    readers: spec_fn(R) -> Partition,
)
    requires
        opens(Some(file), opened, readers),
        is_fetched(path, opened, fetched),
    ensures
        fetched matches Ok(stream) && readers(stream.reader) == file.partition(),
{
}

/// Where there is no file, nothing is fetched, and the caller is told that the file
/// does not open.
pub proof fn law_absent_file_does_not_open<R>(
    path: Seq<char>,
    opened: Opened<R>,
    fetched: Result<LocalShuffleStream<R>, BallistaError>,
    take: Take<R>,
    readers: spec_fn(R) -> Partition,
)
    requires
        opens(None, opened, readers),
        is_fetched(path, opened, fetched),
        is_take(path, opened, take),
    ensures
        does_not_open(path, fetched),
        take matches Take::Fail(error) && does_not_open::<()>(path, Err(error)),
{
    let reason = opened->Missing_0@;
    assert(fetched->Err_0.is_general(open_failed_text(path, reason)));
    let refused = Err::<(), BallistaError>(take->Fail_0);
    assert(refused->Err_0.is_general(open_failed_text(path, reason)));
    assert(does_not_open(path, refused));
}

/// A file is taken once: the caller gets what it holds, and the file is gone.
pub proof fn law_file_is_taken_once<R>(
    path: Seq<char>,
    file: PartitionFile,
    opened: Opened<R>,
    take: Take<R>,
    removed: Result<(), std::io::Error>,
    readers: spec_fn(R) -> Partition,
)
    requires
        opens(Some(file), opened, readers),
        is_take(path, opened, take),
        removed is Ok,
    ensures
        take matches Take::Remove(stream) && taken(stream, removed) == Ok::<
            LocalShuffleStream<R>,
            BallistaError,
        >(stream) && readers(stream.reader) == file.partition(),
        file_after_take(Some(file), take, removed) is None,
{
}

/// A file that does not open as a partition file is not taken, and stays; so does one
/// that cannot be removed, and nothing is handed out of it.
pub proof fn law_refused_file_stays<R>(
    path: Seq<char>,
    file: Option<PartitionFile>,
    opened: Opened<R>,
    take: Take<R>,
    removed: Result<(), std::io::Error>,
)
    requires
        is_take(path, opened, take),
        !(opened is Reading) || removed is Err,
    ensures
        file_after_take(file, take, removed) == file,
        take matches Take::Remove(stream) ==> taken(stream, removed) is Err,
{
}

// Hybrid.

/// The state when the background work has been started.
pub open spec fn started() -> ForwardState {
    ForwardState::Starting.after(ForwardEvent::DiskStarted)
}

/// The state after `batches` were passed on, each sent before the next is read.
pub open spec fn forwarded(state: ForwardState, batches: Seq<Batch>) -> ForwardState
    decreases batches.len(),
{
    if batches.len() == 0 {
        state
    } else {
        forwarded(state, batches.drop_last()).after(ForwardEvent::Batch(batches.last())).after(
            ForwardEvent::Sent,
        )
    }
}

/// The batches that `requests` send to disk.
pub open spec fn sent_to_disk(requests: Seq<ForwardRequest>) -> Seq<Batch> {
    requests.map_values(|request: ForwardRequest| request->SendToDisk_0)
}

/// `requests` are what the batches of a source make necessary, one by one, and `end`
/// is what its end makes necessary.
pub open spec fn forwards(
    batches: Seq<Batch>,
    requests: Seq<ForwardRequest>,
    end: ForwardRequest,
) -> bool {
    &&& requests.len() == batches.len()
    &&& forall|i: int|
        0 <= i < batches.len() ==> forwarded(started(), batches.take(i)).asks(
            ForwardEvent::Batch(batches[i]),
            #[trigger] requests[i],
        )
    &&& forwarded(started(), batches).asks(ForwardEvent::Ended, end)
}

/// A source is passed on whole, however many batches it has: each of them can be read
/// and sent, all of them go to disk, in order, and at the end memory gets all of them,
/// in order.
pub proof fn law_source_is_forwarded(
    batches: Seq<Batch>,
    requests: Seq<ForwardRequest>,
    end: ForwardRequest,
)
    requires
        forwards(batches, requests, end),
    ensures
        ({
            let state = forwarded(started(), batches);
            &&& state == ForwardState::Reading(batches)
            &&& state.awaits(ForwardEvent::Ended)
            &&& state.after(ForwardEvent::Ended) is Done
        }),
        forall|i: int|
            0 <= i < batches.len() ==> {
                let state = forwarded(started(), #[trigger] batches.take(i));
                &&& state.awaits(ForwardEvent::Batch(batches[i]))
                &&& state.after(ForwardEvent::Batch(batches[i])).awaits(ForwardEvent::Sent)
            },
        sent_to_disk(requests) == batches,
        end matches ForwardRequest::StoreInMemory(waiting) && waiting@ == batches,
{
    batches_wait(batches);
    assert forall|i: int| 0 <= i < batches.len() implies forwarded(
        started(),
        #[trigger] batches.take(i),
    ) is Reading by {
        batches_wait(batches.take(i));
    }
    assert(sent_to_disk(requests) =~= batches);
}

proof fn batches_wait(batches: Seq<Batch>)
    ensures
        forwarded(started(), batches) == ForwardState::Reading(batches),
    decreases batches.len(),
{
    if batches.len() > 0 {
        batches_wait(batches.drop_last());
        assert(batches.drop_last().push(batches.last()) =~= batches);
    } else {
        assert(batches =~= Seq::empty());
    }
}

/// The passing on ends when the source fails or comes to its end, and only then;
/// nothing happens after the end.
pub proof fn law_forwarding_ends_once(state: ForwardState, event: ForwardEvent, later: ForwardEvent)
    requires
        state.awaits(event),
    ensures
        state.after(event) is Done <==> (event is Failed || event is Ended),
        !ForwardState::Done.awaits(later),
{
}

/// While a partition is on its way to disk, its file is not read.
pub proof fn law_unfinished_file_is_not_read<S>(
    contents: HybridContents<S>,
    path: Seq<char>,
    fetch: Fetch<S>,
)
    requires
        contents.writing.contains_key(path),
        is_fetch(contents, path, fetch),
    ensures
        !(fetch is Disk),
{
}

/// The mark that a partition is on its way to disk is there once the copying has
/// started and gone once a copying of that path has ended, and the marks of other
/// paths are not touched. Nothing else changes.
pub proof fn law_copying_is_marked<S>(
    contents: HybridContents<S>,
    path: Seq<char>,
    other: Seq<char>,
)
    requires
        path != other,
    ensures
        ({
            let started = contents.disk_write_started(path);
            let ended = started.disk_write_ended(path);
            &&& started.writing.contains_key(path)
            &&& !ended.writing.contains_key(path)
            &&& agree_on(contents.writing, started.writing, other)
            &&& agree_on(contents.writing, ended.writing, other)
            &&& started.memory == contents.memory && started.writers == contents.writers
            &&& ended.memory == contents.memory && ended.writers == contents.writers
        }),
{
}

/// A call on a hybrid store.
pub enum HybridCall<S> {
    StoreBatch { path: Seq<char>, batch: Batch },
    /// A batch is copied to disk. Where a file is created for it, its writer is
    /// reported by this number.
    CopyBatch { path: Seq<char>, batch: Batch, writer: u64 },
    FinalizeBatches { path: Seq<char> },
    StoreWaiting { path: Seq<char>, schema: SchemaRef, batches: Seq<Batch> },
    StorePartition { path: Seq<char>, stream: S },
    /// A fetch, a take or a delete.
    HandOut { path: Seq<char> },
    StartCopy { path: Seq<char> },
    EndCopy { path: Seq<char> },
}

/// What `calls` leave, one after the other.
pub open spec fn hybrid_after<S>(
    contents: HybridContents<S>,
    calls: Seq<HybridCall<S>>,
) -> HybridContents<S>
    decreases calls.len(),
{
    if calls.len() == 0 {
        contents
    } else {
        let before = hybrid_after(contents, calls.drop_last());
        match calls.last() {
            HybridCall::StoreBatch { path, batch } => before.store_batch(path, batch),
            HybridCall::CopyBatch { path, writer, .. } => before.writer_created(path, writer),
            HybridCall::FinalizeBatches { path } => before.finalize_batches(path),
            HybridCall::StoreWaiting { path, schema, batches } => before.store_waiting(
                path,
                schema,
                batches,
            ),
            HybridCall::StorePartition { path, stream } => before.store_partition(path, stream),
            HybridCall::HandOut { path } => before.without_stream(path),
            HybridCall::StartCopy { path } => before.disk_write_started(path),
            HybridCall::EndCopy { path } => before.disk_write_ended(path),
        }
    }
}

/// The partition under `path` is marked as on its way to disk.
pub open spec fn marked<S>(contents: HybridContents<S>, path: Seq<char>) -> bool {
    contents.writing.contains_key(path) && contents.writing[path]
}

/// The mark stands from before the file is created until the copying has ended: it is
/// set by the call that asks for the file to be created, and every call but the end of
/// a copying of that path keeps it.
pub proof fn law_mark_stands_while_copying<S>(
    contents: HybridContents<S>,
    path: Seq<char>,
    calls: Seq<HybridCall<S>>,
)
    requires
        forall|i: int|
            0 <= i < calls.len() ==> #[trigger] calls[i] != (HybridCall::<S>::EndCopy { path }),
    ensures
        marked(contents.disk_write_started(path), path),
        marked(hybrid_after(contents.disk_write_started(path), calls), path),
    decreases calls.len(),
{
    if calls.len() > 0 {
        let before = calls.drop_last();
        assert forall|i: int| 0 <= i < before.len() implies #[trigger] before[i] != (HybridCall::<
            S,
        >::EndCopy { path }) by {
            assert(calls[i] != (HybridCall::<S>::EndCopy { path }));
        }
        law_mark_stands_while_copying(contents, path, before);
        assert(calls[calls.len() - 1] != (HybridCall::<S>::EndCopy { path }));
    }
}

/// The file of a copying is created once, at its beginning: nothing that happens later
/// asks for it again. The answer that the end of the copying is reported with comes
/// when the writing is done and not before.
pub proof fn law_file_is_created_at_the_beginning(state: PartitionWrite, event: WriteEvent)
    requires
        state.awaits(event),
    ensures
        !(state.next(event).1 is CreateFile),
        state.next(event).1 is Return <==> state.next(event).0 is Done,
{
}

/// A partition is read from memory once and from disk afterwards: after a first
/// request that memory met, and with nothing on its way to disk, the next request is
/// for the file.
pub proof fn law_second_fetch_reads_disk<S>(
    contents: HybridContents<S>,
    path: Seq<char>,
    first: Fetch<S>,
    second: Fetch<S>,
)
    requires
        contents.memory.streams.contains_key(path),
        !contents.writing.contains_key(path),
        is_fetch(contents, path, first),
        is_fetch(contents.without_stream(path), path, second),
    ensures
        first is Memory,
        second is Disk,
{
}

/// A deleted partition is not in memory any more: a request for it is never met from
/// there.
pub proof fn law_deleted_is_not_in_memory<S>(
    contents: HybridContents<S>,
    path: Seq<char>,
    fetch: Fetch<S>,
)
    requires
        is_fetch(contents.without_stream(path), path, fetch),
    ensures
        !(fetch is Memory),
{
}

/// A deleted partition is nowhere: once its file was removed, and with nothing on its
/// way to disk, a request for it fails because there is no file to open.
pub proof fn law_deleted_partition_is_gone<S, R>(
    contents: HybridContents<S>,
    path: Seq<char>,
    file: Option<PartitionFile>,
    removed: Result<(), std::io::Error>,
    fetch: Fetch<S>,
    opened: Opened<R>,
    fetched: Result<LocalShuffleStream<R>, BallistaError>,
    readers: spec_fn(R) -> Partition,
)
    requires
        !contents.writing.contains_key(path),
        removed is Ok,
        is_fetch(contents.without_stream(path), path, fetch),
        opens(file_after_removal(file, removed), opened, readers),
        is_fetched(path, opened, fetched),
    ensures
        fetch is Disk,
        does_not_open(path, fetched),
{
    assert(fetched->Err_0.is_general(open_failed_text(path, opened->Missing_0@)));
}

/// Batches that a hybrid store gathers and finalizes are read back from memory, all
/// of them, in order, under the schema of the first.
pub proof fn law_hybrid_gives_back_batches<S>(
    contents: HybridContents<S>,
    path: Seq<char>,
    batches: Seq<Batch>,
    fetch: Fetch<S>,
)
    requires
        !contents.memory.batches.contains_key(path),
        batches.len() > 0,
        is_fetch(
            contents.with_memory(
                memory_after(contents.memory, path, batches).finalize_batches(path),
            ),
            path,
            fetch,
        ),
    ensures
        fetch matches Fetch::Memory(stream) && stream@ == (PartitionContents::<S>::Batches {
            schema: batch_schema(batches[0]),
            batches,
        }),
{
    law_memory_gives_back_batches(contents.memory, path, batches);
}

// Hybrid, a whole partition.

/// A stream that a hybrid store was given under a path is what the first request
/// there gets from memory, whether or not the partition is on its way to disk; with
/// nothing on its way, the second request is for the file.
pub proof fn law_hybrid_gives_back_partition<S>(
    contents: HybridContents<S>,
    path: Seq<char>,
    stream: S,
    first: Fetch<S>,
    second: Fetch<S>,
)
    requires
        is_fetch(contents.store_partition(path, stream), path, first),
        is_fetch(contents.store_partition(path, stream).without_stream(path), path, second),
    ensures
        first matches Fetch::Memory(found) && found@ == PartitionContents::Source(stream),
        !contents.writing.contains_key(path) ==> second is Disk,
        contents.writing.contains_key(path) ==> second is Fail,
{
}

/// Memory and file hold the same: of a source that is passed on whole, memory gets
/// the batches, in order, and the file that the copying leaves holds the same batches
/// in the same order under the schema of the source. `source` is what the copying
/// reads: what was sent to it, measured.
pub proof fn law_memory_and_file_hold_the_source(
    batches: Seq<Batch>,
    requests: Seq<ForwardRequest>,
    end: ForwardRequest,
    source: Seq<(Batch, usize)>,
    schema: SchemaRef,
)
    requires
        forwards(batches, requests, end),
        source_batches(source) == sent_to_disk(requests),
        countable(source),
    ensures
        end matches ForwardRequest::StoreInMemory(waiting) && waiting@ == batches,
        stored_file(source, schema).partition() == (Partition { schema, batches }),
        stored_file(source, schema).finished,
{
    law_source_is_forwarded(batches, requests, end);
    law_disk_keeps_partition(source, schema);
}

/// A caller whose request came out as `fetch`, and as `fetched` where it went on to
/// the file, reads `partition`.
pub open spec fn gives<S, R>(
    fetch: Fetch<S>,
    fetched: Result<LocalShuffleStream<R>, BallistaError>,
    readers: spec_fn(R) -> Partition,
    partition: Partition,
) -> bool {
    match fetch {
        Fetch::Memory(stream) => stream@ == (PartitionContents::<S>::Batches {
            schema: partition.schema,
            batches: partition.batches,
        }),
        Fetch::Disk => fetched matches Ok(stream) && readers(stream.reader) == partition,
        Fetch::Fail(_) => false,
    }
}

/// What the answers under `path` rest on is the same in both.
pub open spec fn hybrid_same_at<S>(
    a: HybridContents<S>,
    b: HybridContents<S>,
    path: Seq<char>,
) -> bool {
    same_at(a.memory, b.memory, path) && agree_on(a.writing, b.writing, path)
}

/// A source that is stored whole is read back whole: the first request gets its
/// batches, in order, under its schema, from memory, whatever has become of the
/// copying by then. `contents` is what the store held before, `later` what it holds
/// when the request comes, and `end` asked for the batches that memory was handed.
pub proof fn law_stored_partition_is_read_back<S>(
    contents: HybridContents<S>,
    later: HybridContents<S>,
    path: Seq<char>,
    schema: SchemaRef,
    batches: Seq<Batch>,
    requests: Seq<ForwardRequest>,
    end: ForwardRequest,
    fetch: Fetch<S>,
)
    requires
        forwards(batches, requests, end),
        same_at(
            contents.store_waiting(path, schema, end->StoreInMemory_0@).memory,
            later.memory,
            path,
        ),
        is_fetch(later, path, fetch),
    ensures
        fetch matches Fetch::Memory(stream) && stream@ == (PartitionContents::<S>::Batches {
            schema,
            batches,
        }),
{
    law_source_is_forwarded(batches, requests, end);
}

/// The store once a partition is in memory and its copying has ended.
pub open spec fn copied<S>(
    contents: HybridContents<S>,
    path: Seq<char>,
    schema: SchemaRef,
    batches: Seq<Batch>,
) -> HybridContents<S> {
    contents.store_waiting(path, schema, batches).disk_write_ended(path)
}

/// However the copying and the storing in memory overlap, they leave the same:
/// memory may get its batches before the copying starts, while it goes on, or after
/// it has ended.
pub proof fn law_copying_and_storing_commute<S>(
    contents: HybridContents<S>,
    path: Seq<char>,
    schema: SchemaRef,
    batches: Seq<Batch>,
)
    ensures
        contents.store_waiting(path, schema, batches).disk_write_started(path).disk_write_ended(
            path,
        ) == copied(contents, path, schema, batches),
        contents.disk_write_started(path).store_waiting(path, schema, batches).disk_write_ended(
            path,
        ) == copied(contents, path, schema, batches),
        contents.disk_write_started(path).disk_write_ended(path).store_waiting(
            path,
            schema,
            batches,
        ) == copied(contents, path, schema, batches),
{
    assert(contents.writing.insert(path, true).remove(path) =~= contents.writing.remove(path));
}

/// `states` are what a store holds before each of a series of requests for the
/// partition under `path`, which came out as `fetches`. In between, nothing else
/// touches that path.
pub open spec fn requested<S>(
    states: Seq<HybridContents<S>>,
    path: Seq<char>,
    fetches: Seq<Fetch<S>>,
) -> bool {
    &&& states.len() == fetches.len()
    &&& forall|i: int| 0 <= i < states.len() ==> is_fetch(states[i], path, #[trigger] fetches[i])
    &&& forall|i: int|
        0 < i < states.len() ==> hybrid_same_at(
            states[i - 1].without_stream(path),
            #[trigger] states[i],
            path,
        )
}

/// Of a series of requests for a partition that memory holds and nothing is on its
/// way to disk for, the first is met from memory and all later ones from the file.
pub proof fn law_memory_once_then_disk<S>(
    states: Seq<HybridContents<S>>,
    path: Seq<char>,
    fetches: Seq<Fetch<S>>,
)
    requires
        requested(states, path, fetches),
        states.len() > 0 ==> states[0].memory.streams.contains_key(path),
        states.len() > 0 ==> !states[0].writing.contains_key(path),
    ensures
        forall|i: int|
            0 <= i < fetches.len() ==> if i == 0 {
                (#[trigger] fetches[i]) matches Fetch::Memory(stream) && stream@
                    == states[0].memory.streams[path]
            } else {
                fetches[i] is Disk
            },
    decreases states.len(),
{
    if states.len() > 1 {
        let last = states.len() - 1;
        law_memory_once_then_disk(states.drop_last(), path, fetches.drop_last());
        only_the_first_is_in_memory(states, path, fetches, last);
        assert forall|i: int| 0 <= i < fetches.len() implies if i == 0 {
            (#[trigger] fetches[i]) matches Fetch::Memory(stream) && stream@
                == states[0].memory.streams[path]
        } else {
            fetches[i] is Disk
        } by {
            if i < last {
                assert(fetches.drop_last()[i] == fetches[i]);
            } else {
                assert(is_fetch(states[i], path, fetches[i]));
            }
        }
    } else if states.len() == 1 {
        assert(is_fetch(states[0], path, fetches[0]));
    }
}

proof fn only_the_first_is_in_memory<S>(
    states: Seq<HybridContents<S>>,
    path: Seq<char>,
    fetches: Seq<Fetch<S>>,
    i: int,
)
    requires
        requested(states, path, fetches),
        0 < i < states.len(),
        !states[0].writing.contains_key(path),
    ensures
        !states[i].memory.streams.contains_key(path),
        !states[i].writing.contains_key(path),
    decreases i,
{
    if i > 1 {
        only_the_first_is_in_memory(states, path, fetches, i - 1);
    }
    assert(hybrid_same_at(states[i - 1].without_stream(path), states[i], path));
}

/// A source that was stored whole and copied with success can be fetched any number
/// of times: every request gets its batches, in order, under its schema, the first
/// from memory and all later ones from the file.
pub proof fn law_copied_partition_is_fetched_again<S, R>(
    contents: HybridContents<S>,
    states: Seq<HybridContents<S>>,
    path: Seq<char>,
    schema: SchemaRef,
    batches: Seq<Batch>,
    requests: Seq<ForwardRequest>,
    end: ForwardRequest,
    source: Seq<(Batch, usize)>,
    fetches: Seq<Fetch<S>>,
    opened: Seq<Opened<R>>,
    fetched: Seq<Result<LocalShuffleStream<R>, BallistaError>>,
    readers: spec_fn(R) -> Partition,
)
    requires
        forwards(batches, requests, end),
        source_batches(source) == sent_to_disk(requests),
        countable(source),
        requested(states, path, fetches),
        states.len() > 0 ==> hybrid_same_at(
            copied(contents, path, schema, end->StoreInMemory_0@),
            states[0],
            path,
        ),
        opened.len() == states.len(),
        fetched.len() == states.len(),
        forall|i: int|
            0 <= i < states.len() && fetches[i] is Disk ==> {
                &&& opens(Some(stored_file(source, schema)), #[trigger] opened[i], readers)
                &&& is_fetched(path, opened[i], fetched[i])
            },
    ensures
        forall|i: int|
            0 <= i < fetches.len() ==> {
                &&& (#[trigger] fetches[i] is Memory <==> i == 0)
                &&& (fetches[i] is Disk <==> i > 0)
                &&& gives(fetches[i], fetched[i], readers, Partition { schema, batches })
            },
{
    law_memory_and_file_hold_the_source(batches, requests, end, source, schema);
    law_memory_once_then_disk(states, path, fetches);
    assert forall|i: int| 0 <= i < fetches.len() implies {
        &&& (#[trigger] fetches[i] is Memory <==> i == 0)
        &&& (fetches[i] is Disk <==> i > 0)
        &&& gives(fetches[i], fetched[i], readers, Partition { schema, batches })
    } by {
        if i > 0 {
            assert(fetches[i] is Disk);
            assert(opens(Some(stored_file(source, schema)), opened[i], readers));
        }
    }
}

/// What a caller gets that takes a partition from its file.
pub open spec fn take_gives<R>(
    take: Take<R>,
    removed: Result<(), std::io::Error>,
) -> Result<LocalShuffleStream<R>, BallistaError> {
    match take {
        Take::Remove(stream) => taken(stream, removed),
        Take::Fail(error) => Err(error),
    }
}

/// What is left of the file once a request to take came out as `fetch`, and as `take`
/// where it went on to the file.
pub open spec fn file_after_request<S, R>(
    file: Option<PartitionFile>,
    fetch: Fetch<S>,
    take: Take<R>,
    removed: Result<(), std::io::Error>,
) -> Option<PartitionFile> {
    if fetch is Disk {
        file_after_take(file, take, removed)
    } else {
        file
    }
}

/// A source that was stored whole and copied with success can be taken twice: first
/// from memory, with the file left in place, then from the file, which is then gone.
/// A third request fails because there is no file to open. `files` are what is at the
/// path before each request.
pub proof fn law_copied_partition_is_taken_twice<S, R>(
    contents: HybridContents<S>,
    states: Seq<HybridContents<S>>,
    path: Seq<char>,
    schema: SchemaRef,
    batches: Seq<Batch>,
    requests: Seq<ForwardRequest>,
    end: ForwardRequest,
    source: Seq<(Batch, usize)>,
    fetches: Seq<Fetch<S>>,
    files: Seq<Option<PartitionFile>>,
    opened: Seq<Opened<R>>,
    takes: Seq<Take<R>>,
    removed: Seq<Result<(), std::io::Error>>,
    readers: spec_fn(R) -> Partition,
)
    requires
        forwards(batches, requests, end),
        source_batches(source) == sent_to_disk(requests),
        countable(source),
        states.len() == 3,
        requested(states, path, fetches),
        hybrid_same_at(
            copied(contents, path, schema, end->StoreInMemory_0@),
            states[0],
            path,
        ),
        files.len() == 3,
        opened.len() == 3,
        takes.len() == 3,
        removed.len() == 3,
        files[0] == Some(stored_file(source, schema)),
        forall|i: int|
            0 < i < 3 ==> #[trigger] files[i] == file_after_request(
                files[i - 1],
                fetches[i - 1],
                takes[i - 1],
                removed[i - 1],
            ),
        forall|i: int|
            0 <= i < 3 && fetches[i] is Disk ==> {
                &&& opens(files[i], #[trigger] opened[i], readers)
                &&& is_take(path, opened[i], takes[i])
                &&& files[i] is Some ==> removed[i] is Ok
            },
    ensures
        fetches[0] is Memory,
        gives(
            fetches[0],
            take_gives(takes[0], removed[0]),
            readers,
            Partition { schema, batches },
        ),
        files[1] == files[0],
        fetches[1] is Disk,
        gives(
            fetches[1],
            take_gives(takes[1], removed[1]),
            readers,
            Partition { schema, batches },
        ),
        files[2] is None,
        fetches[2] is Disk,
        does_not_open(path, take_gives(takes[2], removed[2])),
{
    law_memory_and_file_hold_the_source(batches, requests, end, source, schema);
    law_memory_once_then_disk(states, path, fetches);
    assert(fetches[0] is Memory && fetches[1] is Disk && fetches[2] is Disk);
    assert(files[1] == files[0]);
    assert(opens(files[1], opened[1], readers));
    assert(files[2] is None);
    assert(opens(files[2], opened[2], readers));
    let answer = take_gives(takes[2], removed[2]);
    assert(answer->Err_0.is_general(open_failed_text(path, opened[2]->Missing_0@)));
}

} // verus!
