//! What each operation does with what it is given, and what it leaves alone.
//!
//! Each law says of one operation, for every state and every argument, what changes
//! under its own path, that nothing changes anywhere else, and how the answers to
//! later requests follow from that.
use crate::batch::{batch_rows, batch_schema, Batch};
use crate::disk::{
    batch_write, is_fetched, is_take, open_writer, taken, with_writer, BatchWrite, Opened,
    PartitionWrite, StoredTotals, Take, WriteEvent, WriteRequest,
};
use crate::error::{
    not_in_memory_text, open_failed_text, reader_failed_text, source_failed_text, BallistaError,
};
use crate::hybrid::{is_fetch, Fetch, ForwardEvent, ForwardRequest, ForwardState, HybridContents};
use crate::laws::{
    calls_on, disk_after, disk_allows, hybrid_after, hybrid_same_at, law_disk_keeps_paths_apart,
    path_after, DiskCall, DiskContents, HybridCall,
};
use crate::memory::{GatheredBatches, MemoryContents};
use crate::store_ref::PartitionStoreRef;
use crate::stream::{
    arrow_cause, memory_stream_batches, memory_stream_schema, yields, LocalShuffleStream,
    PartitionContents, PartitionStream,
};
use datafusion::arrow::datatypes::SchemaRef;
use datafusion::arrow::error::ArrowError;
use datafusion::error::DataFusionError;
use datafusion::physical_plan::memory::MemoryStream;
use std::sync::Arc;
use vstd::prelude::*;

verus! {

// Memory.

/// A new store holds nothing under any path.
pub proof fn law_memory_starts_empty<S>(path: Seq<char>)
    ensures
        !MemoryContents::<S>::empty().streams.contains_key(path),
        !MemoryContents::<S>::empty().batches.contains_key(path),
{
}

/// Gathering a batch makes what is gathered under its path one batch longer, at the
/// end; the first batch there fixes the schema for good. Other paths, and all that can
/// be taken, stay.
pub proof fn law_gathering_adds_one_batch<S>(
    contents: MemoryContents<S>,
    path: Seq<char>,
    batch: Batch,
)
    ensures
        ({
            let after = contents.store_batch(path, batch);
            &&& after.streams == contents.streams
            &&& after.batches.remove(path) == contents.batches.remove(path)
            &&& after.batches.contains_key(path)
            &&& after.batches[path].batches.last() == batch
            &&& contents.batches.contains_key(path) ==> {
                &&& after.batches[path].batches.drop_last() == contents.batches[path].batches
                &&& after.batches[path].schema == contents.batches[path].schema
            }
            &&& !contents.batches.contains_key(path) ==> {
                &&& after.batches[path].batches.len() == 1
                &&& after.batches[path].schema == batch_schema(batch)
            }
        }),
{
    let after = contents.store_batch(path, batch);
    assert(after.batches.remove(path) =~= contents.batches.remove(path));
    if contents.batches.contains_key(path) {
        assert(after.batches[path].batches.drop_last() =~= contents.batches[path].batches);
    }
}

/// Finalizing moves what was gathered under its path, batches and schema, to what can
/// be taken there. Other paths stay.
pub proof fn law_finalizing_moves_batches<S>(contents: MemoryContents<S>, path: Seq<char>)
    requires
        contents.batches.contains_key(path),
    ensures
        ({
            let after = contents.finalize_batches(path);
            &&& !after.batches.contains_key(path)
            &&& after.batches.remove(path) == contents.batches.remove(path)
            &&& after.streams.remove(path) == contents.streams.remove(path)
            &&& after.streams.contains_key(path)
            &&& after.streams[path] matches PartitionContents::Batches { schema, batches }
            &&& schema == contents.batches[path].schema
            &&& batches == contents.batches[path].batches
        }),
{
    let after = contents.finalize_batches(path);
    assert(after.batches.remove(path) =~= contents.batches.remove(path));
    assert(after.streams.remove(path) =~= contents.streams.remove(path));
}

/// Storing a whole partition changes what can be taken under its path, to what was
/// stored, and nothing else: neither other paths nor what is being gathered anywhere.
pub proof fn law_storing_touches_one_path<S>(
    contents: MemoryContents<S>,
    path: Seq<char>,
    schema: SchemaRef,
    batches: Seq<Batch>,
    stream: S,
)
    ensures
        ({
            let after = contents.store_waiting(path, schema, batches);
            &&& after.batches == contents.batches
            &&& after.streams.remove(path) == contents.streams.remove(path)
            &&& after.streams.contains_key(path)
            &&& after.streams[path] == (PartitionContents::<S>::Batches { schema, batches })
        }),
        ({
            let after = contents.store_partition(path, stream);
            &&& after.batches == contents.batches
            &&& after.streams.remove(path) == contents.streams.remove(path)
            &&& after.streams.contains_key(path)
            &&& after.streams[path] == PartitionContents::Source(stream)
        }),
{
    let waiting = contents.store_waiting(path, schema, batches);
    let whole = contents.store_partition(path, stream);
    assert(waiting.streams.remove(path) =~= contents.streams.remove(path));
    assert(whole.streams.remove(path) =~= contents.streams.remove(path));
}

/// Handing out takes away what can be taken under its path, and nothing else: neither
/// other paths nor what is being gathered anywhere.
pub proof fn law_handing_out_touches_one_path<S>(contents: MemoryContents<S>, path: Seq<char>)
    ensures
        ({
            let after = contents.without_stream(path);
            &&& after.batches == contents.batches
            &&& after.streams.remove(path) == contents.streams.remove(path)
            &&& !after.streams.contains_key(path)
        }),
{
    assert(contents.without_stream(path).streams.remove(path) =~= contents.streams.remove(path));
}

/// A partition of gathered batches is the stream that yields them, and one that was
/// handed over whole is that very stream.
pub proof fn law_partition_is_its_stream<S>(stream: MemoryStream, whole: S)
    ensures
        PartitionStream::<S>::Buffered(stream)@ == (PartitionContents::<S>::Batches {
            schema: memory_stream_schema(stream),
            batches: memory_stream_batches(stream),
        }),
        PartitionStream::Source(whole)@ == PartitionContents::Source(whole),
{
}

// Hybrid.

/// A new store holds nothing under any path, has no writer open and no mark, and keeps
/// the threshold it was given.
pub proof fn law_hybrid_starts_empty<S>(memory_threshold_bytes: Option<u64>, path: Seq<char>)
    ensures
        ({
            let contents = HybridContents::<S>::empty(memory_threshold_bytes);
            &&& !contents.memory.streams.contains_key(path)
            &&& !contents.memory.batches.contains_key(path)
            &&& !contents.writers.contains_key(path)
            &&& !contents.writing.contains_key(path)
            &&& contents.memory_threshold_bytes == memory_threshold_bytes
        }),
{
}

/// A request is met from memory where memory holds the partition, whatever else goes
/// on. Where it does not, the caller is told so while the partition is on its way to
/// disk, and is otherwise sent to the file.
pub proof fn law_fetch_prefers_memory<S>(
    contents: HybridContents<S>,
    path: Seq<char>,
    fetch: Fetch<S>,
)
    requires
        is_fetch(contents, path, fetch),
    ensures
        contents.memory.streams.contains_key(path) <==> fetch is Memory,
        fetch matches Fetch::Memory(found) ==> found@ == contents.memory.streams[path],
        fetch is Fail <==> (!contents.memory.streams.contains_key(path)
            && contents.writing.contains_key(path)),
        fetch matches Fetch::Fail(error) ==> {
            &&& error matches BallistaError::General(message)
            &&& message@ == "Partition not found in in-memory store: "@ + path
        },
        fetch is Disk <==> (!contents.memory.streams.contains_key(path)
            && !contents.writing.contains_key(path)),
{
}

/// Gathering a batch adds it to what memory gathers under its path, whatever the
/// memory threshold is, and changes nothing that can be read, no writer and no mark.
pub proof fn law_hybrid_gathers_in_memory<S>(
    contents: HybridContents<S>,
    path: Seq<char>,
    batch: Batch,
    other: Seq<char>,
    fetch: Fetch<S>,
)
    ensures
        ({
            let after = contents.store_batch(path, batch);
            &&& after.memory.streams == contents.memory.streams
            &&& after.memory.batches.remove(path) == contents.memory.batches.remove(path)
            &&& after.memory.batches.contains_key(path)
            &&& after.memory.batches[path].batches.last() == batch
            &&& contents.memory.batches.contains_key(path) ==> {
                &&& after.memory.batches[path].batches.drop_last()
                    == contents.memory.batches[path].batches
                &&& after.memory.batches[path].schema == contents.memory.batches[path].schema
            }
            &&& !contents.memory.batches.contains_key(path) ==> {
                &&& after.memory.batches[path].batches.len() == 1
                &&& after.memory.batches[path].schema == batch_schema(batch)
            }
            &&& after.writers == contents.writers
            &&& after.writing == contents.writing
            &&& after.memory_threshold_bytes == contents.memory_threshold_bytes
            &&& is_fetch(after, other, fetch) <==> is_fetch(contents, other, fetch)
        }),
{
    law_gathering_adds_one_batch(contents.memory, path, batch);
}

/// A reported writer is the one that is open at its path from then on, unless one was
/// open before. Other writers, memory and marks stay.
pub proof fn law_hybrid_keeps_reported_writer<S>(
    contents: HybridContents<S>,
    path: Seq<char>,
    writer: u64,
)
    ensures
        ({
            let after = contents.writer_created(path, writer);
            &&& after.writers.remove(path) == contents.writers.remove(path)
            &&& after.writers.contains_key(path)
            &&& contents.writers.contains_key(path) ==> after.writers[path]
                == contents.writers[path]
            &&& !contents.writers.contains_key(path) ==> after.writers[path] == writer
            &&& after.memory == contents.memory
            &&& after.writing == contents.writing
            &&& after.memory_threshold_bytes == contents.memory_threshold_bytes
        }),
{
    assert(contents.writer_created(path, writer).writers.remove(path)
        =~= contents.writers.remove(path));
}

/// Finalizing one path moves what was gathered there to what can be read, closes its
/// writer, and changes nothing under any other path: neither what is gathered or can be
/// read there nor its writer. Where nothing was gathered, nothing changes at all.
pub proof fn law_hybrid_finalizes_one_path<S>(
    contents: HybridContents<S>,
    path: Seq<char>,
    other: Seq<char>,
    fetch: Fetch<S>,
)
    ensures
        ({
            let after = contents.finalize_batches(path);
            &&& after.memory.streams.remove(path) == contents.memory.streams.remove(path)
            &&& after.memory.batches.remove(path) == contents.memory.batches.remove(path)
            &&& after.writers.remove(path) == contents.writers.remove(path)
            &&& after.writing == contents.writing
            &&& after.memory_threshold_bytes == contents.memory_threshold_bytes
            &&& !contents.memory.batches.contains_key(path) ==> after == contents
            &&& contents.memory.batches.contains_key(path) ==> {
                &&& !after.memory.batches.contains_key(path)
                &&& !after.writers.contains_key(path)
                &&& after.memory.streams.contains_key(path)
                &&& after.memory.streams[path] == (PartitionContents::<S>::Batches {
                    schema: contents.memory.batches[path].schema,
                    batches: contents.memory.batches[path].batches,
                })
            }
            &&& other != path ==> {
                &&& open_writer(after.writers, other) == open_writer(contents.writers, other)
                &&& hybrid_same_at(contents, after, other)
                &&& is_fetch(after, other, fetch) <==> is_fetch(contents, other, fetch)
            }
        }),
{
    let after = contents.finalize_batches(path);
    if contents.memory.batches.contains_key(path) {
        law_finalizing_moves_batches(contents.memory, path);
        assert(after.writers.remove(path) =~= contents.writers.remove(path));
    }
}

/// Storing a whole partition makes it what is read under its path, and leaves the rest
/// as it was: what memory holds under every other path, what is being gathered, the
/// open writers and the marks. So every other path is answered as before.
pub proof fn law_hybrid_stores_under_one_path<S>(
    contents: HybridContents<S>,
    path: Seq<char>,
    schema: SchemaRef,
    batches: Seq<Batch>,
    stream: S,
    other: Seq<char>,
    fetch: Fetch<S>,
)
    ensures
        ({
            let after = contents.store_waiting(path, schema, batches);
            &&& after.memory.streams.remove(path) == contents.memory.streams.remove(path)
            &&& after.memory.streams.contains_key(path)
            &&& after.memory.streams[path] == (PartitionContents::<S>::Batches { schema, batches })
            &&& after.memory.batches == contents.memory.batches
            &&& after.writers == contents.writers
            &&& after.writing == contents.writing
            &&& after.memory_threshold_bytes == contents.memory_threshold_bytes
            &&& other != path ==> {
                &&& hybrid_same_at(contents, after, other)
                &&& is_fetch(after, other, fetch) <==> is_fetch(contents, other, fetch)
            }
        }),
        ({
            let after = contents.store_partition(path, stream);
            &&& after.memory.streams.remove(path) == contents.memory.streams.remove(path)
            &&& after.memory.streams.contains_key(path)
            &&& after.memory.streams[path] == PartitionContents::Source(stream)
            &&& after.memory.batches == contents.memory.batches
            &&& after.writers == contents.writers
            &&& after.writing == contents.writing
            &&& after.memory_threshold_bytes == contents.memory_threshold_bytes
            &&& other != path ==> {
                &&& hybrid_same_at(contents, after, other)
                &&& is_fetch(after, other, fetch) <==> is_fetch(contents, other, fetch)
            }
        }),
{
    law_storing_touches_one_path(contents.memory, path, schema, batches, stream);
}

/// A fetch, a take or a delete touches its own path, and there only what can be read:
/// every other path, what is being gathered, the writers and the marks stay. So every
/// other path is answered as before.
pub proof fn law_hybrid_hands_out_one_path<S>(
    contents: HybridContents<S>,
    path: Seq<char>,
    other: Seq<char>,
    fetch: Fetch<S>,
)
    ensures
        ({
            let after = contents.without_stream(path);
            &&& after.memory.streams.remove(path) == contents.memory.streams.remove(path)
            &&& !after.memory.streams.contains_key(path)
            &&& after.memory.batches == contents.memory.batches
            &&& after.writers == contents.writers
            &&& after.writing == contents.writing
            &&& after.memory_threshold_bytes == contents.memory_threshold_bytes
            &&& other != path ==> {
                &&& hybrid_same_at(contents, after, other)
                &&& is_fetch(after, other, fetch) <==> is_fetch(contents, other, fetch)
            }
        }),
{
    law_handing_out_touches_one_path(contents.memory, path);
}

/// A copying that starts or ends sets or takes away the mark of its path, and changes
/// nothing else: no other mark, no writer and nothing in memory.
pub proof fn law_copying_touches_one_mark<S>(contents: HybridContents<S>, path: Seq<char>)
    ensures
        ({
            let after = contents.disk_write_started(path);
            &&& after.writing.remove(path) == contents.writing.remove(path)
            &&& after.writing.contains_key(path)
            &&& after.writing[path]
            &&& after.memory == contents.memory
            &&& after.writers == contents.writers
            &&& after.memory_threshold_bytes == contents.memory_threshold_bytes
        }),
        ({
            let after = contents.disk_write_ended(path);
            &&& after.writing.remove(path) == contents.writing.remove(path)
            &&& !after.writing.contains_key(path)
            &&& after.memory == contents.memory
            &&& after.writers == contents.writers
            &&& after.memory_threshold_bytes == contents.memory_threshold_bytes
        }),
{
    assert(contents.disk_write_started(path).writing.remove(path)
        =~= contents.writing.remove(path));
    assert(contents.disk_write_ended(path).writing.remove(path) =~= contents.writing.remove(path));
}

/// What a hybrid store holds after each of `batches` was stored under `path`, first to
/// last.
pub open spec fn hybrid_gathered<S>(
    contents: HybridContents<S>,
    path: Seq<char>,
    batches: Seq<Batch>,
) -> HybridContents<S>
    decreases batches.len(),
{
    if batches.len() == 0 {
        contents
    } else {
        hybrid_gathered(contents, path, batches.drop_last()).store_batch(path, batches.last())
    }
}

/// Batches that a hybrid store is given one by one are gathered, all of them, in order,
/// under the schema of the first, whatever the memory threshold is. Nothing else
/// changes.
pub proof fn law_hybrid_gathers_batches<S>(
    contents: HybridContents<S>,
    path: Seq<char>,
    batches: Seq<Batch>,
)
    requires
        !contents.memory.batches.contains_key(path),
        batches.len() > 0,
    ensures
        ({
            let stored = hybrid_gathered(contents, path, batches);
            &&& stored.memory.batches.contains_key(path)
            &&& stored.memory.batches[path].schema == batch_schema(batches[0])
            &&& stored.memory.batches[path].batches == batches
            &&& stored.memory.batches.remove(path) == contents.memory.batches.remove(path)
            &&& stored.memory.streams == contents.memory.streams
            &&& stored.writers == contents.writers
            &&& stored.writing == contents.writing
            &&& stored.memory_threshold_bytes == contents.memory_threshold_bytes
        }),
    decreases batches.len(),
{
    let before = batches.drop_last();
    assert(before.push(batches.last()) =~= batches);
    let stored = hybrid_gathered(contents, path, batches);
    let earlier = hybrid_gathered(contents, path, before);
    if before.len() > 0 {
        law_hybrid_gathers_batches(contents, path, before);
    } else {
        assert(earlier == contents);
    }
    law_gathering_adds_one_batch(earlier.memory, path, batches.last());
    let held = stored.memory.batches[path].batches;
    assert(held =~= batches);
}

/// Batches that a hybrid store is given one by one and then finalizes are read back
/// from memory, all of them, in order, under the schema of the first, whatever the
/// memory threshold is. Every other path is answered as before.
pub proof fn law_hybrid_gives_back_what_it_gathered<S>(
    contents: HybridContents<S>,
    path: Seq<char>,
    batches: Seq<Batch>,
    fetch: Fetch<S>,
    other: Seq<char>,
    other_fetch: Fetch<S>,
)
    requires
        !contents.memory.batches.contains_key(path),
        batches.len() > 0,
        is_fetch(hybrid_gathered(contents, path, batches).finalize_batches(path), path, fetch),
    ensures
        fetch matches Fetch::Memory(PartitionStream::Buffered(stream)) && memory_stream_batches(
            stream,
        ) == batches && memory_stream_schema(stream) == batch_schema(batches[0]),
        ({
            let after = hybrid_gathered(contents, path, batches).finalize_batches(path);
            &&& after.memory.batches == contents.memory.batches
            &&& after.memory.streams.remove(path) == contents.memory.streams.remove(path)
            &&& after.writers == contents.writers.remove(path)
            &&& other != path ==> (is_fetch(after, other, other_fetch) <==> is_fetch(
                contents,
                other,
                other_fetch,
            ))
        }),
{
    let stored = hybrid_gathered(contents, path, batches);
    let after = stored.finalize_batches(path);
    law_hybrid_gathers_batches(contents, path, batches);
    law_hybrid_finalizes_one_path(stored, path, other, other_fetch);
    assert(after.memory.batches =~= contents.memory.batches) by {
        assert(after.memory.batches.remove(path) =~= after.memory.batches);
        assert(contents.memory.batches.remove(path) =~= contents.memory.batches);
    }
    assert(after.writers =~= contents.writers.remove(path)) by {
        assert(after.writers.remove(path) =~= after.writers);
    }
}

/// A whole partition that a hybrid store is given is read back from memory, batch by
/// batch, under its schema.
pub proof fn law_hybrid_gives_back_what_waited<S>(
    contents: HybridContents<S>,
    path: Seq<char>,
    schema: SchemaRef,
    batches: Seq<Batch>,
    fetch: Fetch<S>,
)
    requires
        is_fetch(contents.store_waiting(path, schema, batches), path, fetch),
    ensures
        fetch matches Fetch::Memory(PartitionStream::Buffered(stream)) && memory_stream_batches(
            stream,
        ) == batches && memory_stream_schema(stream) == schema,
{
}

// Hybrid, many paths.

/// What there is at one path of a hybrid store.
#[verifier::ext_equal]
pub struct HybridPath<S> {
    /// What can be read from memory.
    pub stream: Option<PartitionContents<S>>,
    /// What is being gathered in memory.
    pub gathered: Option<GatheredBatches>,
    /// The writer of the copy.
    pub writer: Option<u64>,
    /// The mark of a copying.
    pub writing: Option<bool>,
}

/// What there is at `path`.
pub open spec fn hybrid_at<S>(contents: HybridContents<S>, path: Seq<char>) -> HybridPath<S> {
    HybridPath {
        stream: contents.memory.streams.get(path),
        gathered: contents.memory.batches.get(path),
        writer: contents.writers.get(path),
        writing: contents.writing.get(path),
    }
}

/// The path that a call is about.
pub open spec fn hybrid_call_on<S>(call: HybridCall<S>) -> Seq<char> {
    match call {
        HybridCall::StoreBatch { path, .. } => path,
        HybridCall::CopyBatch { path, .. } => path,
        HybridCall::FinalizeBatches { path } => path,
        HybridCall::StoreWaiting { path, .. } => path,
        HybridCall::StorePartition { path, .. } => path,
        HybridCall::HandOut { path } => path,
        HybridCall::StartCopy { path } => path,
        HybridCall::EndCopy { path } => path,
    }
}

impl<S> HybridPath<S> {
    /// What a call on the path leaves there.
    pub open spec fn after(self, call: HybridCall<S>) -> Self {
        match call {
            HybridCall::StoreBatch { batch, .. } => HybridPath {
                gathered: Some(
                    match self.gathered {
                        Some(held) => GatheredBatches {
                            schema: held.schema,
                            batches: held.batches.push(batch),
                        },
                        None => GatheredBatches {
                            schema: batch_schema(batch),
                            batches: seq![batch],
                        },
                    },
                ),
                ..self
            },
            HybridCall::CopyBatch { writer, .. } => HybridPath {
                writer: Some(
                    match self.writer {
                        Some(open) => open,
                        None => writer,
                    },
                ),
                ..self
            },
            HybridCall::FinalizeBatches { .. } => match self.gathered {
                Some(held) => HybridPath {
                    stream: Some(
                        PartitionContents::Batches { schema: held.schema, batches: held.batches },
                    ),
                    gathered: None,
                    writer: None,
                    ..self
                },
                None => self,
            },
            HybridCall::StoreWaiting { schema, batches, .. } => HybridPath {
                stream: Some(PartitionContents::Batches { schema, batches }),
                ..self
            },
            HybridCall::StorePartition { stream, .. } => HybridPath {
                stream: Some(PartitionContents::Source(stream)),
                ..self
            },
            HybridCall::HandOut { .. } => HybridPath { stream: None, ..self },
            HybridCall::StartCopy { .. } => HybridPath { writing: Some(true), ..self },
            HybridCall::EndCopy { .. } => HybridPath { writing: None, ..self },
        }
    }
}

/// Those of `calls` that are about `path`, in their order.
pub open spec fn hybrid_calls_on<S>(
    calls: Seq<HybridCall<S>>,
    path: Seq<char>,
) -> Seq<HybridCall<S>>
    decreases calls.len(),
{
    if calls.len() == 0 {
        Seq::empty()
    } else if hybrid_call_on(calls.last()) == path {
        hybrid_calls_on(calls.drop_last(), path).push(calls.last())
    } else {
        hybrid_calls_on(calls.drop_last(), path)
    }
}

/// What `calls` on one path leave there, one after the other.
pub open spec fn hybrid_path_after<S>(at: HybridPath<S>, calls: Seq<HybridCall<S>>) -> HybridPath<S>
    decreases calls.len(),
{
    if calls.len() == 0 {
        at
    } else {
        hybrid_path_after(at, calls.drop_last()).after(calls.last())
    }
}

/// However calls on many paths are interleaved, what a hybrid store holds at a path is
/// what the calls on that path alone leave there, whatever the memory threshold is.
pub proof fn law_hybrid_keeps_paths_apart<S>(
    contents: HybridContents<S>,
    calls: Seq<HybridCall<S>>,
    path: Seq<char>,
)
    ensures
        hybrid_at(hybrid_after(contents, calls), path) == hybrid_path_after(
            hybrid_at(contents, path),
            hybrid_calls_on(calls, path),
        ),
        hybrid_after(contents, calls).memory_threshold_bytes == contents.memory_threshold_bytes,
    decreases calls.len(),
{
    if calls.len() > 0 {
        let earlier = calls.drop_last();
        let before = hybrid_after(contents, earlier);
        let after = hybrid_after(contents, calls);
        law_hybrid_keeps_paths_apart(contents, earlier, path);
        if hybrid_call_on(calls.last()) == path {
            let own = hybrid_calls_on(calls, path);
            assert(own.drop_last() =~= hybrid_calls_on(earlier, path));
            if let HybridCall::StoreBatch { batch, .. } = calls.last() {
                if !before.memory.batches.contains_key(path) {
                    assert(Seq::<Batch>::empty().push(batch) =~= seq![batch]);
                }
            }
            assert(hybrid_at(after, path) =~= hybrid_at(before, path).after(calls.last()));
        } else {
            assert(hybrid_at(after, path) =~= hybrid_at(before, path));
        }
    }
}

/// The calls that `calls` on a hybrid store make on the disk, where finishing a file
/// does not fail: each copied batch is stored there, and finalizing reaches the disk
/// where memory gathered something.
pub open spec fn disk_calls<S>(
    contents: HybridContents<S>,
    calls: Seq<HybridCall<S>>,
) -> Seq<DiskCall>
    decreases calls.len(),
{
    if calls.len() == 0 {
        Seq::empty()
    } else {
        let earlier = disk_calls(contents, calls.drop_last());
        match calls.last() {
            HybridCall::CopyBatch { path, batch, writer } => earlier.push(
                DiskCall::Store { path, batch, writer },
            ),
            HybridCall::FinalizeBatches { path } => if hybrid_after(
                contents,
                calls.drop_last(),
            ).memory.batches.contains_key(path) {
                earlier.push(DiskCall::Finalize { path })
            } else {
                earlier
            },
            _ => earlier,
        }
    }
}

/// A hybrid store knows the writers of its copies: whatever is called, the writers it
/// has open are those that the calls on the disk leave open.
pub proof fn law_hybrid_knows_open_writers<S>(
    contents: HybridContents<S>,
    disk: DiskContents,
    calls: Seq<HybridCall<S>>,
)
    requires
        disk.writers == contents.writers,
    ensures
        disk_after(disk, disk_calls(contents, calls)).writers == hybrid_after(
            contents,
            calls,
        ).writers,
    decreases calls.len(),
{
    if calls.len() > 0 {
        let earlier = calls.drop_last();
        let made = disk_calls(contents, earlier);
        law_hybrid_knows_open_writers(contents, disk, earlier);
        assert forall|call: DiskCall| #[trigger] made.push(call).drop_last() == made by {
            assert(made.push(call).drop_last() =~= made);
        }
    }
}

/// The calls that reach the disk for a path are those that the calls on that path alone
/// make there.
pub proof fn law_disk_calls_are_the_paths_own<S>(
    contents: HybridContents<S>,
    calls: Seq<HybridCall<S>>,
    path: Seq<char>,
)
    ensures
        calls_on(disk_calls(contents, calls), path) == disk_calls(
            contents,
            hybrid_calls_on(calls, path),
        ),
    decreases calls.len(),
{
    if calls.len() > 0 {
        let earlier = calls.drop_last();
        let own = hybrid_calls_on(earlier, path);
        let made = disk_calls(contents, earlier);
        law_disk_calls_are_the_paths_own(contents, earlier, path);
        assert forall|call: DiskCall| #[trigger] made.push(call).drop_last() == made by {
            assert(made.push(call).drop_last() =~= made);
        }
        assert(own.push(calls.last()).drop_last() =~= own);
        law_hybrid_keeps_paths_apart(contents, earlier, path);
        law_hybrid_keeps_paths_apart(contents, own, path);
        own_calls_are_their_own(earlier, path);
        assert(hybrid_at(hybrid_after(contents, earlier), path) == hybrid_at(
            hybrid_after(contents, own),
            path,
        ));
        assert(hybrid_after(contents, earlier).memory.batches.get(path) is Some
            <==> hybrid_after(contents, own).memory.batches.get(path) is Some);
    }
}

proof fn own_calls_are_their_own<S>(calls: Seq<HybridCall<S>>, path: Seq<char>)
    ensures
        hybrid_calls_on(hybrid_calls_on(calls, path), path) == hybrid_calls_on(calls, path),
    decreases calls.len(),
{
    if calls.len() > 0 {
        let earlier = hybrid_calls_on(calls.drop_last(), path);
        own_calls_are_their_own(calls.drop_last(), path);
        assert(earlier.push(calls.last()).drop_last() =~= earlier);
    }
}

/// However storing, copying and finalizing under many paths of a hybrid store are
/// interleaved, the copy at each path, its file and its writer, is what the calls on
/// that path alone leave there.
pub proof fn law_hybrid_keeps_copies_apart<S>(
    contents: HybridContents<S>,
    disk: DiskContents,
    calls: Seq<HybridCall<S>>,
    path: Seq<char>,
)
    requires
        disk.writers == contents.writers,
        disk.wf(),
        disk_allows(disk, disk_calls(contents, calls)),
    ensures
        disk_after(disk, disk_calls(contents, calls)).at(path) == path_after(
            disk.at(path),
            disk_calls(contents, hybrid_calls_on(calls, path)),
        ),
        disk_after(disk, disk_calls(contents, calls)).at(path).writer == open_writer(
            hybrid_after(contents, calls).writers,
            path,
        ),
{
    law_hybrid_knows_open_writers(contents, disk, calls);
    law_disk_keeps_paths_apart(disk, disk_calls(contents, calls), path);
    law_disk_calls_are_the_paths_own(contents, calls, path);
}

// Forwarding.

/// Which event can happen when: the source is read only between two batches, and a
/// batch is taken by the disk only while one is being sent.
pub proof fn law_forwarding_awaits_answers(state: ForwardState, event: ForwardEvent)
    ensures
        event is DiskStarted ==> (state.awaits(event) <==> state is Starting),
        event is Batch ==> (state.awaits(event) <==> state is Reading),
        event is Failed ==> (state.awaits(event) <==> state is Reading),
        event is Ended ==> (state.awaits(event) <==> state is Reading),
        event is Sent ==> (state.awaits(event) <==> state is Sending),
{
}

/// No batch is lost on the way: at the start none waits, each batch is sent to disk as
/// it came and waits behind the others, sending changes nothing about those that wait,
/// and at the end memory gets exactly them.
pub proof fn law_forwarding_loses_nothing(
    state: ForwardState,
    batch: Batch,
    waiting: Seq<Batch>,
    request: ForwardRequest,
)
    ensures
        ForwardState::Starting.after(ForwardEvent::DiskStarted) == ForwardState::Reading(
            Seq::empty(),
        ),
        ForwardState::Reading(waiting).after(ForwardEvent::Batch(batch)) == ForwardState::Sending(
            waiting.push(batch),
        ),
        ForwardState::Sending(waiting).after(ForwardEvent::Sent) == ForwardState::Reading(waiting),
        ForwardState::Reading(waiting).after(ForwardEvent::Ended) is Done,
        state.asks(ForwardEvent::DiskStarted, request) ==> request is ReadSource,
        state.asks(ForwardEvent::Sent, request) ==> request is ReadSource,
        state.asks(ForwardEvent::Batch(batch), request) ==> request
            == ForwardRequest::SendToDisk(batch),
        ForwardState::Reading(waiting).asks(ForwardEvent::Ended, request) ==> {
            &&& request matches ForwardRequest::StoreInMemory(handed)
            &&& handed@ == waiting
        },
{
}

/// A source that fails ends the passing on, and the caller is told why, in the words of
/// the source. Memory gets nothing.
pub proof fn law_failing_source_is_told(
    state: ForwardState,
    reason: String,
    request: ForwardRequest,
)
    requires
        state.asks(ForwardEvent::Failed(reason), request),
    ensures
        state.after(ForwardEvent::Failed(reason)) is Done,
        request matches ForwardRequest::Fail(BallistaError::Internal(message)) && message@
            == "Error processing stream: "@ + reason@,
{
}

// Disk.

/// A batch goes through the writer that is open at its path, and only where none is,
/// into a new file under the batch's own schema.
pub proof fn law_batch_goes_to_its_writer(
    writers: Map<Seq<char>, u64>,
    path: Seq<char>,
    batch: Batch,
)
    ensures
        writers.contains_key(path) ==> batch_write(writers, path, batch) == BatchWrite::Append(
            writers[path],
        ),
        !writers.contains_key(path) ==> batch_write(writers, path, batch) == BatchWrite::Create(
            batch_schema(batch),
        ),
        open_writer(writers, path) is Some <==> writers.contains_key(path),
        open_writer(writers, path) matches Some(writer) ==> writer == writers[path],
{
}

/// A reported writer is open at its path, unless one was open before, and the writers of
/// other paths stay. So further batches there go through it, and finalizing names it.
pub proof fn law_reported_writer_is_open(
    writers: Map<Seq<char>, u64>,
    path: Seq<char>,
    writer: u64,
    batch: Batch,
)
    ensures
        ({
            let after = with_writer(writers, path, writer);
            &&& after.remove(path) == writers.remove(path)
            &&& writers.contains_key(path) ==> after == writers
            &&& !writers.contains_key(path) ==> {
                &&& open_writer(after, path) == Some(writer)
                &&& batch_write(after, path, batch) == BatchWrite::Append(writer)
            }
        }),
{
    assert(with_writer(writers, path, writer).remove(path) =~= writers.remove(path));
}

/// A file that opens is handed out as it opened; one that does not is an error that says
/// which file, and why, in the words of whoever could not open it. Taking refuses for
/// the same reasons as fetching, and asks for the removal of the file otherwise.
pub proof fn law_opened_file_is_handed_out<R>(
    path: Seq<char>,
    opened: Opened<R>,
    fetched: Result<LocalShuffleStream<R>, BallistaError>,
    take: Take<R>,
)
    requires
        is_fetched(path, opened, fetched),
        is_take(path, opened, take),
    ensures
        opened matches Opened::Reading(reader) ==> {
            &&& fetched matches Ok(stream) && stream.reader == reader
            &&& take matches Take::Remove(stream) && stream.reader == reader
        },
        opened matches Opened::Missing(reason) ==> {
            let text = "Failed to open partition file at "@ + path + ": "@ + reason@;
            &&& fetched matches Err(BallistaError::General(message)) && message@ == text
            &&& take matches Take::Fail(BallistaError::General(message)) && message@ == text
        },
        opened matches Opened::Unreadable(reason) ==> {
            let text = "Failed to new arrow FileReader at "@ + path + ": "@ + reason@;
            &&& fetched matches Err(BallistaError::General(message)) && message@ == text
            &&& take matches Take::Fail(BallistaError::General(message)) && message@ == text
        },
{
}

/// A taken file is handed out where it was removed, and not otherwise; then the caller
/// is told why it was not.
pub proof fn law_taken_file_was_removed<R>(
    stream: LocalShuffleStream<R>,
    removed: Result<(), std::io::Error>,
)
    ensures
        taken(stream, removed) is Ok <==> removed is Ok,
        taken(stream, removed) matches Ok(handed) ==> handed == stream,
        removed matches Err(error) ==> taken(stream, removed) == Err::<
            LocalShuffleStream<R>,
            BallistaError,
        >(BallistaError::IoError(error)),
{
}

/// The stream of a file yields what its reader yields: each batch as it is, an error as
/// the error it stands for, and the end.
pub proof fn law_file_stream_follows_reader(
    batch: Batch,
    error: ArrowError,
    item: Option<Result<Batch, DataFusionError>>,
)
    ensures
        yields(Some(Ok(batch)), item) <==> item == Some(Ok::<Batch, DataFusionError>(batch)),
        yields(Some(Err(error)), item) ==> {
            &&& item matches Some(Err(failure))
            &&& arrow_cause(failure) == Some(error)
        },
        yields(None, item) <==> item is None,
{
}

/// Totals count exactly: a batch has room where the sums fit, and then each sum grows by
/// what the batch brings. The statistics are the sums.
pub proof fn law_totals_count_exactly(totals: StoredTotals, rows: usize, bytes: usize)
    ensures
        StoredTotals::zero().num_rows == 0,
        StoredTotals::zero().num_batches == 0,
        StoredTotals::zero().num_bytes == 0,
        totals.has_room(rows, bytes) <==> (totals.num_rows + rows <= usize::MAX
            && totals.num_batches + 1 <= u64::MAX && totals.num_bytes + bytes <= usize::MAX),
        totals.has_room(rows, bytes) ==> {
            &&& totals.plus(rows, bytes).num_rows - totals.num_rows == rows
            &&& totals.plus(rows, bytes).num_batches - totals.num_batches == 1
            &&& totals.plus(rows, bytes).num_bytes - totals.num_bytes == bytes
        },
        totals.as_stats().num_rows matches Some(n) && n == totals.num_rows,
        totals.as_stats().num_batches matches Some(n) && n == totals.num_batches,
        totals.as_stats().num_bytes matches Some(n) && n == totals.num_bytes,
{
}

/// Which event can happen when, in the storing of a whole partition: each answers what
/// was asked for last, and a batch must have room in the totals.
pub proof fn law_write_awaits_answers(state: PartitionWrite, event: WriteEvent)
    ensures
        event is Created ==> (state.awaits(event) <==> state is Creating),
        event is Opened ==> (state.awaits(event) <==> state is Opening),
        event is Failed ==> (state.awaits(event) <==> state is Reading),
        event is Ended ==> (state.awaits(event) <==> state is Reading),
        event is Written ==> (state.awaits(event) <==> state is Writing),
        event is Finished ==> (state.awaits(event) <==> state is Finishing),
        event matches WriteEvent::Batch(batch, bytes) ==> (state.awaits(event) <==> {
            &&& state matches PartitionWrite::Reading(totals)
            &&& totals.num_rows + batch_rows(batch) <= usize::MAX
            &&& totals.num_batches + 1 <= u64::MAX
            &&& totals.num_bytes + bytes <= usize::MAX
        }),
{
}

/// The storing of a whole partition, when nothing goes wrong: the file is created, its
/// writer opened, the source read; each batch is counted and written, and nothing but a
/// batch changes the totals; at the end the file is finished and the totals reported.
pub proof fn law_write_goes_on(totals: StoredTotals, batch: Batch, bytes: usize)
    ensures
        PartitionWrite::Creating.next(WriteEvent::Created(Ok(()))) == (
            PartitionWrite::Opening,
            WriteRequest::OpenWriter,
        ),
        ({
            let (state, request) = PartitionWrite::Opening.next(WriteEvent::Opened(Ok(())));
            &&& request is ReadSource
            &&& state matches PartitionWrite::Reading(none)
            &&& none.num_rows == 0 && none.num_batches == 0 && none.num_bytes == 0
        }),
        PartitionWrite::Reading(totals).awaits(WriteEvent::Batch(batch, bytes)) ==> {
            let (state, request) = PartitionWrite::Reading(totals).next(
                WriteEvent::Batch(batch, bytes),
            );
            &&& request == WriteRequest::Write(batch)
            &&& state matches PartitionWrite::Writing(more)
            &&& more.num_rows - totals.num_rows == batch_rows(batch)
            &&& more.num_batches - totals.num_batches == 1
            &&& more.num_bytes - totals.num_bytes == bytes
        },
        PartitionWrite::Writing(totals).next(WriteEvent::Written(Ok(()))) == (
            PartitionWrite::Reading(totals),
            WriteRequest::ReadSource,
        ),
        PartitionWrite::Reading(totals).next(WriteEvent::Ended) == (
            PartitionWrite::Finishing(totals),
            WriteRequest::FinishFile,
        ),
        ({
            let (state, request) = PartitionWrite::Finishing(totals).next(
                WriteEvent::Finished(Ok(())),
            );
            &&& state is Done
            &&& request matches WriteRequest::Return(Ok(Some(stats)))
            &&& stats.num_rows matches Some(rows) && rows == totals.num_rows
            &&& stats.num_batches matches Some(batches) && batches == totals.num_batches
            &&& stats.num_bytes matches Some(size) && size == totals.num_bytes
        }),
{
}

// Errors and session.

/// Every error says what its sentence says and then the path and the reason, in full and
/// as they were given.
pub proof fn law_errors_say_which_and_why(path: Seq<char>, reason: Seq<char>, message: String)
    ensures
        not_in_memory_text(path) == "Partition not found in in-memory store: "@ + path,
        open_failed_text(path, reason) == "Failed to open partition file at "@ + path + ": "@
            + reason,
        reader_failed_text(path, reason) == "Failed to new arrow FileReader at "@ + path + ": "@
            + reason,
        source_failed_text(reason) == "Error processing stream: "@ + reason,
        BallistaError::General(message).is_general(reason) <==> message@ == reason,
        BallistaError::Internal(message).is_internal(reason) <==> message@ == reason,
        !BallistaError::Internal(message).is_general(reason),
        !BallistaError::General(message).is_internal(reason),
{
}

/// An outside error becomes the error of its own kind, and is carried along.
pub proof fn law_outside_errors_are_carried(
    file: std::io::Error,
    arrow: ArrowError,
    source: DataFusionError,
)
    ensures
        <BallistaError as vstd::std_specs::convert::FromSpec<std::io::Error>>::from_spec(file)
            == BallistaError::IoError(file),
        <BallistaError as vstd::std_specs::convert::FromSpec<ArrowError>>::from_spec(arrow)
            == BallistaError::ArrowError(arrow),
        <BallistaError as vstd::std_specs::convert::FromSpec<DataFusionError>>::from_spec(source)
            == BallistaError::DataFusionError(source),
{
}

/// The store of a session is the very store that its extension refers to, and there is
/// one exactly where there is an extension.
pub proof fn law_extension_gives_its_store<P: ?Sized>(store: Arc<P>)
    ensures
        PartitionStoreRef::stored(Some(Arc::new(PartitionStoreRef(store)))) == Some(store),
        PartitionStoreRef::<P>::stored(None) is None,
{
}

} // verus!
