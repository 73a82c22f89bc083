//! Partitions held in memory.
use crate::batch::{batch_schema, Batch};
use crate::error::{not_in_memory, not_in_memory_text, BallistaError};
use crate::path_map::PathMap;
use crate::stats::PartitionStats;
use crate::stream::{error_text, stream_of, PartitionContents, PartitionStream};
use dashmap::DashMap;
use datafusion::arrow::datatypes::SchemaRef;
use vstd::prelude::*;
use vstd::string::StringExecFns;

verus! {

/// `dashmap::DashMap`: a concurrent hash map. The stores keep theirs in private
/// fields and change them only through `&mut`, so nothing changes between two calls.
#[verifier::external_type_specification]
#[verifier::external_body]
#[verifier::reject_recursive_types(K)]
#[verifier::reject_recursive_types(V)]
#[verifier::reject_recursive_types(S)]
pub struct ExDashMap<K, V, S>(dashmap::DashMap<K, V, S>);

/// Batches gathered under a path: the first one's schema, and all of them in the
/// order they came.
pub struct Batches {
    batches: Vec<Batch>,
    schema: SchemaRef,
}

/// What [`Batches`] stands for.
#[verifier::ext_equal]
pub struct GatheredBatches {
    pub schema: SchemaRef,
    pub batches: Seq<Batch>,
}

impl View for Batches {
    type V = GatheredBatches;

    closed spec fn view(&self) -> GatheredBatches {
        GatheredBatches { schema: self.schema, batches: self.batches@ }
    }
}

impl GatheredBatches {
    /// No batch yet, under `schema`.
    pub open spec fn none(schema: SchemaRef) -> Self {
        GatheredBatches { schema, batches: Seq::empty() }
    }

    /// One batch more.
    pub open spec fn push(self, batch: Batch) -> Self {
        GatheredBatches { batches: self.batches.push(batch), ..self }
    }
}

impl Batches {
    fn new(schema: SchemaRef) -> (r: Self)
        ensures
            r@ == GatheredBatches::none(schema),
    {
        Batches { batches: Vec::new(), schema }
    }

    fn push(self, batch: Batch) -> (r: Self)
        ensures
            r@ == self@.push(batch),
    {
        let mut batches = self.batches;
        batches.push(batch);
        Batches { batches, schema: self.schema }
    }
}

/// The batches that `map` holds, by path.
pub uninterp spec fn gathered(map: DashMap<String, Batches>) -> Map<Seq<char>, GatheredBatches>;

/// `DashMap::new`: an empty map.
#[verifier::external_body]
fn gathered_new() -> (map: DashMap<String, Batches>)
    ensures
        gathered(map).is_empty(),
{
    DashMap::new()
}

/// `DashMap::entry` and `Entry::or_insert_with`: where `path` has no value it gets
/// the one the closure makes, here no batch under `schema`; where it has one,
/// nothing changes.
#[verifier::external_body]
fn gathered_or_insert_with(map: &mut DashMap<String, Batches>, path: &str, schema: SchemaRef)
    ensures
        gathered(*final(map)) == if gathered(*old(map)).contains_key(path@) {
            gathered(*old(map))
        } else {
            gathered(*old(map)).insert(path@, GatheredBatches::none(schema))
        },
{
    map.entry(path.to_string()).or_insert_with(|| Batches::new(schema));
}

/// `DashMap::alter`: where `path` has a value it is replaced by what the closure
/// makes of it, here one batch more; where it has none, nothing changes.
#[verifier::external_body]
fn gathered_alter(map: &mut DashMap<String, Batches>, path: &str, batch: Batch)
    ensures
        gathered(*final(map)) == if gathered(*old(map)).contains_key(path@) {
            gathered(*old(map)).insert(path@, gathered(*old(map))[path@].push(batch))
        } else {
            gathered(*old(map))
        },
{
    map.alter(path, |_, held| held.push(batch));
}

/// `DashMap::remove`: takes the entry of `path` out, if there is one, and returns
/// its key and value.
#[verifier::external_body]
fn gathered_remove(map: &mut DashMap<String, Batches>, path: &str) -> (r: Option<(String, Batches)>)
    ensures
        gathered(*final(map)) == gathered(*old(map)).remove(path@),
        match r {
            Some((key, held)) => {
                &&& gathered(*old(map)).contains_key(path@)
                &&& key@ == path@
                &&& held@ == gathered(*old(map))[path@]
            },
            None => !gathered(*old(map)).contains_key(path@),
        },
{
    map.remove(path)
}

/// Partitions in memory. Batches are gathered under a path until the partition is
/// finalized; a finalized partition, or a stream that was handed over, waits under
/// its path until someone takes it.
#[verifier::reject_recursive_types(S)]
pub struct InMemoryPartitionStore<S> {
    stream_store: PathMap<PartitionStream<S>>,
    batch_store: DashMap<String, Batches>,
}

/// What an in-memory store holds.
#[verifier::ext_equal]
#[verifier::reject_recursive_types(S)]
pub struct MemoryContents<S> {
    /// The partitions that can be taken.
    pub streams: Map<Seq<char>, PartitionContents<S>>,
    /// The partitions that are still being gathered.
    pub batches: Map<Seq<char>, GatheredBatches>,
}

impl<S> MemoryContents<S> {
    /// Nothing is held.
    pub open spec fn empty() -> Self {
        MemoryContents { streams: Map::empty(), batches: Map::empty() }
    }

    /// `batch` is gathered under `path`; the first batch there fixes the schema.
    pub open spec fn store_batch(self, path: Seq<char>, batch: Batch) -> Self {
        let held = if self.batches.contains_key(path) {
            self.batches[path]
        } else {
            GatheredBatches::none(batch_schema(batch))
        };
        MemoryContents { batches: self.batches.insert(path, held.push(batch)), ..self }
    }

    /// What was gathered under `path` can be taken, in place of what could be before.
    pub open spec fn finalize_batches(self, path: Seq<char>) -> Self
        recommends
            self.batches.contains_key(path),
    {
        let held = self.batches[path];
        MemoryContents {
            streams: self.streams.insert(
                path,
                PartitionContents::Batches { schema: held.schema, batches: held.batches },
            ),
            batches: self.batches.remove(path),
        }
    }

    /// `stream` can be taken under `path`, in place of what could be before.
    pub open spec fn store_partition(self, path: Seq<char>, stream: S) -> Self {
        MemoryContents {
            streams: self.streams.insert(path, PartitionContents::Source(stream)),
            ..self
        }
    }

    /// `batches` can be taken under `path`, under `schema`, in place of what could be
    /// before.
    pub open spec fn store_waiting(
        self,
        path: Seq<char>,
        schema: SchemaRef,
        batches: Seq<Batch>,
    ) -> Self {
        MemoryContents {
            streams: self.streams.insert(path, PartitionContents::Batches { schema, batches }),
            ..self
        }
    }

    /// Nothing can be taken under `path`; what is being gathered there stays.
    pub open spec fn without_stream(self, path: Seq<char>) -> Self {
        MemoryContents { streams: self.streams.remove(path), ..self }
    }
}

impl<S> InMemoryPartitionStore<S> {
    /// The store's own books are in order. [`Self::new`] establishes it and every
    /// other operation keeps it.
    pub closed spec fn wf(self) -> bool {
        self.stream_store.wf()
    }
}

impl<S> View for InMemoryPartitionStore<S> {
    type V = MemoryContents<S>;

    closed spec fn view(&self) -> MemoryContents<S> {
        MemoryContents {
            streams: self.stream_store@.map_values(|stream: PartitionStream<S>| stream@),
            batches: gathered(self.batch_store),
        }
    }
}

impl<S> InMemoryPartitionStore<S> {
    /// A store that holds nothing.
    pub fn new() -> (r: Self)
        ensures
            r.wf(),
            r@ == MemoryContents::<S>::empty(),
    {
        let r = InMemoryPartitionStore {
            stream_store: PathMap::new(),
            batch_store: gathered_new(),
        };
        assert(r@ =~= MemoryContents::<S>::empty());
        r
    }

    /// Adds `batch` to the partition being gathered under `path`.
    pub fn store_batch(&mut self, path: &str, batch: Batch) -> (r: Result<(), BallistaError>)
        requires
            old(self).wf(),
        ensures
            final(self).wf(),
            r is Ok,
            final(self)@ == old(self)@.store_batch(path@, batch),
    {
        let schema = batch.schema();
        gathered_or_insert_with(&mut self.batch_store, path, schema);
        gathered_alter(&mut self.batch_store, path, batch);
        assert(self@ =~= old(self)@.store_batch(path@, batch));
        Ok(())
    }

    /// Ends the gathering under `path`: what was gathered can be taken from now on.
    /// Where nothing was gathered, nothing changes and the caller is told so.
    pub fn finalize_batches(&mut self, path: &str) -> (r: Result<(), BallistaError>)
        requires
            old(self).wf(),
        ensures
            final(self).wf(),
            match r {
                Ok(()) => {
                    &&& old(self)@.batches.contains_key(path@)
                    &&& final(self)@ == old(self)@.finalize_batches(path@)
                },
                Err(error) => {
                    &&& !old(self)@.batches.contains_key(path@)
                    &&& final(self)@ == old(self)@
                    &&& error.is_general(not_in_memory_text(path@))
                },
            },
    {
        let held = match gathered_remove(&mut self.batch_store, path) {
            Some((_, held)) => held,
            None => {
                assert(self@ =~= old(self)@);
                return Err(not_in_memory(path));
            },
        };
        match self.store_waiting(path, held.schema, held.batches) {
            Ok(_) => {
                assert(self@ =~= old(self)@.finalize_batches(path@));
                Ok(())
            },
            Err(error) => Err(error),
        }
    }

    /// Keeps the batches that wait for memory under `path`, as a stream that reports
    /// `schema`. Nothing is counted, so there are no statistics to give back.
    pub fn store_waiting(&mut self, path: &str, schema: SchemaRef, waiting: Vec<Batch>) -> (r:
        Result<Option<PartitionStats>, BallistaError>)
        requires
            old(self).wf(),
        ensures
            final(self).wf(),
            r == Ok::<Option<PartitionStats>, BallistaError>(None),
            final(self)@ == old(self)@.store_waiting(path@, schema, waiting@),
    {
        match stream_of(waiting, schema) {
            Ok(stream) => {
                self.stream_store.insert(path, PartitionStream::Buffered(stream));
                assert(self@ =~= old(self)@.store_waiting(path@, schema, waiting@));
                Ok(None)
            },
            Err(error) => {
                let text = "Error creating stream: ".to_owned().concat(error_text(&error).as_str());
                Err(BallistaError::General(text))
            },
        }
    }

    /// Keeps `stream` under `path`, unread. Nothing is counted, so there are no
    /// statistics to give back.
    pub fn store_partition(&mut self, path: &str, stream: S) -> (r: Result<
        Option<PartitionStats>,
        BallistaError,
    >)
        requires
            old(self).wf(),
        ensures
            final(self).wf(),
            r == Ok::<Option<PartitionStats>, BallistaError>(None),
            final(self)@ == old(self)@.store_partition(path@, stream),
    {
        self.stream_store.insert(path, PartitionStream::Source(stream));
        assert(self@ =~= old(self)@.store_partition(path@, stream));
        Ok(None)
    }

    /// Hands out the partition under `path`. This works once: the caller consumes
    /// the stream, and the store no longer has it.
    pub fn fetch_partition(&mut self, path: &str) -> (r: Result<PartitionStream<S>, BallistaError>)
        requires
            old(self).wf(),
        ensures
            final(self).wf(),
            final(self)@ == old(self)@.without_stream(path@),
            match r {
                Ok(stream) => {
                    &&& old(self)@.streams.contains_key(path@)
                    &&& stream@ == old(self)@.streams[path@]
                },
                Err(error) => {
                    &&& !old(self)@.streams.contains_key(path@)
                    &&& error.is_general(not_in_memory_text(path@))
                },
            },
    {
        let r = self.stream_store.remove(path);
        assert(self@ =~= old(self)@.without_stream(path@));
        match r {
            Some(stream) => Ok(stream),
            None => Err(not_in_memory(path)),
        }
    }

    /// Drops the partition under `path`, if there is one to be taken. Batches that
    /// are still being gathered there are kept.
    pub fn delete_partition(&mut self, path: &str) -> (r: Result<(), BallistaError>)
        requires
            old(self).wf(),
        ensures
            final(self).wf(),
            r is Ok,
            final(self)@ == old(self)@.without_stream(path@),
    {
        let _ = self.stream_store.remove(path);
        assert(self@ =~= old(self)@.without_stream(path@));
        Ok(())
    }

    /// Takes the partition under `path` out of the store. In memory this is what
    /// [`Self::fetch_partition`] does too.
    pub fn take_partition(&mut self, path: &str) -> (r: Result<PartitionStream<S>, BallistaError>)
        requires
            old(self).wf(),
        ensures
            final(self).wf(),
            final(self)@ == old(self)@.without_stream(path@),
            match r {
                Ok(stream) => {
                    &&& old(self)@.streams.contains_key(path@)
                    &&& stream@ == old(self)@.streams[path@]
                },
                Err(error) => {
                    &&& !old(self)@.streams.contains_key(path@)
                    &&& error.is_general(not_in_memory_text(path@))
                },
            },
    {
        self.fetch_partition(path)
    }
}

} // verus!
