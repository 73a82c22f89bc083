//! Partitions held in memory with a copy on disk.
use crate::batch::Batch;
use crate::disk::{
    batch_write, open_writer, with_writer, BatchWrite, DiskBasedPartitionStore, PartitionWrite,
    WriteRequest,
};
use crate::error::{not_in_memory_text, source_failed, source_failed_text, BallistaError};
use crate::memory::{InMemoryPartitionStore, MemoryContents};
use crate::stats::PartitionStats;
use crate::stream::PartitionStream;
use datafusion::arrow::datatypes::SchemaRef;
use vstd::hash_map::StringHashMap;
use vstd::prelude::*;

verus! {

/// Partitions that are kept in memory and copied to disk in the background. They
/// are read from memory while they are there, and from disk afterwards.
#[verifier::reject_recursive_types(S)]
pub struct HybridPartitionStore<S> {
    in_memory_store: InMemoryPartitionStore<S>,
    disk_store: DiskBasedPartitionStore,
    writing_to_disk: StringHashMap<bool>,
    memory_threshold_bytes: Option<u64>,
}

/// What a hybrid store holds.
#[verifier::ext_equal]
#[verifier::reject_recursive_types(S)]
pub struct HybridContents<S> {
    /// What it holds in memory.
    pub memory: MemoryContents<S>,
    /// The writers of the copies that are being gathered on disk.
    pub writers: Map<Seq<char>, u64>,
    /// The paths whose whole partition is on its way to disk.
    pub writing: Map<Seq<char>, bool>,
    /// How much memory the store was meant to use.
    pub memory_threshold_bytes: Option<u64>,
}

impl<S> HybridContents<S> {
    /// Nothing is held.
    pub open spec fn empty(memory_threshold_bytes: Option<u64>) -> Self {
        HybridContents {
            memory: MemoryContents::empty(),
            writers: Map::empty(),
            writing: Map::empty(),
            memory_threshold_bytes,
        }
    }

    /// The same store with other contents in memory.
    pub open spec fn with_memory(self, memory: MemoryContents<S>) -> Self {
        HybridContents { memory, ..self }
    }

    /// `batch` is gathered under `path` in memory.
    pub open spec fn store_batch(self, path: Seq<char>, batch: Batch) -> Self {
        self.with_memory(self.memory.store_batch(path, batch))
    }

    /// `writer` was reported for `path`.
    pub open spec fn writer_created(self, path: Seq<char>, writer: u64) -> Self {
        HybridContents { writers: with_writer(self.writers, path, writer), ..self }
    }

    /// The gathering under `path` has ended, in memory and on disk. Where memory
    /// gathered nothing, nothing changes.
    pub open spec fn finalize_batches(self, path: Seq<char>) -> Self {
        if self.memory.batches.contains_key(path) {
            HybridContents {
                memory: self.memory.finalize_batches(path),
                writers: self.writers.remove(path),
                ..self
            }
        } else {
            self
        }
    }

    /// `batches` can be read under `path` from memory, under `schema`.
    pub open spec fn store_waiting(
        self,
        path: Seq<char>,
        schema: SchemaRef,
        batches: Seq<Batch>,
    ) -> Self {
        self.with_memory(self.memory.store_waiting(path, schema, batches))
    }

    /// `stream` can be read under `path` from memory.
    pub open spec fn store_partition(self, path: Seq<char>, stream: S) -> Self {
        self.with_memory(self.memory.store_partition(path, stream))
    }

    /// Nothing can be read under `path` from memory.
    pub open spec fn without_stream(self, path: Seq<char>) -> Self {
        self.with_memory(self.memory.without_stream(path))
    }

    /// The partition under `path` is on its way to disk.
    pub open spec fn disk_write_started(self, path: Seq<char>) -> Self {
        HybridContents { writing: self.writing.insert(path, true), ..self }
    }

    /// The partition under `path` is no longer on its way to disk.
    pub open spec fn disk_write_ended(self, path: Seq<char>) -> Self {
        HybridContents { writing: self.writing.remove(path), ..self }
    }
}

/// Where a partition is read from.
pub enum Fetch<S> {
    /// From memory: this is its stream.
    Memory(PartitionStream<S>),
    /// From the file at its path.
    Disk,
    /// From nowhere.
    Fail(BallistaError),
}

/// `fetch` is the answer to a request for the partition under `path`, from a store
/// that held `contents`: what memory holds comes first; the file is read only while
/// nothing is on its way to it.
pub open spec fn is_fetch<S>(contents: HybridContents<S>, path: Seq<char>, fetch: Fetch<S>) -> bool {
    if contents.memory.streams.contains_key(path) {
        fetch matches Fetch::Memory(stream) && stream@ == contents.memory.streams[path]
    } else if contents.writing.contains_key(path) {
        fetch matches Fetch::Fail(error) && error.is_general(not_in_memory_text(path))
    } else {
        fetch is Disk
    }
}

impl<S> HybridPartitionStore<S> {
    /// The store's own books are in order. [`Self::new`] establishes it and every
    /// other operation keeps it.
    pub closed spec fn wf(self) -> bool {
        self.in_memory_store.wf()
    }
}

impl<S> View for HybridPartitionStore<S> {
    type V = HybridContents<S>;

    closed spec fn view(&self) -> HybridContents<S> {
        HybridContents {
            memory: self.in_memory_store@,
            writers: self.disk_store@,
            writing: self.writing_to_disk@,
            memory_threshold_bytes: self.memory_threshold_bytes,
        }
    }
}

impl<S> Default for HybridPartitionStore<S> {
    /// A store that holds nothing, without a memory threshold.
    fn default() -> (r: Self)
        ensures
            r.wf(),
            r@ == HybridContents::<S>::empty(None),
    {
        Self::new(None)
    }
}

impl<S> HybridPartitionStore<S> {
    /// A store that holds nothing.
    pub fn new(memory_threshold_bytes: Option<u64>) -> (r: Self)
        ensures
            r.wf(),
            r@ == HybridContents::<S>::empty(memory_threshold_bytes),
    {
        HybridPartitionStore {
            in_memory_store: InMemoryPartitionStore::new(),
            disk_store: DiskBasedPartitionStore::new(),
            writing_to_disk: StringHashMap::new(),
            memory_threshold_bytes,
        }
    }

    /// The store of the copies.
    pub fn disk_store(&self) -> (r: &DiskBasedPartitionStore)
        ensures
            r@ == self@.writers,
    {
        &self.disk_store
    }

    /// Gathers `batch` under `path` in memory. The batch that comes back is for the
    /// disk: it goes where [`Self::copy_batch`] says, in the background, and what
    /// comes of that is nobody's concern.
    pub fn store_batch(&mut self, path: &str, batch: Batch) -> (r: (
        Batch,
        Result<(), BallistaError>,
    ))
        requires
            old(self).wf(),
        ensures
            final(self).wf(),
            r.0 == batch,
            r.1 is Ok,
            final(self)@ == old(self)@.store_batch(path@, batch),
    {
        let copy = batch.clone();
        let result = self.in_memory_store.store_batch(path, batch);
        (copy, result)
    }

    /// Where `batch` goes to be part of the copy of the partition under `path`: through
    /// the writer that is open there, else into a new file with the batch's schema,
    /// whose writer is then reported to [`Self::writer_created`].
    pub fn copy_batch(&self, path: &str, batch: &Batch) -> (r: BatchWrite)
        ensures
            r == batch_write(self@.writers, path@, *batch),
    {
        self.disk_store.store_batch(path, batch)
    }

    /// A file was created at `path` and `writer` writes to it. Returns the writer
    /// that the copy's batches go through from now on: an earlier one, had there been
    /// one.
    pub fn writer_created(&mut self, path: &str, writer: u64) -> (r: u64)
        requires
            old(self).wf(),
        ensures
            final(self).wf(),
            final(self)@ == old(self)@.writer_created(path@, writer),
            r == final(self)@.writers[path@],
    {
        self.disk_store.writer_created(path, writer)
    }

    /// Ends the gathering under `path`, in memory and then on disk. `Ok(Some(_))`
    /// names the writer that is to finish its file; what came of that is reported to
    /// [`DiskBasedPartitionStore::finalized`]. Where memory gathered nothing the
    /// caller is told so, and the disk is left alone.
    pub fn finalize_batches(&mut self, path: &str) -> (r: Result<Option<u64>, BallistaError>)
        requires
            old(self).wf(),
        ensures
            final(self).wf(),
            final(self)@ == old(self)@.finalize_batches(path@),
            match r {
                Ok(writer) => {
                    &&& old(self)@.memory.batches.contains_key(path@)
                    &&& writer == open_writer(old(self)@.writers, path@)
                },
                Err(error) => {
                    &&& !old(self)@.memory.batches.contains_key(path@)
                    &&& error.is_general(not_in_memory_text(path@))
                },
            },
    {
        match self.in_memory_store.finalize_batches(path) {
            Ok(()) => Ok(self.disk_store.finalize_batches(path)),
            Err(error) => Err(error),
        }
    }

    /// The copying of a whole partition to the file at `path` begins: the partition is
    /// marked as on its way to disk, and only then is the file to be created. From
    /// there the copying goes on by [`PartitionWrite::step`], and its answer is
    /// reported to [`Self::disk_write_ended`].
    pub fn begin_copy(&mut self, path: &str) -> (r: (PartitionWrite, WriteRequest))
        requires
            old(self).wf(),
        ensures
            final(self).wf(),
            final(self)@ == old(self)@.disk_write_started(path@),
            r == (PartitionWrite::Creating, WriteRequest::CreateFile),
    {
        self.disk_write_started(path);
        PartitionWrite::begin()
    }

    /// Marks the partition under `path` as on its way to disk.
    pub fn disk_write_started(&mut self, path: &str)
        requires
            old(self).wf(),
        ensures
            final(self).wf(),
            final(self)@ == old(self)@.disk_write_started(path@),
    {
        self.writing_to_disk.insert(path.to_owned(), true);
    }

    /// The copying has come to its end. How it ended makes no difference.
    pub fn disk_write_ended(
        &mut self,
        path: &str,
        _result: Result<Option<PartitionStats>, BallistaError>,
    )
        requires
            old(self).wf(),
        ensures
            final(self).wf(),
            final(self)@ == old(self)@.disk_write_ended(path@),
    {
        self.writing_to_disk.remove(path);
    }

    /// Keeps the batches that [`Forwarding`] held back for memory under `path`, under
    /// the schema of the source. Memory counts nothing, so there are no statistics.
    pub fn store_waiting(&mut self, path: &str, schema: SchemaRef, waiting: Vec<Batch>) -> (r:
        Result<Option<PartitionStats>, BallistaError>)
        requires
            old(self).wf(),
        ensures
            final(self).wf(),
            r == Ok::<Option<PartitionStats>, BallistaError>(None),
            final(self)@ == old(self)@.store_waiting(path@, schema, waiting@),
    {
        self.in_memory_store.store_waiting(path, schema, waiting)
    }

    /// Keeps `stream`, unread, under `path` in memory. Memory counts nothing, so there
    /// are no statistics.
    pub fn store_partition(&mut self, path: &str, stream: S) -> (r: Result<
        Option<PartitionStats>,
        BallistaError,
    >)
        requires
            old(self).wf(),
        ensures
            final(self).wf(),
            r == Ok::<Option<PartitionStats>, BallistaError>(None),
            final(self)@ == old(self)@.store_partition(path@, stream),
    {
        self.in_memory_store.store_partition(path, stream)
    }

    /// Finds out where the partition under `path` is read from. What memory hands
    /// out, it no longer has.
    pub fn fetch_partition(&mut self, path: &str) -> (r: Fetch<S>)
        requires
            old(self).wf(),
        ensures
            final(self).wf(),
            is_fetch(old(self)@, path@, r),
            final(self)@ == old(self)@.without_stream(path@),
    {
        if self.writing_to_disk.contains_key(path) {
            return match self.in_memory_store.fetch_partition(path) {
                Ok(stream) => Fetch::Memory(stream),
                Err(error) => Fetch::Fail(error),
            };
        }
        match self.in_memory_store.fetch_partition(path) {
            Ok(stream) => Fetch::Memory(stream),
            Err(_) => Fetch::Disk,
        }
    }

    /// Finds out where the partition under `path` is taken from. From memory it is
    /// only read: a copy on disk stays. From disk it is taken.
    pub fn take_partition(&mut self, path: &str) -> (r: Fetch<S>)
        requires
            old(self).wf(),
        ensures
            final(self).wf(),
            is_fetch(old(self)@, path@, r),
            final(self)@ == old(self)@.without_stream(path@),
    {
        if self.writing_to_disk.contains_key(path) {
            return match self.in_memory_store.fetch_partition(path) {
                Ok(stream) => Fetch::Memory(stream),
                Err(error) => Fetch::Fail(error),
            };
        }
        match self.in_memory_store.take_partition(path) {
            Ok(stream) => Fetch::Memory(stream),
            Err(_) => Fetch::Disk,
        }
    }

    /// Drops the partition under `path` from memory. Its file is to be removed next,
    /// and what came of that reported to [`Self::file_removed`].
    pub fn delete_partition(&mut self, path: &str)
        requires
            old(self).wf(),
        ensures
            final(self).wf(),
            final(self)@ == old(self)@.without_stream(path@),
    {
        let _ = self.in_memory_store.delete_partition(path);
    }

    /// What the caller that deletes a partition is told when removing the file came
    /// out as `removed`. That there was none is not an error.
    pub fn file_removed(&self, removed: Result<(), std::io::Error>) -> (r: Result<
        (),
        BallistaError,
    >)
        ensures
            r is Ok,
    {
        let _ = self.disk_store.delete_partition(removed);
        Ok(())
    }
}

/// How far the passing on of a whole partition has come. Every batch of the source
/// goes to memory and to disk. The disk takes batches from the start, and reading the
/// source waits for it. Memory gets its batches once the source has ended; until then
/// they wait here, however many they are.
pub enum Forwarding {
    /// The background work on the disk is being started.
    Starting,
    /// The source is being read; these batches wait for memory.
    Reading(Vec<Batch>),
    /// A batch is being sent to disk; these, and it among them, wait for memory.
    Sending(Vec<Batch>),
    /// There is nothing left to pass on.
    Done,
}

/// What [`Forwarding`] stands for.
#[verifier::ext_equal]
pub enum ForwardState {
    Starting,
    Reading(Seq<Batch>),
    Sending(Seq<Batch>),
    Done,
}

impl View for Forwarding {
    type V = ForwardState;

    open spec fn view(&self) -> ForwardState {
        match *self {
            Forwarding::Starting => ForwardState::Starting,
            Forwarding::Reading(waiting) => ForwardState::Reading(waiting@),
            Forwarding::Sending(waiting) => ForwardState::Sending(waiting@),
            Forwarding::Done => ForwardState::Done,
        }
    }
}

/// What happened.
pub enum ForwardEvent {
    /// The background work was started.
    DiskStarted,
    /// The source yielded a batch.
    Batch(Batch),
    /// The disk took the batch, or takes no more.
    Sent,
    /// The source failed, for this reason.
    Failed(String),
    /// The source came to its end.
    Ended,
}

/// What is to be done next.
pub enum ForwardRequest {
    StartDisk,
    ReadSource,
    SendToDisk(Batch),
    /// Tell the disk that there is no more, and hand memory these batches by
    /// [`HybridPartitionStore::store_waiting`], whose answer is the caller's.
    StoreInMemory(Vec<Batch>),
    /// Tell the disk that there is no more, and answer with the error. Memory gets
    /// nothing; the disk keeps what it was sent.
    Fail(BallistaError),
}

impl ForwardState {
    /// The batches that wait for memory.
    pub open spec fn waiting(self) -> Seq<Batch> {
        match self {
            ForwardState::Reading(waiting) => waiting,
            ForwardState::Sending(waiting) => waiting,
            _ => Seq::empty(),
        }
    }

    /// The event can happen now.
    pub open spec fn awaits(self, event: ForwardEvent) -> bool {
        match event {
            ForwardEvent::DiskStarted => self is Starting,
            ForwardEvent::Batch(_) => self is Reading,
            ForwardEvent::Sent => self is Sending,
            ForwardEvent::Failed(_) => self is Reading,
            ForwardEvent::Ended => self is Reading,
        }
    }

    /// The state that an event leads to.
    pub open spec fn after(self, event: ForwardEvent) -> ForwardState
        recommends
            self.awaits(event),
    {
        match event {
            ForwardEvent::DiskStarted => ForwardState::Reading(Seq::empty()),
            ForwardEvent::Batch(batch) => ForwardState::Sending(self.waiting().push(batch)),
            ForwardEvent::Sent => ForwardState::Reading(self.waiting()),
            ForwardEvent::Failed(_) => ForwardState::Done,
            ForwardEvent::Ended => ForwardState::Done,
        }
    }

    /// `request` is what an event makes necessary.
    pub open spec fn asks(self, event: ForwardEvent, request: ForwardRequest) -> bool {
        match event {
            ForwardEvent::DiskStarted => request is ReadSource,
            ForwardEvent::Batch(batch) => request == ForwardRequest::SendToDisk(batch),
            ForwardEvent::Sent => request is ReadSource,
            ForwardEvent::Failed(reason) => request matches ForwardRequest::Fail(error)
                && error.is_internal(source_failed_text(reason@)),
            ForwardEvent::Ended => request matches ForwardRequest::StoreInMemory(waiting)
                && waiting@ == self.waiting(),
        }
    }
}

impl Forwarding {
    /// The beginning: the background work is to be started.
    pub fn begin() -> (r: (Forwarding, ForwardRequest))
        ensures
            r == (Forwarding::Starting, ForwardRequest::StartDisk),
    {
        (Forwarding::Starting, ForwardRequest::StartDisk)
    }

    /// Goes on from an event. Each batch waits for memory and is sent to disk; a
    /// failure of the source is what the caller is told; at the end of the source
    /// memory gets what waits for it.
    pub fn step(self, event: ForwardEvent) -> (r: (Forwarding, ForwardRequest))
        requires
            self@.awaits(event),
        ensures
            r.0@ == self@.after(event),
            self@.asks(event, r.1),
    {
        match event {
            ForwardEvent::DiskStarted => (
                Forwarding::Reading(Vec::new()),
                ForwardRequest::ReadSource,
            ),
            ForwardEvent::Batch(batch) => {
                let mut waiting = self.into_waiting();
                waiting.push(batch.clone());
                (Forwarding::Sending(waiting), ForwardRequest::SendToDisk(batch))
            },
            ForwardEvent::Sent => (
                Forwarding::Reading(self.into_waiting()),
                ForwardRequest::ReadSource,
            ),
            ForwardEvent::Failed(reason) => (
                Forwarding::Done,
                ForwardRequest::Fail(source_failed(reason.as_str())),
            ),
            ForwardEvent::Ended => (
                Forwarding::Done,
                ForwardRequest::StoreInMemory(self.into_waiting()),
            ),
        }
    }

    /// The batches that wait for memory.
    fn into_waiting(self) -> (r: Vec<Batch>)
        ensures
            r@ == self@.waiting(),
    {
        match self {
            Forwarding::Reading(waiting) => waiting,
            Forwarding::Sending(waiting) => waiting,
            _ => Vec::new(),
        }
    }
}

} // verus!
