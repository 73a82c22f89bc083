//! Partitions held in files.
//!
//! The store decides which file is created, written, finished, opened or removed;
//! whoever holds the files does it and reports back.
use crate::batch::{batch_rows, batch_schema, Batch};
use crate::error::{
    open_failed, open_failed_text, reader_failed, reader_failed_text, BallistaError,
};
use crate::stats::PartitionStats;
use crate::stream::LocalShuffleStream;
use dashmap::DashMap;
use datafusion::arrow::datatypes::SchemaRef;
use datafusion::arrow::error::ArrowError;
use datafusion::arrow::ipc::writer::IpcWriteOptions;
use datafusion::arrow::ipc::CompressionType;
use datafusion::error::DataFusionError;
use vstd::prelude::*;

verus! {

/// `arrow::ipc::writer::IpcWriteOptions`: how the writer of a partition file lays
/// it out.
#[verifier::external_type_specification]
#[verifier::external_body]
pub struct ExIpcWriteOptions(datafusion::arrow::ipc::writer::IpcWriteOptions);

/// How the buffers of a partition file are compressed.
#[derive(Debug, Clone, Copy, PartialEq, Eq, Structural)]
pub enum Compression {
    Lz4Frame,
    Zstd,
}

/// The compression that `options` ask for.
pub uninterp spec fn options_compression(options: IpcWriteOptions) -> Option<Compression>;

/// `IpcWriteOptions::default` and `IpcWriteOptions::try_with_compression`: the
/// default options write the newest format version, which allows compression, so
/// the call succeeds and the options ask for `compression`.
#[verifier::external_body]
fn options_with_compression(compression: Compression) -> (r: Result<IpcWriteOptions, ArrowError>)
    ensures
        r is Ok,
        options_compression(r->Ok_0) == Some(compression),
{
    let compression_type = match compression {
        Compression::Lz4Frame => CompressionType::LZ4_FRAME,
        Compression::Zstd => CompressionType::ZSTD,
    };
    IpcWriteOptions::default().try_with_compression(Some(compression_type))
}

/// How every partition file is written: compressed in LZ4 frames.
pub fn write_options() -> (r: Result<IpcWriteOptions, ArrowError>)
    ensures
        r matches Ok(options) && options_compression(options) == Some(Compression::Lz4Frame),
{
    options_with_compression(Compression::Lz4Frame)
}

/// The writers that `map` holds, by path.
pub uninterp spec fn open_writers(map: DashMap<String, u64>) -> Map<Seq<char>, u64>;

/// `DashMap::new`: an empty map.
#[verifier::external_body]
fn writers_new() -> (map: DashMap<String, u64>)
    ensures
        open_writers(map).is_empty(),
{
    DashMap::new()
}

/// `DashMap::get`: the value of `path`, if it has one.
#[verifier::external_body]
fn writers_get(map: &DashMap<String, u64>, path: &str) -> (r: Option<u64>)
    ensures
        match r {
            Some(writer) => open_writers(*map).contains_key(path@) && writer == open_writers(
                *map,
            )[path@],
            None => !open_writers(*map).contains_key(path@),
        },
{
    map.get(path).map(|entry| *entry)
}

/// `DashMap::entry` and `Entry::or_insert`: where `path` has no value it gets
/// `writer`; where it has one, nothing changes. Either way the value it then has is
/// returned.
#[verifier::external_body]
fn writers_or_insert(map: &mut DashMap<String, u64>, path: &str, writer: u64) -> (r: u64)
    ensures
        open_writers(*final(map)) == if open_writers(*old(map)).contains_key(path@) {
            open_writers(*old(map))
        } else {
            open_writers(*old(map)).insert(path@, writer)
        },
        r == open_writers(*final(map))[path@],
{
    *map.entry(path.to_string()).or_insert(writer)
}

/// `DashMap::remove`: takes the entry of `path` out, if there is one, and returns
/// its key and value.
#[verifier::external_body]
fn writers_remove(map: &mut DashMap<String, u64>, path: &str) -> (r: Option<(String, u64)>)
    ensures
        open_writers(*final(map)) == open_writers(*old(map)).remove(path@),
        match r {
            Some((key, writer)) => {
                &&& open_writers(*old(map)).contains_key(path@)
                &&& key@ == path@
                &&& writer == open_writers(*old(map))[path@]
            },
            None => !open_writers(*old(map)).contains_key(path@),
        },
{
    map.remove(path)
}

/// Partitions in files. For each path whose partition is being gathered, the store
/// knows the writer of the open file, by the number its holder gave it.
pub struct DiskBasedPartitionStore {
    batch_writers: DashMap<String, u64>,
}

impl View for DiskBasedPartitionStore {
    type V = Map<Seq<char>, u64>;

    closed spec fn view(&self) -> Map<Seq<char>, u64> {
        open_writers(self.batch_writers)
    }
}

/// Where a batch goes.
pub enum BatchWrite {
    /// Into a file that has yet to be created at the path, with this schema, in place
    /// of any file there.
    Create(SchemaRef),
    /// Through this writer.
    Append(u64),
}

/// Where a batch for `path` goes while `writers` are open.
pub open spec fn batch_write(
    writers: Map<Seq<char>, u64>,
    path: Seq<char>,
    batch: Batch,
) -> BatchWrite {
    if writers.contains_key(path) {
        BatchWrite::Append(writers[path])
    } else {
        BatchWrite::Create(batch_schema(batch))
    }
}

/// The open writers once `writer` was reported for `path`: a writer that is open
/// there already stays.
pub open spec fn with_writer(
    writers: Map<Seq<char>, u64>,
    path: Seq<char>,
    writer: u64,
) -> Map<Seq<char>, u64> {
    if writers.contains_key(path) {
        writers
    } else {
        writers.insert(path, writer)
    }
}

/// The writer that is open at `path`, if there is one.
pub open spec fn open_writer(writers: Map<Seq<char>, u64>, path: Seq<char>) -> Option<u64> {
    if writers.contains_key(path) {
        Some(writers[path])
    } else {
        None
    }
}

/// What came of opening a partition file.
pub enum Opened<R> {
    /// The file did not open, for this reason.
    Missing(String),
    /// The file opened, and does not begin as a partition file, for this reason.
    Unreadable(String),
    /// The file is open at its first batch.
    Reading(R),
}

/// What remains to be done to take a partition.
pub enum Take<R> {
    /// Remove the file, then hand the stream out.
    Remove(LocalShuffleStream<R>),
    /// Nothing: the partition cannot be taken.
    Fail(BallistaError),
}

/// `fetched` is the answer to a request for the partition under `path`, where opening
/// its file came out as `opened`.
pub open spec fn is_fetched<R>(
    path: Seq<char>,
    opened: Opened<R>,
    fetched: Result<LocalShuffleStream<R>, BallistaError>,
) -> bool {
    match opened {
        Opened::Missing(reason) => fetched matches Err(error) && error.is_general(
            open_failed_text(path, reason@),
        ),
        Opened::Unreadable(reason) => fetched matches Err(error) && error.is_general(
            reader_failed_text(path, reason@),
        ),
        Opened::Reading(reader) => fetched matches Ok(stream) && stream.reader == reader,
    }
}

/// `take` is what remains to be done to take the partition under `path`, where
/// opening its file came out as `opened`.
pub open spec fn is_take<R>(path: Seq<char>, opened: Opened<R>, take: Take<R>) -> bool {
    match opened {
        Opened::Missing(reason) => take matches Take::Fail(error) && error.is_general(
            open_failed_text(path, reason@),
        ),
        Opened::Unreadable(reason) => take matches Take::Fail(error) && error.is_general(
            reader_failed_text(path, reason@),
        ),
        Opened::Reading(reader) => take matches Take::Remove(stream) && stream.reader == reader,
    }
}

/// What a caller that takes a partition gets, where removing its file came out as
/// `removed`.
pub open spec fn taken<R>(
    stream: LocalShuffleStream<R>,
    removed: Result<(), std::io::Error>,
) -> Result<LocalShuffleStream<R>, BallistaError> {
    match removed {
        Ok(()) => Ok(stream),
        Err(error) => Err(BallistaError::IoError(error)),
    }
}

impl DiskBasedPartitionStore {
    /// A store with no open writer.
    pub fn new() -> (r: Self)
        ensures
            r@ == Map::<Seq<char>, u64>::empty(),
    {
        let r = DiskBasedPartitionStore { batch_writers: writers_new() };
        assert(r@ =~= Map::<Seq<char>, u64>::empty());
        r
    }

    /// Where `batch` goes to be part of the partition under `path`: through the
    /// writer that is open there, else into a new file with the batch's schema, whose
    /// writer is then reported to [`Self::writer_created`].
    pub fn store_batch(&self, path: &str, batch: &Batch) -> (r: BatchWrite)
        ensures
            r == batch_write(self@, path@, *batch),
    {
        match writers_get(&self.batch_writers, path) {
            Some(writer) => BatchWrite::Append(writer),
            None => BatchWrite::Create(batch.schema()),
        }
    }

    /// A file was created at `path` and `writer` writes to it. Returns the writer
    /// that the partition's batches go through from now on: an earlier one, had there
    /// been one.
    pub fn writer_created(&mut self, path: &str, writer: u64) -> (r: u64)
        ensures
            final(self)@ == with_writer(old(self)@, path@, writer),
            r == final(self)@[path@],
    {
        writers_or_insert(&mut self.batch_writers, path, writer)
    }

    /// What the caller is told once a batch was written.
    pub fn written(result: Result<(), ArrowError>) -> (r: Result<(), BallistaError>)
        ensures
            r == match result {
                Ok(()) => Ok(()),
                Err(error) => Err(BallistaError::ArrowError(error)),
            },
    {
        match result {
            Ok(()) => Ok(()),
            Err(error) => Err(BallistaError::from(error)),
        }
    }

    /// Ends the gathering under `path`: the writer that is open there, if any, is to
    /// finish its file, and the store forgets it. What came of that is reported to
    /// [`Self::finalized`].
    pub fn finalize_batches(&mut self, path: &str) -> (r: Option<u64>)
        ensures
            final(self)@ == old(self)@.remove(path@),
            r == open_writer(old(self)@, path@),
    {
        match writers_remove(&mut self.batch_writers, path) {
            Some((_, writer)) => Some(writer),
            None => None,
        }
    }

    /// What the caller that ends a gathering is told: where a writer was open, what
    /// came of finishing its file; where none was, that all is well.
    pub fn finalized(finished: Option<Result<(), ArrowError>>) -> (r: Result<(), BallistaError>)
        ensures
            r == match finished {
                Some(Err(error)) => Err(BallistaError::ArrowError(error)),
                _ => Ok(()),
            },
    {
        match finished {
            Some(result) => Self::written(result),
            None => Ok(()),
        }
    }

    /// What the caller gets when opening the file at `path` came out as `opened`.
    pub fn fetch_partition<R>(&self, path: &str, opened: Opened<R>) -> (r: Result<
        LocalShuffleStream<R>,
        BallistaError,
    >)
        ensures
            is_fetched(path@, opened, r),
    {
        match opened {
            Opened::Missing(reason) => Err(open_failed(path, reason.as_str())),
            Opened::Unreadable(reason) => Err(reader_failed(path, reason.as_str())),
            Opened::Reading(reader) => Ok(LocalShuffleStream::new(reader)),
        }
    }

    /// What the caller is told when removing the file came out as `removed`.
    pub fn delete_partition(&self, removed: Result<(), std::io::Error>) -> (r: Result<
        (),
        BallistaError,
    >)
        ensures
            r == match removed {
                Ok(()) => Ok(()),
                Err(error) => Err(BallistaError::IoError(error)),
            },
    {
        match removed {
            Ok(()) => Ok(()),
            Err(error) => Err(BallistaError::from(error)),
        }
    }

    /// The first half of taking the partition under `path`, once opening its file
    /// came out as `opened`: the file is only removed when it could be opened.
    pub fn take_partition<R>(&self, path: &str, opened: Opened<R>) -> (r: Take<R>)
        ensures
            is_take(path@, opened, r),
    {
        match self.fetch_partition(path, opened) {
            Ok(stream) => Take::Remove(stream),
            Err(error) => Take::Fail(error),
        }
    }

    /// The second half: the stream is only handed out when its file was removed.
    pub fn partition_removed<R>(
        &self,
        stream: LocalShuffleStream<R>,
        removed: Result<(), std::io::Error>,
    ) -> (r: Result<LocalShuffleStream<R>, BallistaError>)
        ensures
            r == taken(stream, removed),
    {
        match self.delete_partition(removed) {
            Ok(()) => Ok(stream),
            Err(error) => Err(error),
        }
    }
}

/// What has been stored so far.
#[derive(Debug, Clone, Copy, PartialEq, Eq, Structural)]
pub struct StoredTotals {
    pub num_rows: usize,
    pub num_batches: u64,
    pub num_bytes: usize,
}

impl StoredTotals {
    /// Nothing stored yet.
    pub open spec fn zero() -> Self {
        StoredTotals { num_rows: 0, num_batches: 0, num_bytes: 0 }
    }

    /// The totals can count a batch of `rows` rows and `bytes` bytes.
    pub open spec fn has_room(self, rows: usize, bytes: usize) -> bool {
        &&& self.num_rows + rows <= usize::MAX
        &&& self.num_batches < u64::MAX
        &&& self.num_bytes + bytes <= usize::MAX
    }

    /// The totals with one batch more, of `rows` rows and `bytes` bytes.
    pub open spec fn plus(self, rows: usize, bytes: usize) -> Self {
        StoredTotals {
            num_rows: (self.num_rows + rows) as usize,
            num_batches: (self.num_batches + 1) as u64,
            num_bytes: (self.num_bytes + bytes) as usize,
        }
    }

    /// The totals as statistics of the partition.
    pub open spec fn as_stats(self) -> PartitionStats {
        PartitionStats {
            num_rows: Some(self.num_rows as u64),
            num_batches: Some(self.num_batches),
            num_bytes: Some(self.num_bytes as u64),
        }
    }

    /// Counts one batch more.
    pub fn count(self, rows: usize, bytes: usize) -> (r: Self)
        requires
            self.has_room(rows, bytes),
        ensures
            r == self.plus(rows, bytes),
    {
        StoredTotals {
            num_rows: self.num_rows + rows,
            num_batches: self.num_batches + 1,
            num_bytes: self.num_bytes + bytes,
        }
    }

    /// The statistics to report.
    pub fn stats(self) -> (r: PartitionStats)
        ensures
            r == self.as_stats(),
    {
        PartitionStats::new(
            Some(self.num_rows as u64),
            Some(self.num_batches),
            Some(self.num_bytes as u64),
        )
    }
}

/// How far the storing of a whole partition in a file has come.
pub enum PartitionWrite {
    /// The file is being created.
    Creating,
    /// The writer is being opened on the new file, with [`write_options`] and the
    /// schema of the source.
    Opening,
    /// The source is being read.
    Reading(StoredTotals),
    /// A batch, which the totals count, is being written.
    Writing(StoredTotals),
    /// The file is being finished.
    Finishing(StoredTotals),
    /// The caller has its answer.
    Done,
}

/// What happened.
pub enum WriteEvent {
    /// The file was created, or could not be.
    Created(Result<(), std::io::Error>),
    /// The writer was opened, or could not be.
    Opened(Result<(), ArrowError>),
    /// The source yielded a batch, which occupies this many bytes in memory.
    Batch(Batch, usize),
    /// The source failed.
    Failed(DataFusionError),
    /// The source came to its end.
    Ended,
    /// The batch was written, or could not be.
    Written(Result<(), ArrowError>),
    /// The file was finished, or could not be.
    Finished(Result<(), ArrowError>),
}

/// What is to be done next.
pub enum WriteRequest {
    CreateFile,
    OpenWriter,
    ReadSource,
    Write(Batch),
    FinishFile,
    Return(Result<Option<PartitionStats>, BallistaError>),
}

impl PartitionWrite {
    /// The event can happen now: it answers the last request, and a batch does not
    /// exceed what the totals can count.
    pub open spec fn awaits(self, event: WriteEvent) -> bool {
        match (self, event) {
            (PartitionWrite::Creating, WriteEvent::Created(_)) => true,
            (PartitionWrite::Opening, WriteEvent::Opened(_)) => true,
            (PartitionWrite::Reading(totals), WriteEvent::Batch(batch, bytes)) => totals.has_room(
                batch_rows(batch),
                bytes,
            ),
            (PartitionWrite::Reading(_), WriteEvent::Failed(_)) => true,
            (PartitionWrite::Reading(_), WriteEvent::Ended) => true,
            (PartitionWrite::Writing(_), WriteEvent::Written(_)) => true,
            (PartitionWrite::Finishing(_), WriteEvent::Finished(_)) => true,
            _ => false,
        }
    }

    /// Where an event leads, and what it makes necessary.
    pub open spec fn next(self, event: WriteEvent) -> (PartitionWrite, WriteRequest)
        recommends
            self.awaits(event),
    {
        match (self, event) {
            (_, WriteEvent::Created(Err(error))) => (
                PartitionWrite::Done,
                WriteRequest::Return(Err(BallistaError::IoError(error))),
            ),
            (_, WriteEvent::Opened(Err(error))) => (
                PartitionWrite::Done,
                WriteRequest::Return(Err(BallistaError::ArrowError(error))),
            ),
            (_, WriteEvent::Failed(error)) => (
                PartitionWrite::Done,
                WriteRequest::Return(Err(BallistaError::DataFusionError(error))),
            ),
            (_, WriteEvent::Written(Err(error))) => (
                PartitionWrite::Done,
                WriteRequest::Return(Err(BallistaError::ArrowError(error))),
            ),
            (_, WriteEvent::Finished(Err(error))) => (
                PartitionWrite::Done,
                WriteRequest::Return(Err(BallistaError::ArrowError(error))),
            ),
            (_, WriteEvent::Created(Ok(()))) => (PartitionWrite::Opening, WriteRequest::OpenWriter),
            (_, WriteEvent::Opened(Ok(()))) => (
                PartitionWrite::Reading(StoredTotals::zero()),
                WriteRequest::ReadSource,
            ),
            (PartitionWrite::Reading(totals), WriteEvent::Batch(batch, bytes)) => (
                PartitionWrite::Writing(totals.plus(batch_rows(batch), bytes)),
                WriteRequest::Write(batch),
            ),
            (PartitionWrite::Reading(totals), WriteEvent::Ended) => (
                PartitionWrite::Finishing(totals),
                WriteRequest::FinishFile,
            ),
            (PartitionWrite::Writing(totals), WriteEvent::Written(Ok(()))) => (
                PartitionWrite::Reading(totals),
                WriteRequest::ReadSource,
            ),
            (PartitionWrite::Finishing(totals), WriteEvent::Finished(Ok(()))) => (
                PartitionWrite::Done,
                WriteRequest::Return(Ok(Some(totals.as_stats()))),
            ),
            _ => arbitrary(),
        }
    }

    /// The beginning: the file is to be created.
    pub fn begin() -> (r: (PartitionWrite, WriteRequest))
        ensures
            r == (PartitionWrite::Creating, WriteRequest::CreateFile),
    {
        (PartitionWrite::Creating, WriteRequest::CreateFile)
    }

    /// Goes on from an event. Every failure ends the storing and is what the caller
    /// is told; a batch is counted before it is written; the totals become the
    /// statistics once the file is finished.
    pub fn step(self, event: WriteEvent) -> (r: (PartitionWrite, WriteRequest))
        requires
            self.awaits(event),
        ensures
            r == self.next(event),
    {
        match event {
            WriteEvent::Created(result) => match result {
                Ok(()) => (PartitionWrite::Opening, WriteRequest::OpenWriter),
                Err(error) => Self::fail(BallistaError::from(error)),
            },
            WriteEvent::Opened(result) => match result {
                Ok(()) => {
                    let totals = StoredTotals { num_rows: 0, num_batches: 0, num_bytes: 0 };
                    (PartitionWrite::Reading(totals), WriteRequest::ReadSource)
                },
                Err(error) => Self::fail(BallistaError::from(error)),
            },
            WriteEvent::Batch(batch, bytes) => {
                let totals = self.totals().count(batch.num_rows(), bytes);
                (PartitionWrite::Writing(totals), WriteRequest::Write(batch))
            },
            WriteEvent::Failed(error) => Self::fail(BallistaError::from(error)),
            WriteEvent::Ended => (
                PartitionWrite::Finishing(self.totals()),
                WriteRequest::FinishFile,
            ),
            WriteEvent::Written(result) => match result {
                Ok(()) => (PartitionWrite::Reading(self.totals()), WriteRequest::ReadSource),
                Err(error) => Self::fail(BallistaError::from(error)),
            },
            WriteEvent::Finished(result) => match result {
                Ok(()) => {
                    let stats = self.totals().stats();
                    (PartitionWrite::Done, WriteRequest::Return(Ok(Some(stats))))
                },
                Err(error) => Self::fail(BallistaError::from(error)),
            },
        }
    }

    /// The source yielded `batch`: measures it and goes on from there. `None` if the
    /// totals cannot count it.
    pub fn receive(self, batch: Batch) -> (r: Option<(PartitionWrite, WriteRequest)>)
        requires
            self is Reading,
        ensures
            match r {
                Some(next) => exists|bytes: usize|
                    {
                        &&& #[trigger] batch.occupies(bytes)
                        &&& call_ensures(Batch::memory_size, (&batch,), bytes)
                        &&& self.awaits(WriteEvent::Batch(batch, bytes))
                        &&& next == self.next(WriteEvent::Batch(batch, bytes))
                    },
                None => exists|bytes: usize|
                    {
                        &&& #[trigger] batch.occupies(bytes)
                        &&& call_ensures(Batch::memory_size, (&batch,), bytes)
                        &&& !self.awaits(WriteEvent::Batch(batch, bytes))
                    },
            },
    {
        let bytes: usize = batch.memory_size();
        self.receive_measured(batch, bytes)
    }

    /// The source yielded `batch`, which occupies `bytes` bytes in memory. `None` if
    /// the totals cannot count it.
    pub fn receive_measured(self, batch: Batch, bytes: usize) -> (r: Option<
        (PartitionWrite, WriteRequest),
    >)
        requires
            self is Reading,
        ensures
            r == if self.awaits(WriteEvent::Batch(batch, bytes)) {
                Some(self.next(WriteEvent::Batch(batch, bytes)))
            } else {
                None
            },
    {
        let totals = self.totals();
        let rows: usize = batch.num_rows();
        if rows <= usize::MAX - totals.num_rows && totals.num_batches < u64::MAX && bytes
            <= usize::MAX - totals.num_bytes {
            Some(self.step(WriteEvent::Batch(batch, bytes)))
        } else {
            None
        }
    }

    /// The totals so far.
    fn totals(&self) -> (r: StoredTotals)
        ensures
            match *self {
                PartitionWrite::Reading(totals) => r == totals,
                PartitionWrite::Writing(totals) => r == totals,
                PartitionWrite::Finishing(totals) => r == totals,
                _ => true,
            },
    {
        match self {
            PartitionWrite::Reading(totals) => *totals,
            PartitionWrite::Writing(totals) => *totals,
            PartitionWrite::Finishing(totals) => *totals,
            _ => StoredTotals { num_rows: 0, num_batches: 0, num_bytes: 0 },
        }
    }

    /// The end, with `error` as the answer.
    fn fail(error: BallistaError) -> (r: (PartitionWrite, WriteRequest))
        ensures
            r == (PartitionWrite::Done, WriteRequest::Return(Err(error))),
    {
        (PartitionWrite::Done, WriteRequest::Return(Err(error)))
    }
}

} // verus!
