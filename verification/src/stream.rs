//! The streams a partition is handed out as.
use crate::batch::Batch;
use datafusion::arrow::datatypes::SchemaRef;
use datafusion::arrow::error::ArrowError;
use datafusion::error::DataFusionError;
use datafusion::physical_plan::memory::MemoryStream;
use vstd::prelude::*;

verus! {

/// `datafusion::physical_plan::memory::MemoryStream`: a stream over a list of
/// batches in memory.
#[verifier::external_type_specification]
#[verifier::external_body]
pub struct ExMemoryStream(datafusion::physical_plan::memory::MemoryStream);

/// The batches that `stream` has yet to yield, in the order it yields them.
pub uninterp spec fn memory_stream_batches(stream: MemoryStream) -> Seq<Batch>;

/// The schema that `stream` reports.
pub uninterp spec fn memory_stream_schema(stream: MemoryStream) -> SchemaRef;

/// `MemoryStream::try_new` without a projection: always succeeds, and gives a
/// stream that reports `schema` and yields `batches` one by one, in order and
/// unchanged. The schemas of the batches are not compared with `schema`.
#[verifier::external_body]
pub(crate) fn stream_of(batches: Vec<Batch>, schema: SchemaRef) -> (r: Result<
    MemoryStream,
    DataFusionError,
>)
    ensures
        r is Ok,
        memory_stream_batches(r->Ok_0) == batches@,
        memory_stream_schema(r->Ok_0) == schema,
{
    MemoryStream::try_new(batches.into_iter().map(|batch| batch.0).collect(), schema, None)
}

/// The `Debug` text of a `DataFusionError`. It can hold a backtrace, so nothing is
/// claimed of it.
#[verifier::external_body]
pub(crate) fn error_text(error: &DataFusionError) -> (text: String) {
    format!("{error:?}")
}

/// A stored partition: batches that were gathered one by one, or a stream that was
/// handed over whole. `S` is the type of such streams; nothing is asked of it.
pub enum PartitionStream<S> {
    /// The batches gathered under a path.
    Buffered(MemoryStream),
    /// A stream as it was handed over, not yet read.
    Source(S),
}

/// What a stored partition holds.
#[verifier::ext_equal]
pub enum PartitionContents<S> {
    /// The batches, in the order they will be read, and the schema reported for them.
    Batches { schema: SchemaRef, batches: Seq<Batch> },
    /// Whatever the stream that was handed over yields.
    Source(S),
}

impl<S> View for PartitionStream<S> {
    type V = PartitionContents<S>;

    open spec fn view(&self) -> PartitionContents<S> {
        match *self {
            PartitionStream::Buffered(stream) => PartitionContents::Batches {
                schema: memory_stream_schema(stream),
                batches: memory_stream_batches(stream),
            },
            PartitionStream::Source(stream) => PartitionContents::Source(stream),
        }
    }
}

/// The arrow error that `error` stands for, if it stands for one.
pub uninterp spec fn arrow_cause(error: DataFusionError) -> Option<ArrowError>;

/// `DataFusionError::from(ArrowError)`: an error of the arrow kind that carries
/// `error` itself. It also carries a backtrace, of which nothing is claimed.
#[verifier::external_body]
fn as_datafusion(error: ArrowError) -> (r: DataFusionError)
    ensures
        arrow_cause(r) == Some(error),
{
    error.into()
}

/// `item` is what a file's stream yields when its reader yields `read`: the end and
/// each batch as they are, and an error of the reader as one of the stream.
pub open spec fn yields(
    read: Option<Result<Batch, ArrowError>>,
    item: Option<Result<Batch, DataFusionError>>,
) -> bool {
    match read {
        None => item is None,
        Some(Ok(batch)) => item == Some(Ok::<Batch, DataFusionError>(batch)),
        Some(Err(error)) => item matches Some(Err(failure)) && arrow_cause(failure) == Some(error),
    }
}

/// A partition file being read batch by batch. `R` is the reader of the open file.
pub struct LocalShuffleStream<R> {
    pub reader: R,
}

impl<R> LocalShuffleStream<R> {
    pub fn new(reader: R) -> (r: Self)
        ensures
            r.reader == reader,
    {
        LocalShuffleStream { reader }
    }

    /// What the stream yields when its reader yields `read`.
    pub fn poll_next(read: Option<Result<Batch, ArrowError>>) -> (item: Option<
        Result<Batch, DataFusionError>,
    >)
        ensures
            yields(read, item),
    {
        match read {
            Some(Ok(batch)) => Some(Ok(batch)),
            Some(Err(error)) => Some(Err(as_datafusion(error))),
            None => None,
        }
    }
}

} // verus!
