use datafusion::arrow::array::{ArrayRef, Int32Array, RecordBatch};
use datafusion::arrow::datatypes::{DataType, Field, Schema, SchemaRef};
use datafusion::arrow::error::ArrowError;
use datafusion::arrow::ipc::reader::StreamReader;
use datafusion::arrow::ipc::writer::StreamWriter;
use datafusion::error::DataFusionError;
use partition_store::batch::Batch;
use partition_store::disk::{
    write_options, BatchWrite, DiskBasedPartitionStore, Opened, PartitionWrite, StoredTotals, Take,
    WriteEvent, WriteRequest,
};
use partition_store::error::BallistaError;
use partition_store::stats::PartitionStats;
use partition_store::stream::LocalShuffleStream;
use std::io::{Error, ErrorKind};
use std::sync::Arc;

fn numbers_schema() -> SchemaRef {
    Arc::new(Schema::new(vec![Field::new("n", DataType::Int32, false)]))
}

fn numbers(values: Vec<i32>) -> RecordBatch {
    let column: ArrayRef = Arc::new(Int32Array::from(values));
    RecordBatch::try_new(numbers_schema(), vec![column]).unwrap()
}

fn general(error: BallistaError) -> String {
    match error {
        BallistaError::General(text) => text,
        other => panic!("expected a general error, got {other:?}"),
    }
}

fn reading(totals: StoredTotals) -> PartitionWrite {
    PartitionWrite::Reading(totals)
}

fn none_yet() -> StoredTotals {
    StoredTotals { num_rows: 0, num_batches: 0, num_bytes: 0 }
}

#[test]
fn the_first_batch_creates_the_file_and_the_next_ones_are_appended() {
    let mut store = DiskBasedPartitionStore::new();
    let batch = Batch(numbers(vec![1]));
    match store.store_batch("a", &batch) {
        BatchWrite::Create(schema) => assert_eq!(schema, numbers_schema()),
        BatchWrite::Append(_) => panic!("there is no file yet"),
    }
    assert_eq!(store.writer_created("a", 7), 7);
    assert!(matches!(store.store_batch("a", &batch), BatchWrite::Append(7)));
    assert!(matches!(store.store_batch("b", &batch), BatchWrite::Create(_)));
}

#[test]
fn an_open_writer_is_not_replaced() {
    let mut store = DiskBasedPartitionStore::new();
    assert_eq!(store.writer_created("a", 7), 7);
    assert_eq!(store.writer_created("a", 8), 7);
    assert_eq!(store.finalize_batches("a"), Some(7));
}

#[test]
fn finalizing_names_the_writer_once() {
    let mut store = DiskBasedPartitionStore::new();
    assert_eq!(store.finalize_batches("a"), None);
    store.writer_created("a", 1);
    store.writer_created("b", 2);
    assert_eq!(store.finalize_batches("a"), Some(1));
    assert_eq!(store.finalize_batches("a"), None);
    assert_eq!(store.finalize_batches("b"), Some(2));
    assert!(matches!(store.store_batch("a", &Batch(numbers(vec![1]))), BatchWrite::Create(_)));
}

#[test]
fn a_failed_write_is_an_arrow_error() {
    assert!(DiskBasedPartitionStore::written(Ok(())).is_ok());
    let failure = ArrowError::IpcError("closed".to_string());
    match DiskBasedPartitionStore::written(Err(failure)).unwrap_err() {
        BallistaError::ArrowError(ArrowError::IpcError(text)) => assert_eq!(text, "closed"),
        other => panic!("unexpected {other:?}"),
    }
}

#[test]
fn a_fetch_tells_why_the_file_cannot_be_read() {
    let store = DiskBasedPartitionStore::new();
    let missing: Opened<u8> = Opened::Missing("gone".to_string());
    assert_eq!(
        general(store.fetch_partition("p/0", missing).err().unwrap()),
        "Failed to open partition file at p/0: gone"
    );
    let unreadable: Opened<u8> = Opened::Unreadable("no schema".to_string());
    assert_eq!(
        general(store.fetch_partition("p/0", unreadable).err().unwrap()),
        "Failed to new arrow FileReader at p/0: no schema"
    );
    assert_eq!(store.fetch_partition("p/0", Opened::Reading(5)).ok().unwrap().reader, 5);
}

#[test]
fn a_failed_removal_is_an_io_error() {
    let store = DiskBasedPartitionStore::new();
    assert!(store.delete_partition(Ok(())).is_ok());
    match store.delete_partition(Err(Error::from(ErrorKind::NotFound))).unwrap_err() {
        BallistaError::IoError(error) => assert_eq!(error.kind(), ErrorKind::NotFound),
        other => panic!("unexpected {other:?}"),
    }
}

#[test]
fn a_taken_partition_is_opened_then_removed() {
    let store = DiskBasedPartitionStore::new();
    let stream = match store.take_partition("a", Opened::Reading(5)) {
        Take::Remove(stream) => stream,
        Take::Fail(_) => panic!("the file was opened"),
    };
    assert_eq!(store.partition_removed(stream, Ok(())).ok().unwrap().reader, 5);
    let refused = Err(Error::from(ErrorKind::PermissionDenied));
    match store.partition_removed(LocalShuffleStream::new(5), refused).err().unwrap() {
        BallistaError::IoError(error) => assert_eq!(error.kind(), ErrorKind::PermissionDenied),
        other => panic!("unexpected {other:?}"),
    }
    let missing: Opened<u8> = Opened::Missing("gone".to_string());
    match store.take_partition("a", missing) {
        Take::Fail(error) => {
            assert_eq!(general(error), "Failed to open partition file at a: gone")
        }
        Take::Remove(_) => panic!("there is nothing to remove"),
    }
    let unreadable: Opened<u8> = Opened::Unreadable("bad".to_string());
    match store.take_partition("a", unreadable) {
        Take::Fail(error) => {
            assert_eq!(general(error), "Failed to new arrow FileReader at a: bad")
        }
        Take::Remove(_) => panic!("there is nothing to remove"),
    }
}

#[test]
fn files_are_compressed_in_lz4_frames() {
    let text = format!("{:?}", write_options().unwrap());
    assert!(text.contains("LZ4_FRAME"), "{text}");
}

#[test]
fn what_is_written_with_the_options_is_read_back() {
    let options = write_options().unwrap();
    let mut writer =
        StreamWriter::try_new_with_options(Vec::new(), &numbers_schema(), options).unwrap();
    writer.write(&numbers(vec![1, 2, 3])).unwrap();
    writer.write(&numbers(vec![4])).unwrap();
    writer.finish().unwrap();
    let bytes = writer.into_inner().unwrap();
    let mut reader = StreamReader::try_new(bytes.as_slice(), None).unwrap();
    let mut read = Vec::new();
    while let Some(batch) = reader.next() {
        match LocalShuffleStream::<u8>::poll_next(Some(batch.map(Batch))) {
            Some(Ok(batch)) => read.push(batch.0),
            _ => panic!("expected a batch"),
        }
    }
    assert_eq!(read, vec![numbers(vec![1, 2, 3]), numbers(vec![4])]);
}

#[test]
fn finalizing_answers_with_what_came_of_the_file() {
    let finalized = DiskBasedPartitionStore::finalized;
    assert!(finalized(None).is_ok());
    assert!(finalized(Some(Ok(()))).is_ok());
    match finalized(Some(Err(ArrowError::IpcError("broken".to_string())))) {
        Err(BallistaError::ArrowError(error)) => {
            assert_eq!(error.to_string(), "Ipc error: broken")
        }
        _ => panic!("expected an arrow error"),
    }
}

#[test]
fn interleaved_batches_go_to_their_own_files() {
    let mut store = DiskBasedPartitionStore::new();
    let batch = Batch(numbers(vec![1]));
    assert!(matches!(store.store_batch("a", &batch), BatchWrite::Create(_)));
    assert_eq!(store.writer_created("a", 0), 0);
    assert!(matches!(store.store_batch("b", &batch), BatchWrite::Create(_)));
    assert_eq!(store.writer_created("b", 1), 1);
    assert!(matches!(store.store_batch("a", &batch), BatchWrite::Append(0)));
    assert!(matches!(store.store_batch("b", &batch), BatchWrite::Append(1)));
    assert_eq!(store.finalize_batches("a"), Some(0));
    assert!(matches!(store.store_batch("b", &batch), BatchWrite::Append(1)));
    assert!(matches!(store.store_batch("a", &batch), BatchWrite::Create(_)));
}

#[test]
fn a_reader_error_becomes_a_stream_error() {
    assert!(LocalShuffleStream::<u8>::poll_next(None).is_none());
    let failure = ArrowError::ParseError("bad message".to_string());
    match LocalShuffleStream::<u8>::poll_next(Some(Err(failure))) {
        Some(Err(DataFusionError::ArrowError(error, _))) => {
            assert_eq!(error.to_string(), "Parser error: bad message")
        }
        _ => panic!("expected an arrow error"),
    }
}

#[test]
fn storing_a_partition_writes_every_batch_and_reports_its_size() {
    let (state, request) = PartitionWrite::begin();
    assert!(matches!(request, WriteRequest::CreateFile));
    let (state, request) = state.step(WriteEvent::Created(Ok(())));
    assert!(matches!(request, WriteRequest::OpenWriter));
    let (state, request) = state.step(WriteEvent::Opened(Ok(())));
    assert!(matches!(request, WriteRequest::ReadSource));
    let (state, request) = state.step(WriteEvent::Batch(Batch(numbers(vec![1, 2, 3])), 100));
    match request {
        WriteRequest::Write(batch) => assert_eq!(batch.0, numbers(vec![1, 2, 3])),
        _ => panic!("expected a write"),
    }
    let (state, request) = state.step(WriteEvent::Written(Ok(())));
    assert!(matches!(request, WriteRequest::ReadSource));
    let (state, _) = state.receive_measured(Batch(numbers(vec![4])), 20).unwrap();
    let (state, _) = state.step(WriteEvent::Written(Ok(())));
    let (state, request) = state.step(WriteEvent::Ended);
    assert!(matches!(request, WriteRequest::FinishFile));
    let (state, request) = state.step(WriteEvent::Finished(Ok(())));
    assert!(matches!(state, PartitionWrite::Done));
    match request {
        WriteRequest::Return(Ok(stats)) => {
            assert_eq!(stats, Some(PartitionStats::new(Some(4), Some(2), Some(120))))
        }
        _ => panic!("expected the statistics"),
    }
}

#[test]
fn an_empty_source_leaves_an_empty_partition() {
    let (state, _) = reading(none_yet()).step(WriteEvent::Ended);
    let (_, request) = state.step(WriteEvent::Finished(Ok(())));
    match request {
        WriteRequest::Return(Ok(stats)) => {
            assert_eq!(stats, Some(PartitionStats::new(Some(0), Some(0), Some(0))))
        }
        _ => panic!("expected the statistics"),
    }
}

#[test]
fn a_received_batch_is_measured() {
    let batch = Batch(numbers(vec![1, 2]));
    let bytes = batch.memory_size();
    match reading(none_yet()).receive(batch) {
        Some((PartitionWrite::Writing(totals), WriteRequest::Write(_))) => {
            assert_eq!(totals, StoredTotals { num_rows: 2, num_batches: 1, num_bytes: bytes })
        }
        _ => panic!("expected a write"),
    }
}

#[test]
fn a_batch_that_cannot_be_counted_is_not_received() {
    let full = StoredTotals { num_rows: usize::MAX - 1, num_batches: 0, num_bytes: 0 };
    assert!(reading(full).receive_measured(Batch(numbers(vec![1])), 8).is_some());
    assert!(reading(full).receive_measured(Batch(numbers(vec![1, 2])), 8).is_none());
    let full = StoredTotals { num_rows: 0, num_batches: u64::MAX, num_bytes: 0 };
    assert!(reading(full).receive_measured(Batch(numbers(vec![1])), 8).is_none());
    let full = StoredTotals { num_rows: 0, num_batches: 0, num_bytes: usize::MAX };
    assert!(reading(full).receive_measured(Batch(numbers(vec![1])), 0).is_some());
    assert!(reading(full).receive(Batch(numbers(vec![1]))).is_none());
}

#[test]
fn the_first_failure_is_the_answer() {
    let failed = |event: WriteEvent, state: PartitionWrite| match state.step(event) {
        (PartitionWrite::Done, WriteRequest::Return(Err(error))) => error,
        _ => panic!("expected a failure"),
    };
    let arrow = || ArrowError::IpcError("broken".to_string());
    let error = failed(
        WriteEvent::Created(Err(Error::from(ErrorKind::NotFound))),
        PartitionWrite::Creating,
    );
    assert!(matches!(error, BallistaError::IoError(_)));
    let error = failed(WriteEvent::Opened(Err(arrow())), PartitionWrite::Opening);
    assert!(matches!(error, BallistaError::ArrowError(_)));
    let error = failed(
        WriteEvent::Failed(DataFusionError::Execution("gone".to_string())),
        reading(none_yet()),
    );
    assert!(matches!(error, BallistaError::DataFusionError(DataFusionError::Execution(_))));
    let error = failed(WriteEvent::Written(Err(arrow())), PartitionWrite::Writing(none_yet()));
    assert!(matches!(error, BallistaError::ArrowError(_)));
    let error = failed(WriteEvent::Finished(Err(arrow())), PartitionWrite::Finishing(none_yet()));
    assert!(matches!(error, BallistaError::ArrowError(_)));
}
