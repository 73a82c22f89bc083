use datafusion::arrow::array::{ArrayRef, Int32Array, RecordBatch};
use datafusion::arrow::datatypes::{DataType, Field, Schema, SchemaRef};
use datafusion::arrow::ipc::reader::StreamReader;
use datafusion::arrow::ipc::writer::StreamWriter;
use datafusion::physical_plan::RecordBatchStream;
use datafusion::prelude::SessionConfig;
use futures::executor::block_on;
use futures::StreamExt;
use partition_store::batch::Batch;
use partition_store::disk::{
    write_options, BatchWrite, Opened, PartitionWrite, Take, WriteRequest,
};
use partition_store::error::BallistaError;
use partition_store::hybrid::{
    Fetch, ForwardEvent, ForwardRequest, Forwarding, HybridPartitionStore,
};
use partition_store::store_ref::{get_partition_store, PartitionStoreRef};
use partition_store::stream::{LocalShuffleStream, PartitionStream};
use std::io::{Error, ErrorKind};
use std::sync::Arc;

fn numbers_schema() -> SchemaRef {
    Arc::new(Schema::new(vec![Field::new("n", DataType::Int32, false)]))
}

fn numbers(values: Vec<i32>) -> RecordBatch {
    let column: ArrayRef = Arc::new(Int32Array::from(values));
    RecordBatch::try_new(numbers_schema(), vec![column]).unwrap()
}

fn store() -> HybridPartitionStore<&'static str> {
    HybridPartitionStore::new(Some(1024))
}

fn from_memory(fetch: Fetch<&'static str>) -> PartitionStream<&'static str> {
    match fetch {
        Fetch::Memory(stream) => stream,
        Fetch::Disk => panic!("expected memory, got disk"),
        Fetch::Fail(error) => panic!("expected memory, got {error:?}"),
    }
}

fn is_missing(fetch: Fetch<&'static str>, path: &str) -> bool {
    match fetch {
        Fetch::Fail(BallistaError::General(text)) => {
            text == format!("Partition not found in in-memory store: {path}")
        }
        _ => false,
    }
}

#[test]
fn batches_go_to_memory_and_to_disk() {
    let mut store = store();
    for values in [vec![1, 2], vec![3]] {
        let (copy, result) = store.store_batch("a", Batch(numbers(values.clone())));
        assert!(result.is_ok());
        assert_eq!(copy.0, numbers(values));
        match store.copy_batch("a", &copy) {
            BatchWrite::Create(schema) => {
                assert_eq!(copy.0.num_rows(), 2);
                assert_eq!(schema, numbers_schema());
                assert_eq!(store.writer_created("a", 9), 9);
            }
            BatchWrite::Append(writer) => {
                assert_eq!(copy.0.num_rows(), 1);
                assert_eq!(writer, 9);
            }
        }
    }
    assert_eq!(store.writer_created("a", 10), 9);
    assert_eq!(store.finalize_batches("a").unwrap(), Some(9));
    match from_memory(store.fetch_partition("a")) {
        PartitionStream::Buffered(mut stream) => {
            assert_eq!(stream.schema(), numbers_schema());
            assert_eq!(block_on(stream.next()).unwrap().unwrap(), numbers(vec![1, 2]));
            assert_eq!(block_on(stream.next()).unwrap().unwrap(), numbers(vec![3]));
            assert!(block_on(stream.next()).is_none());
        }
        PartitionStream::Source(_) => panic!("expected gathered batches"),
    }
    assert!(matches!(store.fetch_partition("a"), Fetch::Disk));
}

#[test]
fn finalizing_before_the_disk_began_names_no_writer() {
    let mut store = store();
    let (_, result) = store.store_batch("a", Batch(numbers(vec![1])));
    assert!(result.is_ok());
    assert_eq!(store.finalize_batches("a").unwrap(), None);
}

#[test]
fn finalizing_nothing_leaves_the_disk_alone() {
    let mut store = store();
    store.writer_created("a", 3);
    match store.finalize_batches("a").unwrap_err() {
        BallistaError::General(text) => {
            assert_eq!(text, "Partition not found in in-memory store: a")
        }
        other => panic!("unexpected {other:?}"),
    }
    let batch = Batch(numbers(vec![1]));
    assert!(matches!(store.copy_batch("a", &batch), BatchWrite::Append(3)));
    assert!(matches!(store.disk_store().store_batch("a", &batch), BatchWrite::Append(3)));
}

#[test]
fn memory_is_read_first_and_disk_afterwards() {
    let mut store = store();
    assert_eq!(store.store_partition("a", "stream").unwrap(), None);
    match from_memory(store.fetch_partition("a")) {
        PartitionStream::Source(stream) => assert_eq!(stream, "stream"),
        PartitionStream::Buffered(_) => panic!("expected the stream"),
    }
    assert!(matches!(store.fetch_partition("a"), Fetch::Disk));
    assert!(matches!(store.take_partition("a"), Fetch::Disk));
}

#[test]
fn an_unfinished_file_is_not_read() {
    let mut store = store();
    store.store_partition("a", "stream").unwrap();
    store.disk_write_started("a");
    assert!(matches!(from_memory(store.take_partition("a")), PartitionStream::Source("stream")));
    assert!(is_missing(store.fetch_partition("a"), "a"));
    assert!(is_missing(store.take_partition("a"), "a"));
    assert!(matches!(store.fetch_partition("b"), Fetch::Disk));
    store.disk_write_ended("a", Err(BallistaError::General("failed".to_string())));
    assert!(matches!(store.fetch_partition("a"), Fetch::Disk));
}

#[test]
fn taking_from_memory_hands_out_once() {
    let mut store: HybridPartitionStore<&'static str> = HybridPartitionStore::default();
    store.store_partition("a", "stream").unwrap();
    assert!(matches!(from_memory(store.take_partition("a")), PartitionStream::Source("stream")));
    assert!(matches!(store.take_partition("a"), Fetch::Disk));
}

#[test]
fn deleting_always_succeeds() {
    let mut store = store();
    store.store_partition("a", "stream").unwrap();
    store.delete_partition("a");
    assert!(store.file_removed(Err(Error::from(ErrorKind::NotFound))).is_ok());
    assert!(matches!(store.fetch_partition("a"), Fetch::Disk));
    store.delete_partition("a");
    assert!(store.file_removed(Ok(())).is_ok());
}

/// Passes a source on and gives what memory and disk were sent.
fn pass_on(source: Vec<Vec<i32>>) -> (Vec<Batch>, Vec<RecordBatch>) {
    let mut for_disk = Vec::new();
    let (state, request) = Forwarding::begin();
    assert!(matches!(request, ForwardRequest::StartDisk));
    let (mut state, request) = state.step(ForwardEvent::DiskStarted);
    assert!(matches!(request, ForwardRequest::ReadSource));
    for values in source {
        let (sending, request) = state.step(ForwardEvent::Batch(Batch(numbers(values))));
        match request {
            ForwardRequest::SendToDisk(batch) => for_disk.push(batch.0),
            _ => panic!("expected a batch for the disk"),
        }
        match &sending {
            Forwarding::Sending(waiting) => assert_eq!(waiting.len(), for_disk.len()),
            _ => panic!("expected a batch on its way"),
        }
        let (reading, request) = sending.step(ForwardEvent::Sent);
        assert!(matches!(request, ForwardRequest::ReadSource));
        state = reading;
    }
    assert!(matches!(state, Forwarding::Reading(_)));
    let (state, request) = state.step(ForwardEvent::Ended);
    assert!(matches!(state, Forwarding::Done));
    match request {
        ForwardRequest::StoreInMemory(waiting) => (waiting, for_disk),
        _ => panic!("expected the batches for memory"),
    }
}

#[test]
fn a_source_is_passed_on_to_both() {
    let source = vec![vec![1], vec![2, 3], vec![], vec![4], vec![5, 6, 7]];
    let batches: Vec<RecordBatch> = source.iter().cloned().map(numbers).collect();
    let (for_memory, for_disk) = pass_on(source);
    let for_memory: Vec<RecordBatch> = for_memory.into_iter().map(|batch| batch.0).collect();
    assert_eq!(for_memory, batches);
    assert_eq!(for_disk, batches);
}

#[test]
fn an_empty_source_is_stored_under_its_schema() {
    let mut store = store();
    assert_eq!(store.store_waiting("a", numbers_schema(), vec![]).unwrap(), None);
    assert!(read_gathered(from_memory(store.fetch_partition("a"))).is_empty());
}

#[test]
fn the_mark_of_a_copying_outlasts_other_calls() {
    let mut store = store();
    store.begin_copy("a");
    store.begin_copy("b");
    let (copy, _) = store.store_batch("a", Batch(numbers(vec![1])));
    store.copy_batch("a", &copy);
    store.writer_created("a", 1);
    store.finalize_batches("a").unwrap();
    from_memory(store.take_partition("a"));
    store.delete_partition("a");
    store.disk_write_ended("b", Ok(None));
    assert!(is_missing(store.fetch_partition("a"), "a"));
    assert!(matches!(store.fetch_partition("b"), Fetch::Disk));
    store.disk_write_ended("a", Ok(None));
    assert!(matches!(store.fetch_partition("a"), Fetch::Disk));
}

#[test]
fn an_empty_source_is_passed_on() {
    let (for_memory, for_disk) = pass_on(vec![]);
    assert!(for_memory.is_empty());
    assert!(for_disk.is_empty());
}

/// A file that holds `batches`, as bytes.
fn file_of(batches: &[RecordBatch]) -> Vec<u8> {
    let options = write_options().unwrap();
    let mut writer =
        StreamWriter::try_new_with_options(Vec::new(), &numbers_schema(), options).unwrap();
    for batch in batches {
        writer.write(batch).unwrap();
    }
    writer.finish().unwrap();
    writer.into_inner().unwrap()
}

fn open(file: &Vec<u8>) -> Opened<StreamReader<&[u8]>> {
    Opened::Reading(StreamReader::try_new(file.as_slice(), None).unwrap())
}

fn read_all(stream: LocalShuffleStream<StreamReader<&[u8]>>) -> Vec<RecordBatch> {
    let mut reader = stream.reader;
    let mut batches = Vec::new();
    loop {
        let read = reader.next().map(|item| item.map(Batch));
        match LocalShuffleStream::<StreamReader<&[u8]>>::poll_next(read) {
            Some(item) => batches.push(item.unwrap().0),
            None => return batches,
        }
    }
}

fn read_gathered(stream: PartitionStream<&'static str>) -> Vec<RecordBatch> {
    match stream {
        PartitionStream::Buffered(mut stream) => {
            assert_eq!(stream.schema(), numbers_schema());
            let mut batches = Vec::new();
            while let Some(item) = block_on(stream.next()) {
                batches.push(item.unwrap());
            }
            batches
        }
        PartitionStream::Source(_) => panic!("expected gathered batches"),
    }
}

/// A store that was given a source of three batches, whose copying ended with success;
/// the batches, and the file.
fn copied() -> (HybridPartitionStore<&'static str>, Vec<RecordBatch>, Vec<u8>) {
    let source = vec![vec![1], vec![2, 3], vec![4]];
    let batches: Vec<RecordBatch> = source.iter().cloned().map(numbers).collect();
    let (for_memory, for_disk) = pass_on(source);
    let mut store = HybridPartitionStore::new(None);
    let (state, request) = store.begin_copy("a");
    assert!(matches!(state, PartitionWrite::Creating));
    assert!(matches!(request, WriteRequest::CreateFile));
    assert!(is_missing(store.fetch_partition("a"), "a"));
    assert_eq!(store.store_waiting("a", numbers_schema(), for_memory).unwrap(), None);
    store.disk_write_ended("a", Ok(None));
    (store, batches, file_of(&for_disk))
}

#[test]
fn a_copied_partition_is_fetched_again_and_again() {
    let (mut store, batches, file) = copied();
    assert_eq!(read_gathered(from_memory(store.fetch_partition("a"))), batches);
    for _ in 0..3 {
        assert!(matches!(store.fetch_partition("a"), Fetch::Disk));
        let stream = store.disk_store().fetch_partition("a", open(&file)).unwrap();
        assert_eq!(stream.reader.schema(), numbers_schema());
        assert_eq!(read_all(stream), batches);
    }
}

#[test]
fn a_copied_partition_is_taken_twice() {
    let (mut store, batches, file) = copied();
    assert_eq!(read_gathered(from_memory(store.take_partition("a"))), batches);
    assert!(matches!(store.take_partition("a"), Fetch::Disk));
    match store.disk_store().take_partition("a", open(&file)) {
        Take::Remove(stream) => {
            let stream = store.disk_store().partition_removed(stream, Ok(())).unwrap();
            assert_eq!(read_all(stream), batches);
        }
        Take::Fail(error) => panic!("unexpected {error:?}"),
    }
    assert!(matches!(store.take_partition("a"), Fetch::Disk));
    let missing: Opened<StreamReader<&[u8]>> = Opened::Missing("no such file".to_string());
    match store.disk_store().take_partition("a", missing) {
        Take::Fail(BallistaError::General(text)) => {
            assert_eq!(text, "Failed to open partition file at a: no such file")
        }
        _ => panic!("expected a failure"),
    }
}

#[test]
fn a_failing_source_is_an_internal_error() {
    let (state, request) =
        Forwarding::Reading(vec![Batch(numbers(vec![1]))]).step(ForwardEvent::Failed("out of memory".to_string()));
    assert!(matches!(state, Forwarding::Done));
    match request {
        ForwardRequest::Fail(BallistaError::Internal(text)) => {
            assert_eq!(text, "Error processing stream: out of memory")
        }
        _ => panic!("expected a failure"),
    }
}

trait Answer: Send + Sync {
    fn answer(&self) -> u32;
}

struct Seven;

impl Answer for Seven {
    fn answer(&self) -> u32 {
        7
    }
}

#[test]
fn a_session_gives_its_store() {
    let seven: Arc<dyn Answer> = Arc::new(Seven);
    let store_ref = PartitionStoreRef(seven);
    assert_eq!(store_ref.clone().0.answer(), 7);
    let config = SessionConfig::new().with_extension(Arc::new(store_ref));
    assert_eq!(get_partition_store::<dyn Answer>(&config).unwrap().answer(), 7);
    assert!(get_partition_store::<u32>(&config).is_none());
}

#[test]
fn an_extension_is_looked_through() {
    assert_eq!(PartitionStoreRef::store(Some(Arc::new(PartitionStoreRef(Arc::new(5))))).unwrap(), Arc::new(5));
    assert!(PartitionStoreRef::<u8>::store(None).is_none());
}
