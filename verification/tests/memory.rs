use datafusion::arrow::array::{ArrayRef, Int32Array, RecordBatch, StringArray};
use datafusion::arrow::datatypes::{DataType, Field, Schema, SchemaRef};
use datafusion::physical_plan::RecordBatchStream;
use futures::executor::block_on;
use futures::StreamExt;
use partition_store::batch::Batch;
use partition_store::error::BallistaError;
use partition_store::memory::InMemoryPartitionStore;
use partition_store::path_map::PathMap;
use partition_store::stream::PartitionStream;
use std::sync::Arc;

fn numbers_schema() -> SchemaRef {
    Arc::new(Schema::new(vec![Field::new("n", DataType::Int32, false)]))
}

fn numbers(values: Vec<i32>) -> RecordBatch {
    let column: ArrayRef = Arc::new(Int32Array::from(values));
    RecordBatch::try_new(numbers_schema(), vec![column]).unwrap()
}

fn words(values: Vec<&str>) -> RecordBatch {
    let schema = Arc::new(Schema::new(vec![Field::new("w", DataType::Utf8, false)]));
    let column: ArrayRef = Arc::new(StringArray::from(values));
    RecordBatch::try_new(schema, vec![column]).unwrap()
}

fn store() -> InMemoryPartitionStore<&'static str> {
    InMemoryPartitionStore::new()
}

fn read(stream: PartitionStream<&'static str>) -> (SchemaRef, Vec<RecordBatch>) {
    match stream {
        PartitionStream::Buffered(mut stream) => {
            let schema = stream.schema();
            let mut batches = Vec::new();
            while let Some(batch) = block_on(stream.next()) {
                batches.push(batch.unwrap());
            }
            (schema, batches)
        }
        PartitionStream::Source(_) => panic!("expected gathered batches"),
    }
}

fn is_missing(error: BallistaError, path: &str) -> bool {
    match error {
        BallistaError::General(text) => {
            text == format!("Partition not found in in-memory store: {path}")
        }
        _ => false,
    }
}

#[test]
fn gathered_batches_are_fetched_in_order() {
    let mut store = store();
    assert!(store.store_batch("a", Batch(numbers(vec![1, 2]))).is_ok());
    assert!(store.store_batch("a", Batch(numbers(vec![3]))).is_ok());
    assert!(store.store_batch("a", Batch(numbers(vec![]))).is_ok());
    assert!(store.finalize_batches("a").is_ok());
    let (schema, batches) = read(store.fetch_partition("a").unwrap());
    assert_eq!(schema, numbers_schema());
    assert_eq!(batches, vec![numbers(vec![1, 2]), numbers(vec![3]), numbers(vec![])]);
}

#[test]
fn the_first_batch_fixes_the_schema() {
    let mut store = store();
    store.store_batch("a", Batch(numbers(vec![1]))).unwrap();
    store.store_batch("a", Batch(words(vec!["x"]))).unwrap();
    store.finalize_batches("a").unwrap();
    let (schema, batches) = read(store.fetch_partition("a").unwrap());
    assert_eq!(schema, numbers_schema());
    assert_eq!(batches, vec![numbers(vec![1]), words(vec!["x"])]);
}

#[test]
fn finalizing_nothing_is_an_error() {
    let mut store = store();
    assert!(is_missing(store.finalize_batches("shuffle/0").unwrap_err(), "shuffle/0"));
    store.store_batch("a", Batch(numbers(vec![1]))).unwrap();
    store.finalize_batches("a").unwrap();
    assert!(is_missing(store.finalize_batches("a").unwrap_err(), "a"));
}

#[test]
fn batches_are_not_fetched_before_they_are_finalized() {
    let mut store = store();
    store.store_batch("a", Batch(numbers(vec![1]))).unwrap();
    assert!(is_missing(store.fetch_partition("a").err().unwrap(), "a"));
    store.finalize_batches("a").unwrap();
    assert_eq!(read(store.fetch_partition("a").unwrap()).1.len(), 1);
}

#[test]
fn a_partition_is_handed_out_once() {
    let mut store = store();
    store.store_partition("a", "stream").unwrap();
    assert!(store.fetch_partition("a").is_ok());
    assert!(is_missing(store.fetch_partition("a").err().unwrap(), "a"));
    assert!(is_missing(store.take_partition("a").err().unwrap(), "a"));
}

#[test]
fn a_stream_is_given_back_as_it_was_stored() {
    let mut store = store();
    assert_eq!(store.store_partition("a", "first").unwrap(), None);
    assert_eq!(store.store_partition("a", "second").unwrap(), None);
    match store.take_partition("a").unwrap() {
        PartitionStream::Source(stream) => assert_eq!(stream, "second"),
        PartitionStream::Buffered(_) => panic!("expected the stream"),
    }
}

#[test]
fn finalizing_replaces_a_stream() {
    let mut store = store();
    store.store_partition("a", "stream").unwrap();
    store.store_batch("a", Batch(numbers(vec![7]))).unwrap();
    store.finalize_batches("a").unwrap();
    assert_eq!(read(store.fetch_partition("a").unwrap()).1, vec![numbers(vec![7])]);
}

#[test]
fn deleting_drops_streams_and_keeps_what_is_gathered() {
    let mut store = store();
    store.store_partition("a", "stream").unwrap();
    store.store_batch("a", Batch(numbers(vec![1]))).unwrap();
    assert!(store.delete_partition("a").is_ok());
    assert!(is_missing(store.fetch_partition("a").err().unwrap(), "a"));
    assert!(store.delete_partition("a").is_ok());
    store.finalize_batches("a").unwrap();
    assert_eq!(read(store.fetch_partition("a").unwrap()).1, vec![numbers(vec![1])]);
}

#[test]
fn gathering_starts_anew_after_finalizing() {
    let mut store = store();
    store.store_batch("a", Batch(numbers(vec![1]))).unwrap();
    store.finalize_batches("a").unwrap();
    store.store_batch("a", Batch(words(vec!["y"]))).unwrap();
    store.finalize_batches("a").unwrap();
    let (schema, batches) = read(store.fetch_partition("a").unwrap());
    assert_eq!(schema.field(0).name(), "w");
    assert_eq!(batches, vec![words(vec!["y"])]);
}

#[test]
fn paths_do_not_disturb_each_other() {
    let mut store = store();
    store.store_batch("a", Batch(numbers(vec![1]))).unwrap();
    store.store_batch("b", Batch(numbers(vec![2]))).unwrap();
    store.store_partition("c", "stream").unwrap();
    store.finalize_batches("a").unwrap();
    store.delete_partition("c").unwrap();
    store.store_batch("b", Batch(numbers(vec![3]))).unwrap();
    store.finalize_batches("b").unwrap();
    assert_eq!(read(store.fetch_partition("b").unwrap()).1, vec![numbers(vec![2]), numbers(vec![3])]);
    assert_eq!(read(store.fetch_partition("a").unwrap()).1, vec![numbers(vec![1])]);
}

#[test]
fn batches_report_schema_rows_and_memory() {
    let batch = Batch(numbers(vec![4, 5, 6]));
    assert_eq!(batch.schema(), numbers_schema());
    assert_eq!(batch.num_rows(), 3);
    assert_eq!(batch.memory_size(), batch.0.get_array_memory_size());
    assert_eq!(batch.clone().0, numbers(vec![4, 5, 6]));
}

#[test]
fn a_path_map_finds_each_value_under_its_path() {
    let mut map: PathMap<u32> = PathMap::new();
    assert_eq!(map.remove("a"), None);
    map.insert("a", 1);
    map.insert("b", 2);
    map.insert("c", 3);
    map.insert("b", 4);
    assert_eq!(map.remove("a"), Some(1));
    assert_eq!(map.remove("a"), None);
    assert_eq!(map.remove("c"), Some(3));
    assert_eq!(map.remove("b"), Some(4));
    assert_eq!(map.remove("b"), None);
}
