//! Record batches, as the stores see them.
use datafusion::arrow::array::RecordBatch;
use datafusion::arrow::datatypes::SchemaRef;
use vstd::prelude::*;

verus! {

/// `arrow::datatypes::Schema`, carried and never looked into.
#[verifier::external_type_specification]
#[verifier::external_body]
pub struct ExSchema(datafusion::arrow::datatypes::Schema);

/// An arrow record batch: a table of columns of equal length under a schema.
/// The stores pass batches on as they are; all they read is the schema, the
/// number of rows and the memory the columns occupy.
#[verifier::external_body]
pub struct Batch(pub RecordBatch);

/// The schema of the columns that `batch` holds.
pub uninterp spec fn batch_schema(batch: Batch) -> SchemaRef;

/// The number of rows that `batch` holds.
pub uninterp spec fn batch_rows(batch: Batch) -> usize;

/// `RecordBatch::schema`: the schema the batch was made with, the same on every
/// call.
#[verifier::external_body]
fn schema_of(batch: &Batch) -> (schema: SchemaRef)
    ensures
        schema == batch_schema(*batch),
{
    batch.0.schema()
}

/// `RecordBatch::num_rows`: the number of rows, the same on every call.
#[verifier::external_body]
fn rows_of(batch: &Batch) -> (rows: usize)
    ensures
        rows == batch_rows(*batch),
{
    batch.0.num_rows()
}

/// `RecordBatch::get_array_memory_size`: the bytes the columns' buffers occupy.
/// That rests on the capacities the allocator chose, so nothing is claimed of the
/// number.
#[verifier::external_body]
fn memory_of(batch: &Batch) -> (bytes: usize) {
    batch.0.get_array_memory_size()
}

/// `RecordBatch::clone`: a second handle on the same schema and the same columns.
#[verifier::external_body]
fn copy_of(batch: &Batch) -> (copy: Batch)
    ensures
        copy == *batch,
{
    Batch(batch.0.clone())
}

impl Batch {
    /// The schema of the batch.
    pub fn schema(&self) -> (schema: SchemaRef)
        ensures
            schema == batch_schema(*self),
    {
        schema_of(self)
    }

    /// The number of rows of the batch.
    pub fn num_rows(&self) -> (rows: usize)
        ensures
            rows == batch_rows(*self),
    {
        rows_of(self)
    }

    /// `RecordBatch::get_array_memory_size` can report `bytes` for the batch.
    pub closed spec fn occupies(self, bytes: usize) -> bool {
        call_ensures(memory_of, (&self,), bytes)
    }

    /// The bytes that the columns occupy in memory, as reported by
    /// `RecordBatch::get_array_memory_size`. The number depends on how the columns
    /// were allocated, not on their values alone, so that no contract says which it
    /// is; what is counted with it takes it as an argument.
    pub fn memory_size(&self) -> (bytes: usize)
        ensures
            self.occupies(bytes),
    {
        memory_of(self)
    }
}

/// The size of a batch is what `RecordBatch::get_array_memory_size` returns for it,
/// whatever the batch holds: every number the call can return, and no other.
proof fn law_size_is_the_reported_one(batch: Batch, bytes: usize)
    ensures
        batch.occupies(bytes) <==> call_ensures(memory_of, (&batch,), bytes),
{
}

impl Clone for Batch {
    fn clone(&self) -> (copy: Self)
        ensures
            copy == *self,
    {
        copy_of(self)
    }
}

} // verus!
