//! The errors a partition store answers with, and their texts.
use datafusion::arrow::error::ArrowError;
use datafusion::error::DataFusionError;
use vstd::prelude::*;
use vstd::string::StringExecFns;

verus! {

/// `std::io::Error`, carried and never looked into.
#[verifier::external_type_specification]
#[verifier::external_body]
pub struct ExIoError(std::io::Error);

/// `arrow::error::ArrowError`, carried and never looked into.
#[verifier::external_type_specification]
#[verifier::external_body]
pub struct ExArrowError(datafusion::arrow::error::ArrowError);

/// `datafusion::error::DataFusionError`, carried and never looked into.
#[verifier::external_type_specification]
#[verifier::external_body]
pub struct ExDataFusionError(datafusion::error::DataFusionError);

/// Why a partition store could not do what it was asked.
#[derive(Debug)]
pub enum BallistaError {
    /// A request that cannot be met, in words.
    General(String),
    /// A failure while a partition was passed on, in words.
    Internal(String),
    /// The file system refused.
    IoError(std::io::Error),
    /// Arrow could not write or finish a partition file.
    ArrowError(ArrowError),
    /// The source of a partition failed.
    DataFusionError(DataFusionError),
}

impl From<std::io::Error> for BallistaError {
    fn from(error: std::io::Error) -> (r: BallistaError) {
        BallistaError::IoError(error)
    }
}

impl vstd::std_specs::convert::FromSpecImpl<std::io::Error> for BallistaError {
    open spec fn obeys_from_spec() -> bool {
        true
    }

    open spec fn from_spec(error: std::io::Error) -> BallistaError {
        BallistaError::IoError(error)
    }
}

impl From<ArrowError> for BallistaError {
    fn from(error: ArrowError) -> (r: BallistaError) {
        BallistaError::ArrowError(error)
    }
}

impl vstd::std_specs::convert::FromSpecImpl<ArrowError> for BallistaError {
    open spec fn obeys_from_spec() -> bool {
        true
    }

    open spec fn from_spec(error: ArrowError) -> BallistaError {
        BallistaError::ArrowError(error)
    }
}

impl From<DataFusionError> for BallistaError {
    fn from(error: DataFusionError) -> (r: BallistaError) {
        BallistaError::DataFusionError(error)
    }
}

impl vstd::std_specs::convert::FromSpecImpl<DataFusionError> for BallistaError {
    open spec fn obeys_from_spec() -> bool {
        true
    }

    open spec fn from_spec(error: DataFusionError) -> BallistaError {
        BallistaError::DataFusionError(error)
    }
}

impl BallistaError {
    /// The error is a general one with this text.
    pub open spec fn is_general(self, text: Seq<char>) -> bool {
        self matches BallistaError::General(message) && message@ == text
    }

    /// The error is an internal one with this text.
    pub open spec fn is_internal(self, text: Seq<char>) -> bool {
        self matches BallistaError::Internal(message) && message@ == text
    }
}

/// What a caller reads when memory holds nothing under `path`.
pub open spec fn not_in_memory_text(path: Seq<char>) -> Seq<char> {
    "Partition not found in in-memory store: "@ + path
}

/// What a caller reads when the file at `path` does not open.
pub open spec fn open_failed_text(path: Seq<char>, error: Seq<char>) -> Seq<char> {
    "Failed to open partition file at "@ + path + ": "@ + error
}

/// What a caller reads when the file at `path` opens but does not begin as a
/// partition file.
pub open spec fn reader_failed_text(path: Seq<char>, error: Seq<char>) -> Seq<char> {
    "Failed to new arrow FileReader at "@ + path + ": "@ + error
}

/// What a caller reads when the stream to be stored fails.
pub open spec fn source_failed_text(error: Seq<char>) -> Seq<char> {
    "Error processing stream: "@ + error
}

/// Memory holds nothing under `path`.
pub fn not_in_memory(path: &str) -> (error: BallistaError)
    ensures
        error.is_general(not_in_memory_text(path@)),
{
    let text = "Partition not found in in-memory store: ".to_owned().concat(path);
    BallistaError::General(text)
}

/// The file at `path` did not open; `error` is the reason, as the file system
/// words it.
pub fn open_failed(path: &str, error: &str) -> (r: BallistaError)
    ensures
        r.is_general(open_failed_text(path@, error@)),
{
    let text = "Failed to open partition file at ".to_owned().concat(path).concat(": ").concat(error);
    BallistaError::General(text)
}

/// The file at `path` does not begin as a partition file; `error` is the reason,
/// as the reader words it.
pub fn reader_failed(path: &str, error: &str) -> (r: BallistaError)
    ensures
        r.is_general(reader_failed_text(path@, error@)),
{
    let text = "Failed to new arrow FileReader at ".to_owned().concat(path).concat(": ").concat(error);
    BallistaError::General(text)
}

/// The stream to be stored failed; `error` is the reason, as the stream words it.
pub fn source_failed(error: &str) -> (r: BallistaError)
    ensures
        r.is_internal(source_failed_text(error@)),
{
    let text = "Error processing stream: ".to_owned().concat(error);
    BallistaError::Internal(text)
}

} // verus!
