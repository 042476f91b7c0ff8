//! Error types of the engine.
//!
//! A row that decodes but lacks a required field fails with
//! `MissingValueError`, tagged with the field's name; a row the transport
//! cannot decode at all fails with `CSVError`; stream-level read and write
//! failures are `IOError` and always abort a run. The two outside error
//! payloads are opaque values carried through unchanged.

use vstd::prelude::*;

verus! {

/// Declares `csv::Error` so the library can carry a failed row decode through
/// to its caller. The value is opaque here; only the unverified shell creates
/// and inspects it.
#[verifier::external_type_specification]
#[verifier::external_body]
pub struct ExCsvError(csv::Error);

/// Declares `std::io::Error` so the library can carry a stream failure
/// through to its caller. The value is opaque here; only the unverified shell
/// creates and inspects it.
#[verifier::external_type_specification]
#[verifier::external_body]
pub struct ExIoError(std::io::Error);

/// A fault while reading and validating input rows.
#[derive(Debug)]
pub enum ReadError {
    /// A decoded row lacks a required field; `field` names it.
    MissingValueError { field: String },
    /// The transport could not decode the row at all.
    CSVError(csv::Error),
}

/// A fault that ends a whole run: either a read/validation fault or an I/O
/// fault of the underlying byte stream.
#[derive(Debug)]
pub enum MainError {
    ReadError(ReadError),
    IOError(std::io::Error),
}

impl ReadError {
    /// The field name carried by a `MissingValueError`, if this is one.
    pub open spec fn spec_missing_field(&self) -> Option<Seq<char>> {
        match self {
            ReadError::MissingValueError { field } => Some(field@),
            ReadError::CSVError(_) => None,
        }
    }
}

impl From<csv::Error> for ReadError {
    fn from(error: csv::Error) -> (r: Self) {
        ReadError::CSVError(error)
    }
}

impl vstd::std_specs::convert::FromSpecImpl<csv::Error> for ReadError {
    open spec fn obeys_from_spec() -> bool {
        true
    }

    open spec fn from_spec(v: csv::Error) -> Self {
        ReadError::CSVError(v)
    }
}

impl From<ReadError> for MainError {
    fn from(error: ReadError) -> (r: Self) {
        MainError::ReadError(error)
    }
}

impl vstd::std_specs::convert::FromSpecImpl<ReadError> for MainError {
    open spec fn obeys_from_spec() -> bool {
        true
    }

    open spec fn from_spec(v: ReadError) -> Self {
        MainError::ReadError(v)
    }
}

impl From<std::io::Error> for MainError {
    fn from(error: std::io::Error) -> (r: Self) {
        MainError::IOError(error)
    }
}

impl vstd::std_specs::convert::FromSpecImpl<std::io::Error> for MainError {
    open spec fn obeys_from_spec() -> bool {
        true
    }

    open spec fn from_spec(v: std::io::Error) -> Self {
        MainError::IOError(v)
    }
}

} // verus!
