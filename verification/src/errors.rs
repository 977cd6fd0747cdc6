//! The error taxonomy of the index build and query paths.

use vstd::prelude::*;
use vstd::string::StringExecFns;

verus! {

/// Everything that can go wrong while building or querying an index.
///
/// All of these are fatal to the operation that raised them; none is
/// retried, since each one is either a configuration error or a
/// deterministic data or environment error.
#[derive(Debug, PartialEq, Eq)]
pub enum IndexError {
    /// Neither a live registry source nor a cached dump was supplied.
    MissingSource,
    /// The registry evaluator exited with a failure; carries its captured
    /// standard error output.
    EvaluatorFailure { stderr: String },
    /// The raw registry bytes did not parse as a registry mapping.
    RegistryParseError { message: String },
    /// The stale index file could not be removed, or the new one could not
    /// be created.
    IndexCreationError { message: String },
    /// A record failed to insert during the build, which abandons the whole
    /// build; carries the attribute of the offending record.
    RowInsertError { attribute: String },
    /// The underlying store failed while answering a query.
    QueryFailure { message: String },
    /// A stored row does not match the expected schema.
    RowDecodeError { message: String },
}

impl IndexError {
    /// A human-readable description, with the operation that was being
    /// attempted as provenance.
    pub fn message(&self) -> (r: String)
        ensures
            *self is MissingSource ==> r@ == ("expected a registry source or a cached registry")@,
            forall|s: String|
                *self == (IndexError::EvaluatorFailure { stderr: s }) ==> r@ == (
                "evaluating the registry failed: ")@ + s@,
            forall|s: String|
                *self == (IndexError::RegistryParseError { message: s }) ==> r@ == (
                "reading the registry failed: ")@ + s@,
            forall|s: String|
                *self == (IndexError::IndexCreationError { message: s }) ==> r@ == (
                "creating the index failed: ")@ + s@,
            forall|s: String|
                *self == (IndexError::RowInsertError { attribute: s }) ==> r@ == (
                "inserting a package into the index failed: ")@ + s@,
            forall|s: String|
                *self == (IndexError::QueryFailure { message: s }) ==> r@ == (
                "executing the query failed: ")@ + s@,
            forall|s: String|
                *self == (IndexError::RowDecodeError { message: s }) ==> r@ == (
                "decoding a stored row failed: ")@ + s@,
    {
        match self {
            IndexError::MissingSource => String::from_str(
                "expected a registry source or a cached registry",
            ),
            IndexError::EvaluatorFailure { stderr } => String::from_str(
                "evaluating the registry failed: ",
            ).concat(stderr.as_str()),
            IndexError::RegistryParseError { message } => String::from_str(
                "reading the registry failed: ",
            ).concat(message.as_str()),
            IndexError::IndexCreationError { message } => String::from_str(
                "creating the index failed: ",
            ).concat(message.as_str()),
            IndexError::RowInsertError { attribute } => String::from_str(
                "inserting a package into the index failed: ",
            ).concat(attribute.as_str()),
            IndexError::QueryFailure { message } => String::from_str(
                "executing the query failed: ",
            ).concat(message.as_str()),
            IndexError::RowDecodeError { message } => String::from_str(
                "decoding a stored row failed: ",
            ).concat(message.as_str()),
        }
    }
}

} // verus!
