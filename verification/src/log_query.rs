//! Errors of the log query planner and the status codes they are reported with.

use crate::text::{push_str, string_of};
use vstd::prelude::*;

verus! {

/// The status codes errors are classified by.
#[derive(Debug, Clone, Copy, PartialEq, Eq)]
pub enum StatusCode {
    Success,
    Unknown,
    Unsupported,
    Unexpected,
    Internal,
    InvalidArguments,
    Cancelled,
    IllegalState,
    External,
    DeadlineExceeded,
    InvalidSyntax,
    PlanQuery,
    EngineExecuteQuery,
    TableAlreadyExists,
    TableNotFound,
    TableColumnNotFound,
    TableColumnExists,
    DatabaseNotFound,
    DatabaseAlreadyExists,
    RegionNotFound,
    StorageUnavailable,
    RuntimeResourcesExhausted,
    RateLimited,
    PermissionDenied,
}

/// An error while planning a log query. Each variant carries as plain values
/// what is reported of it.
#[derive(Debug, PartialEq, Eq)]
pub enum Error {
    /// A catalog error; `source_status` is the status of the catalog's error.
    Catalog { source_status: StatusCode },
    /// Building the DataFusion plan failed; `error` describes how.
    DataFusionPlanning { error: String },
    UnknownTable,
    TimeIndexNotFound,
    Unimplemented { feature: String },
    UnknownAggregateFunction { name: String },
    UnknownScalarFunction { name: String },
    /// A log expression that was not expected; `expr` is its debug text.
    UnexpectedLogExpr { expr: String, expected: String },
}

/// The status each error is reported with.
pub open spec fn spec_status_code(e: Error) -> StatusCode {
    match e {
        Error::Catalog { source_status } => source_status,
        Error::DataFusionPlanning { .. } => StatusCode::External,
        Error::UnknownTable | Error::TimeIndexNotFound => StatusCode::Internal,
        Error::Unimplemented { .. } => StatusCode::Unsupported,
        Error::UnknownAggregateFunction { .. } | Error::UnknownScalarFunction { .. } | Error::UnexpectedLogExpr { .. } => StatusCode::InvalidArguments,
    }
}

/// The message of each error.
pub open spec fn spec_message(e: Error) -> Seq<char> {
    match e {
        Error::Catalog { .. } => "General catalog error"@,
        Error::DataFusionPlanning { .. } => "Internal error during building DataFusion plan"@,
        Error::UnknownTable => "Unknown table type, downcast failed"@,
        Error::TimeIndexNotFound => "Cannot find time index column"@,
        Error::Unimplemented { feature } => "Unimplemented feature: "@ + feature@,
        Error::UnknownAggregateFunction { name } => "Unknown aggregate function: "@ + name@,
        Error::UnknownScalarFunction { name } => "Unknown scalar function: "@ + name@,
        Error::UnexpectedLogExpr { expr, expected } => "Unexpected log expression: "@ + expr@ + ", expected "@ + expected@,
    }
}

impl Error {
    /// The status the error is reported with: a catalog error keeps the
    /// status of its source.
    pub fn status_code(&self) -> (res: StatusCode)
        ensures
            res == spec_status_code(*self),
    {
        match self {
            Error::Catalog { source_status } => *source_status,
            Error::DataFusionPlanning { .. } => StatusCode::External,
            Error::UnknownTable | Error::TimeIndexNotFound => StatusCode::Internal,
            Error::Unimplemented { .. } => StatusCode::Unsupported,
            Error::UnknownAggregateFunction { .. } | Error::UnknownScalarFunction { .. } | Error::UnexpectedLogExpr { .. } => StatusCode::InvalidArguments,
        }
    }

    /// The message of the error.
    pub fn message(&self) -> (res: String)
        ensures
            res@ == spec_message(*self),
    {
        match self {
            Error::Catalog { .. } => string_of("General catalog error"),
            Error::DataFusionPlanning { .. } => string_of("Internal error during building DataFusion plan"),
            Error::UnknownTable => string_of("Unknown table type, downcast failed"),
            Error::TimeIndexNotFound => string_of("Cannot find time index column"),
            Error::Unimplemented { feature } => {
                let mut m = string_of("Unimplemented feature: ");
                push_str(&mut m, feature.as_str());
                m
            },
            Error::UnknownAggregateFunction { name } => {
                let mut m = string_of("Unknown aggregate function: ");
                push_str(&mut m, name.as_str());
                m
            },
            Error::UnknownScalarFunction { name } => {
                let mut m = string_of("Unknown scalar function: ");
                push_str(&mut m, name.as_str());
                m
            },
            Error::UnexpectedLogExpr { expr, expected } => {
                let mut m = string_of("Unexpected log expression: ");
                push_str(&mut m, expr.as_str());
                push_str(&mut m, ", expected ");
                push_str(&mut m, expected.as_str());
                m
            },
        }
    }
}

} // verus!
