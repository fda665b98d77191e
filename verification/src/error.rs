//! Errors of the SQL parser.

use vstd::prelude::*;

verus! {

/// Why a SQL text was not parsed.
#[derive(Debug, PartialEq, Eq)]
pub enum SqlError {
    /// The text could not be split into tokens; `message` is the tokenizer's.
    Tokenize { message: String },
    /// `expected` was wanted where the token written `found` stands.
    Syntax { expected: String, found: String },
    /// A name (`expected` says of what) was wanted; `actual` is the token
    /// the parser stands at after the failed attempt.
    Unexpected { expected: String, actual: String },
    /// The statement is not supported; `keyword` is the token where this was found.
    Unsupported { keyword: String },
    /// A table or view name is empty.
    InvalidTableName { name: String },
    /// A flow name is empty.
    InvalidFlowName { name: String },
    /// A trigger name is empty.
    InvalidTriggerName { name: String },
    /// The value given to option `key` (written `value`) is not a literal.
    InvalidOptionValue { key: String, value: String },
    /// `key` is not an option of DDL statements.
    InvalidOption { key: String },
}

/// Model of [`SqlError`].
pub enum SqlErrorV {
    Tokenize { message: Seq<char> },
    Syntax { expected: Seq<char>, found: Seq<char> },
    Unexpected { expected: Seq<char>, actual: Seq<char> },
    Unsupported { keyword: Seq<char> },
    InvalidTableName { name: Seq<char> },
    InvalidFlowName { name: Seq<char> },
    InvalidTriggerName { name: Seq<char> },
    InvalidOptionValue { key: Seq<char>, value: Seq<char> },
    InvalidOption { key: Seq<char> },
}

impl View for SqlError {
    type V = SqlErrorV;

    open spec fn view(&self) -> SqlErrorV {
        match self {
            SqlError::Tokenize { message } => SqlErrorV::Tokenize { message: message@ },
            SqlError::Syntax { expected, found } => SqlErrorV::Syntax { expected: expected@, found: found@ },
            SqlError::Unexpected { expected, actual } => SqlErrorV::Unexpected { expected: expected@, actual: actual@ },
            SqlError::Unsupported { keyword } => SqlErrorV::Unsupported { keyword: keyword@ },
            SqlError::InvalidTableName { name } => SqlErrorV::InvalidTableName { name: name@ },
            SqlError::InvalidFlowName { name } => SqlErrorV::InvalidFlowName { name: name@ },
            SqlError::InvalidTriggerName { name } => SqlErrorV::InvalidTriggerName { name: name@ },
            SqlError::InvalidOptionValue { key, value } => SqlErrorV::InvalidOptionValue { key: key@, value: value@ },
            SqlError::InvalidOption { key } => SqlErrorV::InvalidOption { key: key@ },
        }
    }
}

} // verus!
