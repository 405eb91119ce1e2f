//! The library's error type.
use vstd::prelude::*;

verus! {

/// Why an operation failed. Each variant carries a human-readable detail.
#[derive(Debug)]
pub enum GraphonError {
    Database(String),
    Gmail(String),
    Classifier(String),
    Io(String),
    Serialization(String),
    Network(String),
    Internal(String),
    NotFound(String),
}

/// The mathematical model of a [`GraphonError`].
pub enum ErrorModel {
    Database(Seq<char>),
    Gmail(Seq<char>),
    Classifier(Seq<char>),
    Io(Seq<char>),
    Serialization(Seq<char>),
    Network(Seq<char>),
    Internal(Seq<char>),
    NotFound(Seq<char>),
}

impl View for GraphonError {
    type V = ErrorModel;

    open spec fn view(&self) -> ErrorModel {
        match self {
            GraphonError::Database(m) => ErrorModel::Database(m@),
            GraphonError::Gmail(m) => ErrorModel::Gmail(m@),
            GraphonError::Classifier(m) => ErrorModel::Classifier(m@),
            GraphonError::Io(m) => ErrorModel::Io(m@),
            GraphonError::Serialization(m) => ErrorModel::Serialization(m@),
            GraphonError::Network(m) => ErrorModel::Network(m@),
            GraphonError::Internal(m) => ErrorModel::Internal(m@),
            GraphonError::NotFound(m) => ErrorModel::NotFound(m@),
        }
    }
}

/// How an error is shown: its kind, a colon, then its detail.
pub open spec fn error_text(e: ErrorModel) -> Seq<char> {
    match e {
        ErrorModel::Database(m) => "Database error: "@ + m,
        ErrorModel::Gmail(m) => "Gmail API error: "@ + m,
        ErrorModel::Classifier(m) => "Classifier error: "@ + m,
        ErrorModel::Io(m) => "IO error: "@ + m,
        ErrorModel::Serialization(m) => "Serialization error: "@ + m,
        ErrorModel::Network(m) => "Network error: "@ + m,
        ErrorModel::Internal(m) => "Internal error: "@ + m,
        ErrorModel::NotFound(m) => "Not found: "@ + m,
    }
}

impl GraphonError {
    /// The error as it is shown to a reader.
    pub fn message(&self) -> (r: String)
        ensures
            r@ == error_text(self@),
    {
        let (mut t, m) = match self {
            GraphonError::Database(m) => (String::from_str("Database error: "), m),
            GraphonError::Gmail(m) => (String::from_str("Gmail API error: "), m),
            GraphonError::Classifier(m) => (String::from_str("Classifier error: "), m),
            GraphonError::Io(m) => (String::from_str("IO error: "), m),
            GraphonError::Serialization(m) => (String::from_str("Serialization error: "), m),
            GraphonError::Network(m) => (String::from_str("Network error: "), m),
            GraphonError::Internal(m) => (String::from_str("Internal error: "), m),
            GraphonError::NotFound(m) => (String::from_str("Not found: "), m),
        };
        t.append(m.as_str());
        t
    }
}

} // verus!
