use vstd::prelude::*;

verus! {

/// Failures of the local relational store.
#[derive(Clone, Debug, PartialEq)]
pub enum RepositoryError {
    /// Row not found but expected at least one row
    NotFound,
    /// Row already exists
    UniqueViolation(String),
    /// Foreign key constraint is violated
    ForeignKeyViolation(String),
    /// Actix thread pool canceled
    ThreadPoolCanceled,
    /// Other DB related errors
    DBError { msg: String, extra: String },
}

/// Relies on `format!` with `{:?}`: the debug text of a value, whatever its `Debug` impl
/// writes.
#[verifier::external_body]
fn debug_text<T: std::fmt::Debug>(value: T) -> String {
    format!("{:?}", value)
}

impl RepositoryError {
    /// A database error with a message and the debug text of some detail.
    pub fn as_db_error<T: std::fmt::Debug>(msg: &str, extra: T) -> (r: Self)
        ensures
            r matches RepositoryError::DBError { msg: m, .. } && m@ == msg@,
    {
        RepositoryError::DBError { msg: crate::text::text(msg), extra: debug_text(extra) }
    }
}

} // verus!
