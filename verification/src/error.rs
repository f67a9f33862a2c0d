use vstd::prelude::*;

verus! {

/// Domain error surfaced by the repository layer when the storage backend
/// rejects an operation.
#[derive(Debug, Clone, Copy, PartialEq, Eq, Structural)]
pub enum ServerError {
    DbError,
}

impl ServerError {
    /// Human-readable description, in place of a `Display` impl.
    pub fn message(&self) -> &'static str {
        match self {
            ServerError::DbError => "There was a problem with the database",
        }
    }
}

} // verus!
