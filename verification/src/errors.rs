use vstd::prelude::*;

verus! {

/// Failures surfaced by the store.  Absence on a read path is not an error
/// (it is an `Option` / a `false` result); these cover genuine write-path
/// failures: unique-constraint violations, updates that matched no row, and
/// pagination arguments the store rejects.
#[derive(Clone, Copy, Debug, PartialEq, Eq, Structural)]
pub enum StoreError {
    /// A row with this unique id already exists.
    DuplicateId,
    /// An update addressed a row that does not exist.
    NotFound,
    /// A negative pagination offset or limit was supplied.
    InvalidPagination,
}

} // verus!
