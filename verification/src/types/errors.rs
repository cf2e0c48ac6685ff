//! The loader's error kinds.

use vstd::prelude::*;

verus! {

/// What can go wrong while a load is being staged or bound.
///
/// Failures of the database driver itself are wrapped by the unverified
/// driver layer and never constructed here.
#[derive(Debug, Clone, Copy, PartialEq, Eq, Structural)]
pub enum OracleSqlToolsError {
    /// The reconciled or derived header's width differs from the body rows'
    /// width; carries both.
    InvalidHeaderLength { header_length: usize, body_length: usize },
    /// Schema synthesis was attempted on a grid that holds at most a header
    /// row, so no column types can be established.
    NoData,
    /// A row query was executed before `select` composed its statement.
    SQLQueryEmpty,
}

} // verus!
