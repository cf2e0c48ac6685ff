//! Statement construction and staging: DDL synthesis, insert templates,
//! header handling, partitioning, and row-query composition.

use crate::format_data::FormattedData;
use crate::types::DatatypeIndexes;
use vstd::prelude::*;

pub mod create_table;
pub mod insert;
pub mod insert_utils;
pub mod mutate_grid;
pub mod mutate_row;
pub mod select;
pub mod utils;

verus! {

/// A grid of tagged cells ready for a load: the rows as handed in (header
/// first) and the classification of the body's columns.
#[derive(Debug)]
pub struct PreppedGridData {
    pub data: Vec<Vec<FormattedData>>,
    pub data_indexes: DatatypeIndexes,
}

/// A list of column names ready for a row query, together with the composed
/// query parts.
#[derive(Debug)]
pub struct PreppedRowData {
    pub data: Vec<String>,
    pub query: Option<String>,
    pub header: Option<Vec<String>>,
    pub filters: Option<Vec<String>>,
}

} // verus!
