//! Staging an insert: schema synthesis or header reconciliation, the insert
//! template, and the prepared batch handed to the fan-out stage.

use crate::statements::create_table::{create_stmt_spec, Create};
use crate::statements::mutate_grid::MutateGrid;
use crate::statements::mutate_row::{insert_stmt_spec, MutateRow};
use crate::statements::PreppedGridData;
use crate::types::errors::OracleSqlToolsError;
use crate::types::{body_of, body_rectangular, body_width, classifies, BatchPrep, DatatypeIndexes};
use vstd::prelude::*;

verus! {

/// What the orchestrator learned about the destination table before staging:
/// it does not exist yet, or it exists with these catalog column names, in
/// catalog order.
#[derive(Debug)]
pub enum TableInfo {
    Absent,
    Existing(Vec<String>),
}

/// Stages a prepared grid for loading into `table_name`.
///
/// When the table is absent, the body's columns are classified, the CREATE
/// TABLE statement is synthesized for the driver layer to run, and the
/// supplied header row names the columns. When the table exists, the
/// catalog's column list replaces the supplied header outright — the
/// destination table is authoritative — and no DDL is produced. Either way
/// the call fails fast with `InvalidHeaderLength` if the header's width
/// differs from the body rows' width, before any statement is handed out.
pub fn stage_insert_data(grid_data: PreppedGridData, table_name: &str, table: TableInfo) -> (r:
    Result<(BatchPrep, Option<String>), OracleSqlToolsError>)
    requires
        body_rectangular(body_of(grid_data.data@)),
        table is Existing ==> grid_data.data@.len() >= 2,
    ensures
        ({
            let grid = grid_data.data@;
            let body = body_of(grid);
            match table {
                TableInfo::Absent => {
                    if grid.len() <= 1 {
                        r is Err && r->Err_0 == OracleSqlToolsError::NoData
                    } else if grid[0]@.len() != grid[1]@.len() {
                        r is Err && r->Err_0 == (OracleSqlToolsError::InvalidHeaderLength {
                            header_length: grid[0]@.len() as usize,
                            body_length: grid[1]@.len() as usize,
                        })
                    } else {
                        r is Ok && {
                            let bp = r->Ok_0.0;
                            let ddl = r->Ok_0.1;
                            &&& bp.data@ == body
                            &&& classifies(bp.data_indexes, body, body_width(body))
                            &&& bp.insert_stmt@ == insert_stmt_spec(grid[0].texts(), table_name@)
                            &&& ddl is Some
                            &&& ddl->Some_0@ == create_stmt_spec(grid, bp.data_indexes, table_name@)
                        }
                    }
                },
                TableInfo::Existing(cols) => {
                    if cols@.len() != grid[1]@.len() {
                        r is Err && r->Err_0 == (OracleSqlToolsError::InvalidHeaderLength {
                            header_length: cols@.len() as usize,
                            body_length: grid[1]@.len() as usize,
                        })
                    } else {
                        r is Ok && {
                            let bp = r->Ok_0.0;
                            let ddl = r->Ok_0.1;
                            &&& bp.data@ == body
                            &&& classifies(bp.data_indexes, body, body_width(body))
                            &&& bp.insert_stmt@ == insert_stmt_spec(
                                cols@.map_values(|s: String| s@),
                                table_name@,
                            )
                            &&& ddl is None
                        }
                    }
                },
            }
        }),
{
    let mut data = grid_data.data;
    match table {
        TableInfo::Absent => {
            if data.len() <= 1 {
                return Err(OracleSqlToolsError::NoData);
            }
            let header_length = data[0].len();
            let body_length = data[1].len();
            if header_length != body_length {
                return Err(OracleSqlToolsError::InvalidHeaderLength { header_length, body_length });
            }
            let data_indexes = DatatypeIndexes::get_col_datatype(&data);
            proof {
                assert forall|y: int| 0 <= y < data@.len() implies #[trigger] data@[y]@.len()
                    == body_width(data@) by {
                    if y >= 1 {
                        assert(data@[y] == body_of(data@)[y - 1]);
                    }
                }
            }
            let ddl = match data.create_table(table_name, &data_indexes) {
                Ok(d) => d,
                Err(_) => {
                    proof {
                        assert(false);
                    }
                    return Err(OracleSqlToolsError::NoData);
                },
            };
            let data_header = data.separate_header();
            let insert_stmt = data_header.insert_stmt(table_name);
            Ok((BatchPrep { data, insert_stmt, data_indexes }, Some(ddl)))
        },
        TableInfo::Existing(cols) => {
            let body_length = data[1].len();
            if cols.len() != body_length {
                return Err(
                    OracleSqlToolsError::InvalidHeaderLength {
                        header_length: cols.len(),
                        body_length,
                    },
                );
            }
            let data_indexes = DatatypeIndexes::get_col_datatype(&data);
            let data_header = data.replace_header(&cols);
            proof {
                assert(data_header.texts() =~= cols@.map_values(|s: String| s@));
            }
            let insert_stmt = data_header.insert_stmt(table_name);
            Ok((BatchPrep { data, insert_stmt, data_indexes }, None))
        },
    }
}

} // verus!
