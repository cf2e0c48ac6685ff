//! Bulk tabular loading toolkit for a SQL database: column datatype
//! classification, DDL synthesis, header reconciliation, grid partitioning
//! and per-cell bind decisions, with machine-checked contracts.
//!
//! The database session itself (connection, statement execution, batches) is
//! an outside collaborator: the functions here make every structural decision
//! — what SQL text to run, how to split the rows, which value each cell binds
//! to — and an unverified driver layer carries those decisions out.

use vstd::prelude::*;

pub mod datetime;
pub mod format_data;
pub mod statements;
pub mod types;
pub mod utils;

use crate::format_data::{renders_tagged, FormatData, FormattedData};
use crate::statements::{PreppedGridData, PreppedRowData};
use crate::types::{body_of, body_width, classifies, DatatypeIndexes};

verus! {

/// Prepares a vector or a two-dimensional vector for a SQL statement.
///
/// A two-dimensional vector becomes a [`PreppedGridData`]: every value is
/// tagged as a cell and the body's columns are classified. A plain vector
/// becomes a [`PreppedRowData`]: every value is rendered to the text of its
/// tagged form, ready to name columns in a row query.
pub trait PrepData<T: FormatData>: Sized {
    type Prep;

    /// The shape a prepared value must take.
    spec fn prep_matches(self, r: Self::Prep) -> bool;

    /// What the input must satisfy before preparation.
    spec fn prep_wf(self) -> bool;

    /// Converts the input into its prepared form.
    fn prep_data(self) -> (r: Self::Prep)
        requires
            self.prep_wf(),
        ensures
            self.prep_matches(r),
    ;
}

impl<T: FormatData> PrepData<T> for Vec<Vec<T>> {
    type Prep = PreppedGridData;

    /// Every cell is tagged in place, row shapes are kept, and the
    /// classification covers the body's columns.
    open spec fn prep_matches(self, r: PreppedGridData) -> bool {
        &&& r.data@.len() == self@.len()
        &&& forall|y: int|
            0 <= y < self@.len() ==> (#[trigger] r.data@[y])@.len() == self@[y]@.len()
        &&& forall|y: int, x: int|
            0 <= y < self@.len() && 0 <= x < self@[y]@.len() ==> self@[y]@[x].fmt_matches(
                #[trigger] r.data@[y]@[x],
            )
        &&& classifies(r.data_indexes, body_of(r.data@), body_width(body_of(r.data@)))
    }

    /// The rows after the header must share one width, so that the body's
    /// columns can be classified.
    open spec fn prep_wf(self) -> bool {
        forall|y: int| 1 <= y < self@.len() ==> (#[trigger] self@[y])@.len() == self@[1]@.len()
    }

    fn prep_data(self) -> (r: PreppedGridData) {
        let ghost orig = self@;
        let mut rest = self;
        let mut data: Vec<Vec<FormattedData>> = Vec::new();
        while rest.len() > 0
            invariant
                data@.len() + rest@.len() == orig.len(),
                rest@ == orig.skip(data@.len() as int),
                forall|y: int|
                    0 <= y < data@.len() ==> (#[trigger] data@[y])@.len() == orig[y]@.len(),
                forall|y: int, x: int|
                    0 <= y < data@.len() && 0 <= x < orig[y]@.len() ==> orig[y]@[x].fmt_matches(
                        #[trigger] data@[y]@[x],
                    ),
            decreases rest@.len(),
        {
            let ghost y = data@.len() as int;
            let row = rest.remove(0);
            proof {
                assert(row == orig[y]);
                assert(rest@ =~= orig.skip(y + 1));
            }
            let ghost orig_row = row@;
            let mut row_rest = row;
            let mut inner_vec: Vec<FormattedData> = Vec::new();
            while row_rest.len() > 0
                invariant
                    inner_vec@.len() + row_rest@.len() == orig_row.len(),
                    row_rest@ == orig_row.skip(inner_vec@.len() as int),
                    forall|x: int|
                        0 <= x < inner_vec@.len() ==> orig_row[x].fmt_matches(
                            #[trigger] inner_vec@[x],
                        ),
                decreases row_rest@.len(),
            {
                let ghost x = inner_vec@.len() as int;
                let cell = row_rest.remove(0);
                proof {
                    assert(cell == orig_row[x]);
                    assert(row_rest@ =~= orig_row.skip(x + 1));
                }
                inner_vec.push(cell.fmt_data());
            }
            data.push(inner_vec);
        }
        proof {
            assert(data@.len() == orig.len());
            assert forall|y: int|
                0 <= y < body_of(data@).len() implies #[trigger] body_of(data@)[y]@.len()
                == body_width(body_of(data@)) by {
                assert(body_of(data@)[y] == data@[y + 1]);
            }
        }
        let data_indexes = DatatypeIndexes::get_col_datatype(&data);
        PreppedGridData { data, data_indexes }
    }
}

impl<T: FormatData> PrepData<T> for Vec<T> {
    type Prep = PreppedRowData;

    /// Every value is rendered to the text of its tagged form, and no query
    /// has been composed yet.
    open spec fn prep_matches(self, r: PreppedRowData) -> bool {
        &&& r.data@.len() == self@.len()
        &&& forall|i: int|
            0 <= i < self@.len() ==> renders_tagged(self@[i], (#[trigger] r.data@[i])@)
        &&& r.query is None
        &&& r.header is None
        &&& r.filters is None
    }

    open spec fn prep_wf(self) -> bool {
        true
    }

    fn prep_data(self) -> (r: PreppedRowData) {
        let ghost orig = self@;
        let mut rest = self;
        let mut data: Vec<String> = Vec::new();
        let ghost mut cells: Seq<FormattedData> = Seq::empty();
        while rest.len() > 0
            invariant
                data@.len() + rest@.len() == orig.len(),
                rest@ == orig.skip(data@.len() as int),
                cells.len() == data@.len(),
                forall|i: int|
                    0 <= i < data@.len() ==> orig[i].fmt_matches(#[trigger] cells[i]) && data@[i]@
                        == cells[i].text_spec(),
            decreases rest@.len(),
        {
            let ghost i = data@.len() as int;
            let val = rest.remove(0);
            proof {
                assert(val == orig[i]);
                assert(rest@ =~= orig.skip(i + 1));
            }
            let cell = val.fmt_data();
            let text = cell.to_string();
            data.push(text);
            proof {
                cells = cells.push(cell);
            }
        }
        let r = PreppedRowData { data, query: None, header: None, filters: None };
        proof {
            assert forall|i: int| 0 <= i < orig.len() implies renders_tagged(
                orig[i],
                (#[trigger] r.data@[i])@,
            ) by {
                let c = cells[i];
                assert(orig[i].fmt_matches(c) && r.data@[i]@ == c.text_spec());
            }
        }
        r
    }
}

} // verus!
