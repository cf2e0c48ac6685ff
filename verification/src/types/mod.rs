//! Shared data types of the loading pipeline: the per-column classification,
//! the prepared load job, the per-worker partition, and the binder's
//! decisions.

use crate::datetime::DateTime;
use crate::format_data::FormattedData;
use crate::utils::lemma_push_contains;
use vstd::prelude::*;

pub mod errors;

verus! {

/// Per-column classification: four sets of zero-based column indexes, made
/// pairwise disjoint by the priority order VARCHAR > FLOAT > INT > DATE.
#[derive(Debug)]
pub struct DatatypeIndexes {
    pub is_varchar: Vec<usize>,
    pub is_float: Vec<usize>,
    pub is_int: Vec<usize>,
    pub is_date: Vec<usize>,
}

/// The two classifications hold the same four index lists.
pub open spec fn same_indexes(a: DatatypeIndexes, b: DatatypeIndexes) -> bool {
    &&& a.is_varchar@ == b.is_varchar@
    &&& a.is_float@ == b.is_float@
    &&& a.is_int@ == b.is_int@
    &&& a.is_date@ == b.is_date@
}

impl Clone for DatatypeIndexes {
    /// An element-wise copy of all four index lists.
    fn clone(&self) -> (r: Self)
        ensures
            same_indexes(*self, r),
    {
        DatatypeIndexes {
            is_varchar: crate::utils::copy_usizes(&self.is_varchar),
            is_float: crate::utils::copy_usizes(&self.is_float),
            is_int: crate::utils::copy_usizes(&self.is_int),
            is_date: crate::utils::copy_usizes(&self.is_date),
        }
    }
}

/// Some row of the body holds a string-tagged cell in column `x`.
pub open spec fn col_has_string(body: Seq<Vec<FormattedData>>, x: int) -> bool {
    exists|y: int| 0 <= y < body.len() && body[y]@[x] is STRING
}

/// Some row of the body holds a float-tagged cell in column `x`.
pub open spec fn col_has_float(body: Seq<Vec<FormattedData>>, x: int) -> bool {
    exists|y: int| 0 <= y < body.len() && body[y]@[x] is FLOAT
}

/// Some row of the body holds an integer-tagged cell in column `x`.
pub open spec fn col_has_int(body: Seq<Vec<FormattedData>>, x: int) -> bool {
    exists|y: int| 0 <= y < body.len() && body[y]@[x] is INT
}

/// Some row of the body holds a date-tagged cell in column `x`.
pub open spec fn col_has_date(body: Seq<Vec<FormattedData>>, x: int) -> bool {
    exists|y: int| 0 <= y < body.len() && body[y]@[x] is DATE
}

/// Every body row is empty-tagged in column `x`.
pub open spec fn col_all_empty(body: Seq<Vec<FormattedData>>, x: int) -> bool {
    forall|y: int| 0 <= y < body.len() ==> body[y]@[x] is EMPTY
}

/// The column is classified VARCHAR: it holds a string somewhere, or every
/// sampled value is empty (the safest representable type for NULL-only
/// data).
pub open spec fn col_is_varchar(body: Seq<Vec<FormattedData>>, x: int) -> bool {
    col_has_string(body, x) || col_all_empty(body, x)
}

/// The column is classified FLOAT: floats are its strongest kind.
pub open spec fn col_is_float(body: Seq<Vec<FormattedData>>, x: int) -> bool {
    !col_has_string(body, x) && col_has_float(body, x)
}

/// The column is classified INT: integers are its strongest kind.
pub open spec fn col_is_int(body: Seq<Vec<FormattedData>>, x: int) -> bool {
    !col_has_string(body, x) && !col_has_float(body, x) && col_has_int(body, x)
}

/// The column is classified DATE: it holds dates and otherwise only empties.
pub open spec fn col_is_date(body: Seq<Vec<FormattedData>>, x: int) -> bool {
    !col_has_string(body, x) && !col_has_float(body, x) && !col_has_int(body, x) && col_has_date(
        body,
        x,
    )
}

/// The classification that the priority order VARCHAR > FLOAT > INT > DATE
/// assigns to the body's columns; every column lands in exactly one set, and
/// no set reaches outside the column range.
pub open spec fn classifies(ind: DatatypeIndexes, body: Seq<Vec<FormattedData>>, width: nat) -> bool {
    &&& forall|x: usize|
        x < width ==> (#[trigger] ind.is_varchar@.contains(x) <==> col_is_varchar(body, x as int))
    &&& forall|x: usize|
        x < width ==> (#[trigger] ind.is_float@.contains(x) <==> col_is_float(body, x as int))
    &&& forall|x: usize|
        x < width ==> (#[trigger] ind.is_int@.contains(x) <==> col_is_int(body, x as int))
    &&& forall|x: usize|
        x < width ==> (#[trigger] ind.is_date@.contains(x) <==> col_is_date(body, x as int))
    &&& forall|x: usize| #[trigger] ind.is_varchar@.contains(x) ==> x < width
    &&& forall|x: usize| #[trigger] ind.is_float@.contains(x) ==> x < width
    &&& forall|x: usize| #[trigger] ind.is_int@.contains(x) ==> x < width
    &&& forall|x: usize| #[trigger] ind.is_date@.contains(x) ==> x < width
}

/// The body of a grid: its rows after the header row, or nothing when the
/// grid is empty.
pub open spec fn body_of(grid: Seq<Vec<FormattedData>>) -> Seq<Vec<FormattedData>> {
    if grid.len() == 0 {
        grid
    } else {
        grid.drop_first()
    }
}

/// Every row has the same width as the first.
pub open spec fn body_rectangular(body: Seq<Vec<FormattedData>>) -> bool {
    forall|y: int| 0 <= y < body.len() ==> #[trigger] body[y]@.len() == body_width(body)
}

/// The number of columns of a body: the width of its first row.
pub open spec fn body_width(body: Seq<Vec<FormattedData>>) -> nat {
    if body.len() == 0 {
        0
    } else {
        body[0]@.len()
    }
}

/// Looking at one more row either finds the kind in that row's cell or not.
proof fn lemma_col_step(body: Seq<Vec<FormattedData>>, x: int, y: int)
    requires
        0 <= y < body.len(),
    ensures
        col_has_string(body.take(y + 1), x) == (col_has_string(body.take(y), x) || body[y]@[x]
            is STRING),
        col_has_float(body.take(y + 1), x) == (col_has_float(body.take(y), x) || body[y]@[x]
            is FLOAT),
        col_has_int(body.take(y + 1), x) == (col_has_int(body.take(y), x) || body[y]@[x] is INT),
        col_has_date(body.take(y + 1), x) == (col_has_date(body.take(y), x) || body[y]@[x] is DATE),
{
    let shorter = body.take(y);
    let longer = body.take(y + 1);
    assert(longer[y] == body[y]);
    assert(forall|i: int| 0 <= i < y ==> longer[i] == shorter[i] && shorter[i] == body[i]);
    if col_has_string(shorter, x) {
        let yy = choose|yy: int| 0 <= yy < shorter.len() && shorter[yy]@[x] is STRING;
        assert(longer[yy]@[x] is STRING);
    }
    if col_has_string(longer, x) {
        let yy = choose|yy: int| 0 <= yy < longer.len() && longer[yy]@[x] is STRING;
        if yy < y {
            assert(shorter[yy]@[x] is STRING);
        }
    }
    if col_has_float(shorter, x) {
        let yy = choose|yy: int| 0 <= yy < shorter.len() && shorter[yy]@[x] is FLOAT;
        assert(longer[yy]@[x] is FLOAT);
    }
    if col_has_float(longer, x) {
        let yy = choose|yy: int| 0 <= yy < longer.len() && longer[yy]@[x] is FLOAT;
        if yy < y {
            assert(shorter[yy]@[x] is FLOAT);
        }
    }
    if col_has_int(shorter, x) {
        let yy = choose|yy: int| 0 <= yy < shorter.len() && shorter[yy]@[x] is INT;
        assert(longer[yy]@[x] is INT);
    }
    if col_has_int(longer, x) {
        let yy = choose|yy: int| 0 <= yy < longer.len() && longer[yy]@[x] is INT;
        if yy < y {
            assert(shorter[yy]@[x] is INT);
        }
    }
    if col_has_date(shorter, x) {
        let yy = choose|yy: int| 0 <= yy < shorter.len() && shorter[yy]@[x] is DATE;
        assert(longer[yy]@[x] is DATE);
    }
    if col_has_date(longer, x) {
        let yy = choose|yy: int| 0 <= yy < longer.len() && longer[yy]@[x] is DATE;
        if yy < y {
            assert(shorter[yy]@[x] is DATE);
        }
    }
}

impl DatatypeIndexes {
    /// Scans the rows after the header column by column and classifies every
    /// column by the priority order VARCHAR > FLOAT > INT > DATE; a column
    /// whose sampled values are all empty defaults to VARCHAR. Empty cells
    /// never decide a classification but never block one either.
    pub fn get_col_datatype(grid: &Vec<Vec<FormattedData>>) -> (r: DatatypeIndexes)
        requires
            body_rectangular(body_of(grid@)),
        ensures
            classifies(r, body_of(grid@), body_width(body_of(grid@))),
    {
        let ghost body = body_of(grid@);
        let width: usize = if grid.len() <= 1 {
            0
        } else {
            grid[1].len()
        };
        proof {
            assert(width == body_width(body));
        }
        let mut is_varchar: Vec<usize> = Vec::new();
        let mut is_float: Vec<usize> = Vec::new();
        let mut is_int: Vec<usize> = Vec::new();
        let mut is_date: Vec<usize> = Vec::new();
        let mut x: usize = 0;
        while x < width
            invariant
                x <= width,
                body == body_of(grid@),
                width == body_width(body),
                body_rectangular(body),
                grid@.len() == 0 || grid@.len() == body.len() + 1,
                forall|u: usize|
                    #[trigger] is_varchar@.contains(u) <==> (u < x && col_is_varchar(
                        body,
                        u as int,
                    )),
                forall|u: usize|
                    #[trigger] is_float@.contains(u) <==> (u < x && col_is_float(body, u as int)),
                forall|u: usize|
                    #[trigger] is_int@.contains(u) <==> (u < x && col_is_int(body, u as int)),
                forall|u: usize|
                    #[trigger] is_date@.contains(u) <==> (u < x && col_is_date(body, u as int)),
            decreases width - x,
        {
            let mut has_string = false;
            let mut has_float = false;
            let mut has_int = false;
            let mut has_date = false;
            let mut y: usize = 1;
            while y < grid.len()
                invariant
                    x < width,
                    body == body_of(grid@),
                    width == body_width(body),
                    body_rectangular(body),
                    grid@.len() == 0 || grid@.len() == body.len() + 1,
                    1 <= y <= grid@.len(),
                    has_string == col_has_string(body.take(y - 1), x as int),
                    has_float == col_has_float(body.take(y - 1), x as int),
                    has_int == col_has_int(body.take(y - 1), x as int),
                    has_date == col_has_date(body.take(y - 1), x as int),
                decreases grid@.len() - y,
            {
                proof {
                    assert(grid@[y as int] == body[y - 1]);
                    lemma_col_step(body, x as int, y - 1);
                }
                match &grid[y][x] {
                    FormattedData::STRING(_) => {
                        has_string = true;
                    },
                    FormattedData::FLOAT(_) => {
                        has_float = true;
                    },
                    FormattedData::INT(_) => {
                        has_int = true;
                    },
                    FormattedData::DATE(_) => {
                        has_date = true;
                    },
                    FormattedData::EMPTY => {},
                }
                y = y + 1;
            }
            proof {
                assert(body.take(body.len() as int) =~= body);
                if !has_string && !has_float && !has_int && !has_date {
                    assert forall|yy: int| 0 <= yy < body.len() implies body[yy]@[x as int]
                        is EMPTY by {
                        assert(!(body[yy]@[x as int] is STRING));
                        assert(!(body[yy]@[x as int] is FLOAT));
                        assert(!(body[yy]@[x as int] is INT));
                        assert(!(body[yy]@[x as int] is DATE));
                    }
                }
                if col_all_empty(body, x as int) {
                    assert(!col_has_string(body, x as int));
                    assert(!col_has_float(body, x as int));
                    assert(!col_has_int(body, x as int));
                    assert(!col_has_date(body, x as int));
                }
            }
            if has_string || (!has_float && !has_int && !has_date) {
                proof {
                    lemma_push_contains_all(is_varchar@, x);
                }
                is_varchar.push(x);
            } else if has_float {
                proof {
                    lemma_push_contains_all(is_float@, x);
                }
                is_float.push(x);
            } else if has_int {
                proof {
                    lemma_push_contains_all(is_int@, x);
                }
                is_int.push(x);
            } else {
                proof {
                    lemma_push_contains_all(is_date@, x);
                }
                is_date.push(x);
            }
            x = x + 1;
        }
        DatatypeIndexes { is_varchar, is_float, is_int, is_date }
    }
}

/// Pushing extends membership by exactly the pushed element, stated for
/// every candidate at once.
proof fn lemma_push_contains_all(s: Seq<usize>, e: usize)
    ensures
        forall|v: usize| #[trigger] s.push(e).contains(v) <==> (s.contains(v) || v == e),
{
    assert forall|v: usize| #[trigger] s.push(e).contains(v) <==> (s.contains(v) || v == e) by {
        lemma_push_contains(s, e, v);
    }
}

/// Classification is total and exclusive: each column of a classified body
/// belongs to exactly one of the four sets, and the four sets cover the full
/// column range.
pub proof fn lemma_classification_partitions(
    ind: DatatypeIndexes,
    body: Seq<Vec<FormattedData>>,
    width: nat,
)
    requires
        classifies(ind, body, width),
    ensures
        forall|x: usize|
            x < width ==> (#[trigger] ind.is_varchar@.contains(x) || ind.is_float@.contains(x)
                || ind.is_int@.contains(x) || ind.is_date@.contains(x)),
        forall|x: usize|
            #[trigger] ind.is_varchar@.contains(x) ==> !ind.is_float@.contains(x)
                && !ind.is_int@.contains(x) && !ind.is_date@.contains(x),
        forall|x: usize|
            #[trigger] ind.is_float@.contains(x) ==> !ind.is_int@.contains(x)
                && !ind.is_date@.contains(x),
        forall|x: usize| #[trigger] ind.is_int@.contains(x) ==> !ind.is_date@.contains(x),
{
    assert forall|x: usize|
        x < width implies (#[trigger] ind.is_varchar@.contains(x) || ind.is_float@.contains(x)
        || ind.is_int@.contains(x) || ind.is_date@.contains(x)) by {
        if !col_has_string(body, x as int) && !col_has_float(body, x as int) && !col_has_int(
            body,
            x as int,
        ) && !col_has_date(body, x as int) {
            assert forall|y: int| 0 <= y < body.len() implies body[y]@[x as int] is EMPTY by {
                assert(!(body[y]@[x as int] is STRING));
                assert(!(body[y]@[x as int] is FLOAT));
                assert(!(body[y]@[x as int] is INT));
                assert(!(body[y]@[x as int] is DATE));
            }
        }
    }
}

/// A column that holds a string anywhere classifies VARCHAR, whatever its
/// other values are.
pub proof fn lemma_string_forces_varchar(
    ind: DatatypeIndexes,
    body: Seq<Vec<FormattedData>>,
    width: nat,
    x: usize,
    y: int,
)
    requires
        classifies(ind, body, width),
        x < width,
        0 <= y < body.len(),
        body[y]@[x as int] is STRING,
    ensures
        ind.is_varchar@.contains(x),
        !ind.is_float@.contains(x),
        !ind.is_int@.contains(x),
        !ind.is_date@.contains(x),
{
    assert(col_has_string(body, x as int));
}

/// The prepared load job: the body rows with the header already stripped,
/// the parameterized insert template, and the column classification.
#[derive(Debug)]
pub struct BatchPrep {
    pub data: Vec<Vec<FormattedData>>,
    pub insert_stmt: String,
    pub data_indexes: DatatypeIndexes,
}

/// One worker's partition: a contiguous slice of the body rows, the index of
/// its first row within the whole body, and the shared classification.
#[derive(Debug)]
pub struct GridProperties {
    pub data: Vec<Vec<FormattedData>>,
    pub num: usize,
    pub datatype_indexes: DatatypeIndexes,
}

/// One cell together with everything the binder needs to decide its bound
/// value: the classification and the cell's grid coordinates.
#[derive(Debug)]
pub struct CellProperties<'a> {
    pub cell: &'a FormattedData,
    pub datatype_indexes: &'a DatatypeIndexes,
    pub x_ind: usize,
    pub y_ind: usize,
}

/// The concrete value the binder decides to attach to one batch slot.
///
/// `Float` carries the decimal text of the numeric to bind, and the four
/// null variants say which SQL type the bound NULL takes.
#[derive(Debug, Clone, PartialEq)]
pub enum BindValue {
    Text(String),
    Int(i64),
    Float(String),
    Date(DateTime),
    NullText,
    NullInt,
    NullFloat,
    NullDate,
}

/// How a filter clause is joined to the ones before it.
#[derive(Debug, Clone, Copy, PartialEq, Eq, Structural)]
pub enum FilterType {
    Where,
    And,
    Or,
}

} // verus!
