//! Partitioning a prepared batch across workers, and deciding the concrete
//! value each cell binds into its batch slot.

use crate::format_data::FormattedData;
use crate::statements::mutate_grid::MutateGrid;
use crate::types::{
    same_indexes, BatchPrep, BindValue, CellProperties, DatatypeIndexes, GridProperties,
};
use crate::utils::{chars_to_string, contains_usize, int_text, push_i64_text};
use vstd::prelude::*;

verus! {

/// Relies on `num_cpus::get`: the detected host parallelism, documented to
/// always be at least one.
#[verifier::external_body]
fn host_parallelism() -> (r: usize)
    ensures
        1 <= r,
{
    num_cpus::get()
}

/// Rows per worker: the body length divided by the worker count, rounded up.
pub open spec fn chunk_size(len: int, p: int) -> int {
    len / p + if len % p == 0 {
        0int
    } else {
        1int
    }
}

/// The first row of slice `i` when rows are handed out `chunk` at a time;
/// slices past the end of the body start (and end) at the body's length.
pub open spec fn slice_lo(len: int, chunk: int, i: int) -> int {
    if i * chunk < len {
        i * chunk
    } else {
        len
    }
}

/// One past the last row of slice `i`.
pub open spec fn slice_hi(len: int, chunk: int, i: int) -> int {
    slice_lo(len, chunk, i + 1)
}

/// `r` partitions `body` into `p` contiguous slices of `chunk_size` rows
/// each — the last takes whatever remains — and each slice carries its
/// starting row offset and the shared classification.
pub open spec fn partitioned(
    body: Seq<Vec<FormattedData>>,
    ind: DatatypeIndexes,
    p: int,
    r: Seq<GridProperties>,
) -> bool {
    let len = body.len() as int;
    let chunk = chunk_size(len, p);
    &&& r.len() == p
    &&& forall|i: int|
        0 <= i < p ==> (#[trigger] r[i]).data@ == body.subrange(
            slice_lo(len, chunk, i),
            slice_hi(len, chunk, i),
        )
    &&& forall|i: int| 0 <= i < p ==> (#[trigger] r[i]).num == slice_lo(len, chunk, i)
    &&& forall|i: int| 0 <= i < p ==> same_indexes((#[trigger] r[i]).datatype_indexes, ind)
}

/// The row slices of a partition, in emission order.
pub open spec fn partition_rows(r: Seq<GridProperties>) -> Seq<Seq<Vec<FormattedData>>> {
    r.map_values(|g: GridProperties| g.data@)
}

impl BatchPrep {
    /// Splits the body into `nthreads` contiguous, order-preserving slices:
    /// the first `nthreads - 1` each take `chunk_size` rows (or what is
    /// left), and the last takes the remainder. Every slice records the
    /// index of its first row within the body.
    pub fn split_batch(self, nthreads: usize) -> (r: Vec<GridProperties>)
        requires
            1 <= nthreads,
        ensures
            partitioned(self.data@, self.data_indexes, nthreads as int, r@),
    {
        let ghost body0 = self.data@;
        let BatchPrep { data: mut data, insert_stmt: _, data_indexes } = self;
        let len = data.len();
        let ghost leni = len as int;
        let ghost p = nthreads as int;
        let rem: usize = len % nthreads;
        let q: usize = len / nthreads;
        proof {
            if rem != 0 {
                assert(len != 0) by {
                    assert(0int % (nthreads as int) == 0);
                }
                assert(nthreads >= 2);
                assert((len as int) / (nthreads as int) < len as int) by (nonlinear_arith)
                    requires
                        nthreads >= 2,
                        len >= 1,
                        (len as int) % (nthreads as int) != 0,
                ;
            }
        }
        let chunk: usize = if rem == 0 {
            q
        } else {
            q + 1
        };
        let ghost chunki = chunk as int;
        let mut out: Vec<GridProperties> = Vec::new();
        let mut off: usize = 0;
        let mut n: usize = 0;
        while n < nthreads
            invariant
                n <= nthreads,
                1 <= nthreads,
                leni == body0.len(),
                chunki == chunk_size(leni, p),
                p == nthreads,
                chunk == chunki,
                len == leni,
                off == slice_lo(leni, chunki, n as int),
                off <= len,
                data@ == body0.skip(off as int),
                out@.len() == n,
                forall|i: int|
                    0 <= i < n ==> (#[trigger] out@[i]).data@ == body0.subrange(
                        slice_lo(leni, chunki, i),
                        slice_hi(leni, chunki, i),
                    ),
                forall|i: int| 0 <= i < n ==> (#[trigger] out@[i]).num == slice_lo(leni, chunki, i),
                forall|i: int|
                    0 <= i < n ==> same_indexes((#[trigger] out@[i]).datatype_indexes, data_indexes),
            decreases nthreads - n,
        {
            let take: usize = if n + 1 < nthreads {
                if chunk < data.len() {
                    chunk
                } else {
                    data.len()
                }
            } else {
                data.len()
            };
            proof {
                assert((n as int + 1) * chunki == n as int * chunki + chunki) by (nonlinear_arith);
                if n as int + 1 == p {
                    assert(p * chunki >= leni) by (nonlinear_arith)
                        requires
                            p >= 1,
                            leni >= 0,
                            chunki == chunk_size(leni, p),
                    ;
                }
                assert(off + take == slice_hi(leni, chunki, n as int));
            }
            let d = data.divide(take);
            proof {
                assert(d@ =~= body0.subrange(off as int, off as int + take as int));
                assert(data@ =~= body0.skip(off as int + take as int));
            }
            out.push(
                GridProperties { data: d, num: off, datatype_indexes: data_indexes.clone() },
            );
            off = off + take;
            n = n + 1;
        }
        out
    }

    /// Splits the body by the detected host parallelism: one slice per
    /// available worker.
    pub fn split_batch_by_threads(self) -> (r: Vec<GridProperties>)
        ensures
            r@.len() >= 1,
            exists|p: int|
                1 <= p && #[trigger] partitioned(self.data@, self.data_indexes, p, r@),
    {
        let ghost body0 = self.data@;
        let ghost ind0 = self.data_indexes;
        let nthreads = host_parallelism();
        let r = self.split_batch(nthreads);
        proof {
            assert(partitioned(body0, ind0, nthreads as int, r@));
        }
        r
    }

    /// The single-threaded mode: one partition holding the whole body, for
    /// loads that need one connection-local execution context.
    pub fn single_thread_batch(self) -> (r: GridProperties)
        ensures
            r.data@ == self.data@,
            r.num == 0,
            same_indexes(r.datatype_indexes, self.data_indexes),
    {
        GridProperties { data: self.data, num: 0, datatype_indexes: self.data_indexes }
    }
}

/// Concatenating a partition's slices in emission order rebuilds the body
/// exactly: partitioning is order-preserving and total.
pub proof fn lemma_partition_concat(
    body: Seq<Vec<FormattedData>>,
    ind: DatatypeIndexes,
    p: int,
    r: Seq<GridProperties>,
)
    requires
        1 <= p,
        partitioned(body, ind, p, r),
    ensures
        partition_rows(r).flatten() == body,
{
    lemma_partition_concat_prefix(body, ind, p, r, p);
    let len = body.len() as int;
    let chunk = chunk_size(len, p);
    assert(p * chunk >= len) by (nonlinear_arith)
        requires
            p >= 1,
            len >= 0,
            chunk == chunk_size(len, p),
    ;
    assert(partition_rows(r.take(p)) =~= partition_rows(r));
    assert(body.take(len) =~= body);
}

/// The first `k` slices rebuild the first `slice_lo(len, chunk, k)` rows.
proof fn lemma_partition_concat_prefix(
    body: Seq<Vec<FormattedData>>,
    ind: DatatypeIndexes,
    p: int,
    r: Seq<GridProperties>,
    k: int,
)
    requires
        1 <= p,
        partitioned(body, ind, p, r),
        0 <= k <= p,
    ensures
        partition_rows(r.take(k)).flatten() == body.take(
            slice_lo(body.len() as int, chunk_size(body.len() as int, p), k),
        ),
    decreases k,
{
    let len = body.len() as int;
    let chunk = chunk_size(len, p);
    assert(chunk >= 0);
    if k == 0 {
        assert(partition_rows(r.take(0)) =~= Seq::<Seq<Vec<FormattedData>>>::empty());
        assert(partition_rows(r.take(0)).flatten() =~= body.take(0));
    } else {
        lemma_partition_concat_prefix(body, ind, p, r, k - 1);
        assert((k - 1) * chunk == k * chunk - chunk) by (nonlinear_arith);
        let lo = slice_lo(len, chunk, k - 1);
        let hi = slice_hi(len, chunk, k - 1);
        assert(lo <= hi <= len);
        assert(partition_rows(r.take(k)) =~= partition_rows(r.take(k - 1)).push(r[k - 1].data@));
        partition_rows(r.take(k - 1)).lemma_flatten_push(r[k - 1].data@);
        assert(r[k - 1].data@ == body.subrange(lo, hi));
        assert(body.take(lo) + body.subrange(lo, hi) =~= body.take(hi));
    }
}

/// The binder's decision table: which concrete value a cell binds, given the
/// column's classification.
///
/// In priority order: a string binds as text verbatim; a numeric cell binds
/// as text in a VARCHAR column and natively otherwise; a date cell binds as
/// text in a VARCHAR column, natively in a DATE column, and in a numeric
/// column falls back to its rendering with the non-digits stripped, read as
/// a number (see [`crate::datetime::lemma_date_digits`]); an empty cell
/// binds a SQL NULL typed by the column's classification.
pub open spec fn bind_matches(
    cell: FormattedData,
    ind: DatatypeIndexes,
    x: usize,
    bv: BindValue,
) -> bool {
    match cell {
        FormattedData::STRING(s) => bv is Text && bv->Text_0@ == s@,
        FormattedData::INT(v) => if ind.is_varchar@.contains(x) {
            bv is Text && bv->Text_0@ == int_text(v as int)
        } else {
            bv == BindValue::Int(v)
        },
        FormattedData::FLOAT(t) => if ind.is_varchar@.contains(x) {
            bv is Text && bv->Text_0@ == t@
        } else {
            bv is Float && bv->Float_0@ == t@
        },
        FormattedData::DATE(d) => if ind.is_varchar@.contains(x) {
            bv is Text && bv->Text_0@ == d.text_spec()
        } else if ind.is_date@.contains(x) {
            bv == BindValue::Date(d)
        } else if ind.is_int@.contains(x) {
            bv is Int && bv->Int_0 == d.numeric_spec()
        } else if ind.is_float@.contains(x) {
            bv is Float && bv->Float_0@ == d.digits_spec()
        } else {
            bv == BindValue::Date(d)
        },
        FormattedData::EMPTY => if ind.is_varchar@.contains(x) {
            bv is NullText
        } else if ind.is_date@.contains(x) {
            bv is NullDate
        } else if ind.is_int@.contains(x) {
            bv is NullInt
        } else if ind.is_float@.contains(x) {
            bv is NullFloat
        } else {
            bv is NullText
        },
    }
}

/// The canonical rendering of a bound value; every NULL renders empty.
pub open spec fn bind_text(bv: BindValue) -> Seq<char> {
    match bv {
        BindValue::Text(s) => s@,
        BindValue::Int(v) => int_text(v as int),
        BindValue::Float(t) => t@,
        BindValue::Date(d) => d.text_spec(),
        _ => Seq::empty(),
    }
}

impl<'a> CellProperties<'a> {
    /// Decides the concrete value this cell binds into its batch slot,
    /// following the decision table of [`bind_matches`].
    pub fn bind_cell_to_batch(&self) -> (r: BindValue)
        ensures
            bind_matches(*self.cell, *self.datatype_indexes, self.x_ind, r),
    {
        match self.cell {
            FormattedData::STRING(val) => BindValue::Text(val.clone()),
            FormattedData::INT(val) => {
                if contains_usize(&self.datatype_indexes.is_varchar, self.x_ind) {
                    let mut out: Vec<char> = Vec::new();
                    push_i64_text(&mut out, *val);
                    proof {
                        assert(out@ =~= int_text(*val as int));
                    }
                    BindValue::Text(chars_to_string(out))
                } else {
                    BindValue::Int(*val)
                }
            },
            FormattedData::FLOAT(val) => {
                if contains_usize(&self.datatype_indexes.is_varchar, self.x_ind) {
                    BindValue::Text(val.clone())
                } else {
                    BindValue::Float(val.clone())
                }
            },
            FormattedData::DATE(val) => {
                if contains_usize(&self.datatype_indexes.is_varchar, self.x_ind) {
                    let mut out: Vec<char> = Vec::new();
                    val.push_text(&mut out);
                    proof {
                        assert(out@ =~= val.text_spec());
                    }
                    BindValue::Text(chars_to_string(out))
                } else if contains_usize(&self.datatype_indexes.is_date, self.x_ind) {
                    BindValue::Date(*val)
                } else if contains_usize(&self.datatype_indexes.is_int, self.x_ind) {
                    BindValue::Int(val.numeric())
                } else if contains_usize(&self.datatype_indexes.is_float, self.x_ind) {
                    let mut out: Vec<char> = Vec::new();
                    val.push_digits(&mut out);
                    proof {
                        assert(out@ =~= val.digits_spec());
                    }
                    BindValue::Float(chars_to_string(out))
                } else {
                    BindValue::Date(*val)
                }
            },
            FormattedData::EMPTY => {
                if contains_usize(&self.datatype_indexes.is_varchar, self.x_ind) {
                    BindValue::NullText
                } else if contains_usize(&self.datatype_indexes.is_date, self.x_ind) {
                    BindValue::NullDate
                } else if contains_usize(&self.datatype_indexes.is_int, self.x_ind) {
                    BindValue::NullInt
                } else if contains_usize(&self.datatype_indexes.is_float, self.x_ind) {
                    BindValue::NullFloat
                } else {
                    BindValue::NullText
                }
            },
        }
    }
}

impl GridProperties {
    /// Decides the bound value of every cell of this partition, row by row
    /// and left to right; position `x` binds parameter `x + 1` of the
    /// prepared statement. The driver layer feeds each decided row to its
    /// own batch and reports a cell's coordinates — `num` plus the local row
    /// index — if a bind is refused.
    pub fn get_cell_props(&self) -> (r: Vec<Vec<BindValue>>)
        requires
            self.num + self.data@.len() <= usize::MAX,
        ensures
            r@.len() == self.data@.len(),
            forall|y: int| 0 <= y < r@.len() ==> (#[trigger] r@[y])@.len() == self.data@[y]@.len(),
            forall|y: int, x: int|
                0 <= y < r@.len() && 0 <= x < r@[y]@.len() ==> bind_matches(
                    self.data@[y]@[x],
                    self.datatype_indexes,
                    x as usize,
                    #[trigger] r@[y]@[x],
                ),
    {
        let mut rows: Vec<Vec<BindValue>> = Vec::new();
        let mut y: usize = 0;
        while y < self.data.len()
            invariant
                y <= self.data@.len(),
                self.num + self.data@.len() <= usize::MAX,
                rows@.len() == y,
                forall|k: int|
                    0 <= k < y ==> (#[trigger] rows@[k])@.len() == self.data@[k]@.len(),
                forall|k: int, x: int|
                    0 <= k < y && 0 <= x < rows@[k]@.len() ==> bind_matches(
                        self.data@[k]@[x],
                        self.datatype_indexes,
                        x as usize,
                        #[trigger] rows@[k]@[x],
                    ),
            decreases self.data@.len() - y,
        {
            let mut row: Vec<BindValue> = Vec::new();
            let mut x: usize = 0;
            while x < self.data[y].len()
                invariant
                    y < self.data@.len(),
                    self.num + self.data@.len() <= usize::MAX,
                    x <= self.data@[y as int]@.len(),
                    row@.len() == x,
                    forall|j: int|
                        0 <= j < x ==> bind_matches(
                            self.data@[y as int]@[j],
                            self.datatype_indexes,
                            j as usize,
                            #[trigger] row@[j],
                        ),
                decreases self.data@[y as int]@.len() - x,
            {
                let props = CellProperties {
                    cell: &self.data[y][x],
                    datatype_indexes: &self.datatype_indexes,
                    x_ind: x,
                    y_ind: self.num + y,
                };
                row.push(props.bind_cell_to_batch());
                x = x + 1;
            }
            rows.push(row);
            y = y + 1;
        }
        rows
    }
}

/// A cell tagged STRING, INT or FLOAT binds a value that renders exactly as
/// the cell itself does, whatever the column's classification: loading such
/// cells and rendering what was bound gives back their original text. Only
/// date-tagged cells can be reshaped, by the numeric coercion of
/// [`bind_matches`].
pub proof fn lemma_bind_preserves_rendering(
    cell: FormattedData,
    ind: DatatypeIndexes,
    x: usize,
    bv: BindValue,
)
    requires
        cell is STRING || cell is INT || cell is FLOAT,
        bind_matches(cell, ind, x, bv),
    ensures
        bind_text(bv) == cell.text_spec(),
{
}

} // verus!
