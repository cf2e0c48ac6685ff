//! Synthesizing the CREATE TABLE statement for a new destination table.

use crate::format_data::FormattedData;
use crate::types::errors::OracleSqlToolsError;
use crate::types::{body_rectangular, DatatypeIndexes};
use crate::utils::{
    append_str_chars, chars_to_string, dec_digits, join_with, push_dec_digits,
    remove_invalid_chars, sanitize_spec,
};
use vstd::prelude::*;

verus! {

/// The SQL type emitted for column `x`: a bounded text type sized to the
/// column's widest rendered value, or the generic numeric, floating and date
/// types. A column in none of the four sets gets no type text.
pub open spec fn col_type_text(ind: DatatypeIndexes, x: int, w: int) -> Seq<char> {
    if ind.is_varchar@.contains(x as usize) {
        "VARCHAR2("@ + dec_digits(w) + ")"@
    } else if ind.is_int@.contains(x as usize) {
        "NUMBER"@
    } else if ind.is_float@.contains(x as usize) {
        "FLOAT"@
    } else if ind.is_date@.contains(x as usize) {
        "DATE"@
    } else {
        Seq::empty()
    }
}

/// The widest rendered text in column `x` across the body rows (the rows
/// after the header); empty cells count as zero width.
pub open spec fn max_col_width(grid: Seq<Vec<FormattedData>>, x: int) -> int
    decreases grid.len(),
{
    if grid.len() <= 1 {
        0
    } else {
        let rest = max_col_width(grid.drop_last(), x);
        let wl = grid.last()@[x].text_spec().len() as int;
        if wl > rest {
            wl
        } else {
            rest
        }
    }
}

/// One column definition: the sanitized header text, a space, and the type.
pub open spec fn col_def_text(grid: Seq<Vec<FormattedData>>, ind: DatatypeIndexes, x: int) -> Seq<
    char,
> {
    sanitize_spec(grid[0]@[x].text_spec()) + " "@ + col_type_text(ind, x, max_col_width(grid, x))
}

/// The full DDL: `CREATE TABLE <table> (<col> <type>, ...)`.
pub open spec fn create_stmt_spec(
    grid: Seq<Vec<FormattedData>>,
    ind: DatatypeIndexes,
    table: Seq<char>,
) -> Seq<char> {
    "CREATE TABLE "@ + table + " ("@ + join_with(
        Seq::new(grid[0]@.len(), |x: int| col_def_text(grid, ind, x)),
        ", "@,
    ) + ")"@
}

/// Scans the body rows and returns the widest rendered text in column `x`.
fn varchar_width(grid: &Vec<Vec<FormattedData>>, x: usize) -> (w: usize)
    requires
        body_rectangular(grid@),
        grid@.len() > 1,
        x < grid@[0]@.len(),
    ensures
        w == max_col_width(grid@, x as int),
{
    let mut w: usize = 0;
    let mut y: usize = 1;
    while y < grid.len()
        invariant
            1 <= y <= grid@.len(),
            grid@.len() > 1,
            body_rectangular(grid@),
            x < grid@[0]@.len(),
            w == max_col_width(grid@.take(y as int), x as int),
        decreases grid@.len() - y,
    {
        proof {
            assert(grid@.take(y + 1 as int).drop_last() =~= grid@.take(y as int));
            assert(grid@.take(y + 1 as int).last() == grid@[y as int]);
        }
        let t = grid[y][x].to_string();
        let l = t.as_str().unicode_len();
        if l > w {
            w = l;
        }
        y = y + 1;
    }
    proof {
        assert(grid@.take(grid@.len() as int) =~= grid@);
    }
    w
}

/// Appends the SQL type text of column `x`.
fn append_col_type(out: &mut Vec<char>, ind: &DatatypeIndexes, x: usize, w: usize)
    ensures
        final(out)@ == old(out)@ + col_type_text(*ind, x as int, w as int),
{
    let ghost out0 = out@;
    if crate::utils::contains_usize(&ind.is_varchar, x) {
        append_str_chars(out, "VARCHAR2(");
        push_dec_digits(out, w as u64);
        append_str_chars(out, ")");
        proof {
            assert(out@ =~= out0 + col_type_text(*ind, x as int, w as int));
        }
    } else if crate::utils::contains_usize(&ind.is_int, x) {
        append_str_chars(out, "NUMBER");
    } else if crate::utils::contains_usize(&ind.is_float, x) {
        append_str_chars(out, "FLOAT");
    } else if crate::utils::contains_usize(&ind.is_date, x) {
        append_str_chars(out, "DATE");
    } else {
        proof {
            assert(out@ =~= out0 + col_type_text(*ind, x as int, w as int));
        }
    }
}

/// Synthesis of a destination table from a classified grid.
pub trait Create: Sized {
    /// The grid's rows, header first.
    spec fn grid_cells(&self) -> Seq<Vec<FormattedData>>;

    /// Builds the CREATE TABLE statement for this grid: one definition per
    /// column, named by the sanitized header text and typed by the
    /// classification, with text columns sized to their widest rendered
    /// value. Fails with `NoData` exactly when the grid holds at most a
    /// header, since no column type can be established then.
    fn create_table(&self, table_name: &str, data_type_indexes: &DatatypeIndexes) -> (r: Result<
        String,
        OracleSqlToolsError,
    >)
        requires
            body_rectangular(self.grid_cells()),
        ensures
            match r {
                Ok(ddl) => self.grid_cells().len() > 1 && ddl@ == create_stmt_spec(
                    self.grid_cells(),
                    *data_type_indexes,
                    table_name@,
                ),
                Err(e) => self.grid_cells().len() <= 1 && e == OracleSqlToolsError::NoData,
            },
    ;
}

impl Create for Vec<Vec<FormattedData>> {
    open spec fn grid_cells(&self) -> Seq<Vec<FormattedData>> {
        self@
    }

    fn create_table(&self, table_name: &str, data_type_indexes: &DatatypeIndexes) -> (r: Result<
        String,
        OracleSqlToolsError,
    >) {
        if self.len() <= 1 {
            return Err(OracleSqlToolsError::NoData);
        }
        let width = self[0].len();
        let ghost defs = Seq::new(
            self@[0]@.len(),
            |x: int| col_def_text(self@, *data_type_indexes, x),
        );
        let mut out: Vec<char> = Vec::new();
        append_str_chars(&mut out, "CREATE TABLE ");
        append_str_chars(&mut out, table_name);
        append_str_chars(&mut out, " (");
        let ghost pre = out@;
        let mut x: usize = 0;
        while x < width
            invariant
                x <= width,
                width == self@[0]@.len(),
                self@.len() > 1,
                body_rectangular(self@),
                defs == Seq::new(self@[0]@.len(), |x: int| col_def_text(self@, *data_type_indexes, x)),
                out@ == pre + join_with(defs.take(x as int), ", "@),
            decreases width - x,
        {
            if x > 0 {
                append_str_chars(&mut out, ", ");
            }
            let name_text = self[0][x].to_string();
            let name = remove_invalid_chars(&name_text);
            append_str_chars(&mut out, name.as_str());
            append_str_chars(&mut out, " ");
            let w = varchar_width(self, x);
            append_col_type(&mut out, data_type_indexes, x, w);
            proof {
                assert(defs.take(x + 1 as int).drop_last() =~= defs.take(x as int));
                assert(defs.take(x + 1 as int).last() == defs[x as int]);
                assert(out@ =~= pre + join_with(defs.take(x + 1 as int), ", "@));
            }
            x = x + 1;
        }
        proof {
            assert(defs.take(width as int) =~= defs);
        }
        append_str_chars(&mut out, ")");
        proof {
            assert(out@ =~= create_stmt_spec(self@, *data_type_indexes, table_name@));
        }
        Ok(chars_to_string(out))
    }
}

} // verus!
