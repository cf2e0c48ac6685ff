//! Turning a header row into the parameterized insert statement, and
//! rendering a row's cells to text.

use crate::format_data::FormattedData;
use crate::utils::{
    append_str_chars, chars_to_string, dec_digits, join_with, push_dec_digits,
    remove_invalid_chars, sanitize_spec,
};
use vstd::prelude::*;

verus! {

/// One 1-based positional placeholder `:i`.
pub open spec fn placeholder(i: int) -> Seq<char> {
    seq![':'] + dec_digits(i)
}

/// The placeholder list `:1,:2,...,:n`.
pub open spec fn placeholders(n: int) -> Seq<char>
    decreases n,
{
    if n <= 0 {
        Seq::empty()
    } else if n == 1 {
        placeholder(1)
    } else {
        placeholders(n - 1) + seq![','] + placeholder(n)
    }
}

/// The parameterized insert statement built from a header row's cell texts:
/// `INSERT INTO <table> (<col1>,<col2>,...) VALUES (:1,:2,...)`, with every
/// column name sanitized.
pub open spec fn insert_stmt_spec(texts: Seq<Seq<char>>, table: Seq<char>) -> Seq<char> {
    "INSERT INTO "@ + table + " ("@ + join_with(
        texts.map_values(|t: Seq<char>| sanitize_spec(t)),
        seq![','],
    ) + ") VALUES ("@ + placeholders(texts.len() as int) + ")"@
}

/// Operations on one row of tagged cells.
pub trait MutateRow: Sized {
    /// The canonical text renderings of this row's cells.
    spec fn texts(&self) -> Seq<Seq<char>>;

    /// Builds the row's parameterized insert statement: the sanitized cell
    /// texts become the column list, and each column gets a 1-based
    /// positional placeholder.
    fn insert_stmt(self, table_name: &str) -> (r: String)
        ensures
            r@ == insert_stmt_spec(self.texts(), table_name@),
    ;

    /// Renders every cell of the row to its canonical text.
    fn to_string(&self) -> (r: Vec<String>)
        ensures
            r@.len() == self.texts().len(),
            forall|i: int| 0 <= i < r@.len() ==> r@[i]@ == self.texts()[i],
    ;
}

impl MutateRow for Vec<FormattedData> {
    open spec fn texts(&self) -> Seq<Seq<char>> {
        self@.map_values(|c: FormattedData| c.text_spec())
    }

    fn insert_stmt(self, table_name: &str) -> (r: String) {
        let ghost sanmap = self@.map_values(|c: FormattedData| c.text_spec()).map_values(
            |t: Seq<char>| sanitize_spec(t),
        );
        let mut out: Vec<char> = Vec::new();
        append_str_chars(&mut out, "INSERT INTO ");
        append_str_chars(&mut out, table_name);
        append_str_chars(&mut out, " (");
        let ghost pre = out@;
        let mut i: usize = 0;
        while i < self.len()
            invariant
                i <= self@.len(),
                sanmap.len() == self@.len(),
                forall|k: int|
                    0 <= k < self@.len() ==> sanmap[k] == sanitize_spec(
                        #[trigger] self@[k].text_spec(),
                    ),
                out@ == pre + join_with(sanmap.take(i as int), seq![',']),
            decreases self@.len() - i,
        {
            if i > 0 {
                out.push(',');
            }
            let t = self[i].to_string();
            let st = remove_invalid_chars(&t);
            append_str_chars(&mut out, st.as_str());
            proof {
                assert(sanmap.take(i + 1 as int).drop_last() =~= sanmap.take(i as int));
                assert(sanmap.take(i + 1 as int).last() == sanmap[i as int]);
                assert(out@ =~= pre + join_with(sanmap.take(i + 1 as int), seq![',']));
            }
            i = i + 1;
        }
        proof {
            assert(sanmap.take(self@.len() as int) =~= sanmap);
        }
        append_str_chars(&mut out, ") VALUES (");
        let ghost pre2 = out@;
        let mut j: usize = 0;
        while j < self.len()
            invariant
                j <= self@.len(),
                out@ == pre2 + placeholders(j as int),
            decreases self@.len() - j,
        {
            if j > 0 {
                out.push(',');
            }
            out.push(':');
            push_dec_digits(&mut out, (j as u64) + 1);
            proof {
                assert(out@ =~= pre2 + placeholders(j + 1 as int));
            }
            j = j + 1;
        }
        append_str_chars(&mut out, ")");
        proof {
            assert(out@ =~= insert_stmt_spec(self.texts(), table_name@));
        }
        chars_to_string(out)
    }

    fn to_string(&self) -> (r: Vec<String>) {
        let mut out: Vec<String> = Vec::new();
        let mut i: usize = 0;
        while i < self.len()
            invariant
                i <= self@.len(),
                out@.len() == i,
                forall|k: int| 0 <= k < i ==> out@[k]@ == #[trigger] self@[k].text_spec(),
            decreases self@.len() - i,
        {
            out.push(self[i].to_string());
            i = i + 1;
        }
        out
    }
}

} // verus!
