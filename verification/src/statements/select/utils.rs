//! The sanitized header and base query of a row selection.

use crate::statements::utils::remove_invalid_chars;
use crate::statements::PreppedRowData;
use crate::utils::{append_str_chars, chars_to_string, join_with, sanitize_spec};
use vstd::prelude::*;

verus! {

/// The base query `SELECT <col1>, <col2>, ... FROM <table>`, every column
/// name sanitized.
pub open spec fn select_query_spec(data: Seq<Seq<char>>, table: Seq<char>) -> Seq<char> {
    "SELECT "@ + join_with(data.map_values(|t: Seq<char>| sanitize_spec(t)), ", "@) + " FROM "@
        + table
}

/// Sanitizes the supplied column names into the query's header and composes
/// the base query over them.
pub fn get_header_and_query(input: &PreppedRowData, table_name: &str) -> (r: (Vec<String>, String))
    ensures
        r.0@.len() == input.data@.len(),
        forall|i: int|
            0 <= i < r.0@.len() ==> r.0@[i]@ == sanitize_spec(#[trigger] input.data@[i]@),
        r.1@ == select_query_spec(input.data@.map_values(|s: String| s@), table_name@),
{
    let ghost sanmap = input.data@.map_values(|s: String| s@).map_values(
        |t: Seq<char>| sanitize_spec(t),
    );
    let mut header: Vec<String> = Vec::new();
    let mut out: Vec<char> = Vec::new();
    append_str_chars(&mut out, "SELECT ");
    let ghost pre = out@;
    let mut i: usize = 0;
    while i < input.data.len()
        invariant
            i <= input.data@.len(),
            sanmap.len() == input.data@.len(),
            forall|k: int|
                0 <= k < input.data@.len() ==> sanmap[k] == sanitize_spec(
                    #[trigger] input.data@[k]@,
                ),
            header@.len() == i,
            forall|k: int| 0 <= k < i ==> header@[k]@ == sanitize_spec(#[trigger] input.data@[k]@),
            out@ == pre + join_with(sanmap.take(i as int), ", "@),
        decreases input.data@.len() - i,
    {
        if i > 0 {
            append_str_chars(&mut out, ", ");
        }
        let st = remove_invalid_chars(&input.data[i]);
        append_str_chars(&mut out, st.as_str());
        header.push(st);
        proof {
            assert(sanmap.take(i + 1 as int).drop_last() =~= sanmap.take(i as int));
            assert(sanmap.take(i + 1 as int).last() == sanmap[i as int]);
            assert(out@ =~= pre + join_with(sanmap.take(i + 1 as int), ", "@));
        }
        i = i + 1;
    }
    proof {
        assert(sanmap.take(input.data@.len() as int) =~= sanmap);
    }
    append_str_chars(&mut out, " FROM ");
    append_str_chars(&mut out, table_name);
    proof {
        assert(out@ =~= select_query_spec(input.data@.map_values(|s: String| s@), table_name@));
    }
    (header, chars_to_string(out))
}

} // verus!
