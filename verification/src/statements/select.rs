//! Composing a row selection: the column list, optional filter clauses, and
//! the final query text.

use crate::types::errors::OracleSqlToolsError;
use crate::types::FilterType;
use crate::utils::{append_str_chars, chars_to_string, join_with};
use super::select::utils::get_header_and_query;
use super::select::utils::select_query_spec;
use super::PreppedRowData;
use vstd::prelude::*;

pub mod utils;

verus! {

/// The joining keyword of a filter clause.
pub open spec fn filter_type_text(ft: FilterType) -> Seq<char> {
    match ft {
        FilterType::Where => "WHERE"@,
        FilterType::And => "AND"@,
        FilterType::Or => "OR"@,
    }
}

/// One filter clause: `<keyword> <column> = '<value>'`.
pub open spec fn filter_text(ft: FilterType, column: Seq<char>, value: Seq<char>) -> Seq<char> {
    filter_type_text(ft) + " "@ + column + " = '"@ + value + "'"@
}

/// The final query: the base query followed by the filter clauses, joined
/// with single spaces.
pub open spec fn final_query_spec(query: Seq<char>, filters: Option<Vec<String>>) -> Seq<char> {
    match filters {
        Some(f) => query + " "@ + join_with(f@.map_values(|s: String| s@), " "@),
        None => query,
    }
}

impl PreppedRowData {
    /// Sanitizes the supplied column names and composes the base query for
    /// the given table, keeping both for a later execution.
    pub fn select(self, table_name: &str) -> (r: PreppedRowData)
        ensures
            r.data@ == self.data@,
            r.filters == self.filters,
            r.header is Some,
            r.header->Some_0@.len() == self.data@.len(),
            forall|i: int|
                0 <= i < self.data@.len() ==> r.header->Some_0@[i]@ == crate::utils::sanitize_spec(
                    #[trigger] self.data@[i]@,
                ),
            r.query is Some,
            r.query->Some_0@ == select_query_spec(
                self.data@.map_values(|s: String| s@),
                table_name@,
            ),
    {
        let (header, query) = get_header_and_query(&self, table_name);
        PreppedRowData {
            data: self.data,
            query: Some(query),
            header: Some(header),
            filters: self.filters,
        }
    }

    /// Appends one filter clause; the first clause a caller adds should use
    /// `Where`, later ones `And` or `Or`.
    pub fn filter(self, filter_type: FilterType, column: &str, value: &str) -> (r: PreppedRowData)
        ensures
            r.data@ == self.data@,
            r.query == self.query,
            r.header == self.header,
            r.filters is Some,
            r.filters->Some_0@.len() == match self.filters {
                Some(f) => f@.len() + 1,
                None => 1,
            },
            (match self.filters {
                Some(f) => forall|i: int| 0 <= i < f@.len() ==> r.filters->Some_0@[i] == f@[i],
                None => true,
            }),
            r.filters->Some_0@.last()@ == filter_text(filter_type, column@, value@),
    {
        let mut out: Vec<char> = Vec::new();
        match filter_type {
            FilterType::Where => append_str_chars(&mut out, "WHERE"),
            FilterType::And => append_str_chars(&mut out, "AND"),
            FilterType::Or => append_str_chars(&mut out, "OR"),
        }
        append_str_chars(&mut out, " ");
        append_str_chars(&mut out, column);
        append_str_chars(&mut out, " = '");
        append_str_chars(&mut out, value);
        append_str_chars(&mut out, "'");
        proof {
            assert(out@ =~= filter_text(filter_type, column@, value@));
        }
        let stmt = chars_to_string(out);
        let filters = match self.filters {
            Some(mut val) => {
                val.push(stmt);
                val
            },
            None => {
                let mut val: Vec<String> = Vec::new();
                val.push(stmt);
                val
            },
        };
        PreppedRowData {
            data: self.data,
            query: self.query,
            header: self.header,
            filters: Some(filters),
        }
    }

    /// Composes the final query from the base query and the filter clauses.
    /// Fails with `SQLQueryEmpty` exactly when `select` has not yet composed
    /// a query, and otherwise hands back the sanitized header and the text
    /// for the driver layer to run.
    pub fn build_query(self) -> (r: Result<(Vec<String>, String), OracleSqlToolsError>)
        ensures
            match r {
                Ok((header, sql)) => self.header is Some && self.query is Some && header
                    == self.header->Some_0 && sql@ == final_query_spec(self.query->Some_0@, self.filters),
                Err(e) => (self.header is None || self.query is None) && e
                    == OracleSqlToolsError::SQLQueryEmpty,
            },
    {
        let header = match self.header {
            Some(val) => val,
            None => {
                return Err(OracleSqlToolsError::SQLQueryEmpty);
            },
        };
        let query = match self.query {
            Some(val) => val,
            None => {
                return Err(OracleSqlToolsError::SQLQueryEmpty);
            },
        };
        match self.filters {
            Some(filters) => {
                let ghost fmap = filters@.map_values(|s: String| s@);
                let mut out: Vec<char> = Vec::new();
                append_str_chars(&mut out, query.as_str());
                append_str_chars(&mut out, " ");
                let ghost pre = out@;
                let mut i: usize = 0;
                while i < filters.len()
                    invariant
                        i <= filters@.len(),
                        fmap.len() == filters@.len(),
                        forall|k: int| 0 <= k < filters@.len() ==> fmap[k] == #[trigger] filters@[k]@,
                        out@ == pre + join_with(fmap.take(i as int), " "@),
                    decreases filters@.len() - i,
                {
                    if i > 0 {
                        append_str_chars(&mut out, " ");
                    }
                    append_str_chars(&mut out, filters[i].as_str());
                    proof {
                        assert(fmap.take(i + 1 as int).drop_last() =~= fmap.take(i as int));
                        assert(fmap.take(i + 1 as int).last() == fmap[i as int]);
                        assert(out@ =~= pre + join_with(fmap.take(i + 1 as int), " "@));
                    }
                    i = i + 1;
                }
                proof {
                    assert(fmap.take(filters@.len() as int) =~= fmap);
                }
                Ok((header, chars_to_string(out)))
            },
            None => Ok((header, query)),
        }
    }
}

} // verus!
