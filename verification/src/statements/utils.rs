//! Catalog lookups and identifier sanitization for statement builders.

use crate::utils::sanitize_spec;
use vstd::prelude::*;

verus! {

/// An ASCII uppercase letter.
pub open spec fn is_ascii_upper(c: char) -> bool {
    65 <= (c as u32) <= 90
}

/// Two characters equal up to ASCII case.
pub open spec fn ascii_eq_char(a: char, b: char) -> bool {
    a == b || (is_ascii_upper(a) && (a as u32) + 32 == (b as u32)) || (is_ascii_upper(b) && (
    b as u32) + 32 == (a as u32))
}

/// Two texts equal up to ASCII case.
pub open spec fn ascii_ieq(a: Seq<char>, b: Seq<char>) -> bool {
    a.len() == b.len() && forall|i: int| 0 <= i < a.len() ==> ascii_eq_char(a[i], b[i])
}

/// Compares two texts, ignoring ASCII case.
fn str_ieq(a: &str, b: &str) -> (r: bool)
    ensures
        r == ascii_ieq(a@, b@),
{
    let n = a.unicode_len();
    if n != b.unicode_len() {
        return false;
    }
    let mut i: usize = 0;
    while i < n
        invariant
            i <= n,
            n == a@.len(),
            n == b@.len(),
            forall|k: int| 0 <= k < i ==> ascii_eq_char(a@[k], b@[k]),
        decreases n - i,
    {
        let ca = a.get_char(i);
        let cb = b.get_char(i);
        if ca != cb {
            let ua = ca as u32;
            let ub = cb as u32;
            let fa = if 65 <= ua && ua <= 90 {
                ua + 32
            } else {
                ua
            };
            let fb = if 65 <= ub && ub <= 90 {
                ub + 32
            } else {
                ub
            };
            if fa != fb {
                return false;
            }
        }
        i = i + 1;
    }
    true
}

/// Whether the destination table already exists: its name is found in the
/// catalog's table list, compared ignoring ASCII case.
pub fn table_in_catalog(names: &Vec<String>, table_name: &str) -> (r: bool)
    ensures
        r == exists|i: int| 0 <= i < names@.len() && ascii_ieq(#[trigger] names@[i]@, table_name@),
{
    let mut i: usize = 0;
    while i < names.len()
        invariant
            i <= names@.len(),
            forall|k: int| 0 <= k < i ==> !ascii_ieq(#[trigger] names@[k]@, table_name@),
        decreases names@.len() - i,
    {
        if str_ieq(names[i].as_str(), table_name) {
            return true;
        }
        i = i + 1;
    }
    false
}

/// Removes characters that are invalid in SQL column names; the same rule as
/// [`crate::utils::remove_invalid_chars`].
pub fn remove_invalid_chars(input: &String) -> (r: String)
    ensures
        r@ == sanitize_spec(input@),
{
    crate::utils::remove_invalid_chars(input)
}

} // verus!
