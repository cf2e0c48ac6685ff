//! Identifier sanitization, decimal rendering, and the deduplication of the
//! classification's index lists.

use crate::format_data::FormattedData;
use crate::types::DatatypeIndexes;
use itertools::Itertools;
use vstd::prelude::*;

verus! {

/// The subsequence of `s` keeping only the first occurrence of each value,
/// in order of first appearance.
pub open spec fn first_occurrences(s: Seq<usize>) -> Seq<usize>
    decreases s.len(),
{
    if s.len() == 0 {
        Seq::empty()
    } else if s.drop_last().contains(s.last()) {
        first_occurrences(s.drop_last())
    } else {
        first_occurrences(s.drop_last()).push(s.last())
    }
}

/// Pushing an element extends membership by exactly that element.
pub proof fn lemma_push_contains(s: Seq<usize>, e: usize, v: usize)
    ensures
        s.push(e).contains(v) <==> (s.contains(v) || v == e),
{
    if s.contains(v) {
        let i = choose|i: int| 0 <= i < s.len() && s[i] == v;
        assert(s.push(e)[i] == v);
    }
    if v == e {
        assert(s.push(e)[s.len() as int] == v);
    }
    if s.push(e).contains(v) {
        let i = choose|i: int| 0 <= i < s.push(e).len() && s.push(e)[i] == v;
        if i < s.len() {
            assert(s[i] == v);
        }
    }
}

/// Membership is unchanged by dropping repeated occurrences.
pub proof fn lemma_first_occurrences_contains(s: Seq<usize>, v: usize)
    ensures
        first_occurrences(s).contains(v) <==> s.contains(v),
    decreases s.len(),
{
    if s.len() > 0 {
        lemma_first_occurrences_contains(s.drop_last(), v);
        assert(s.contains(v) <==> (s.drop_last().contains(v) || s.last() == v)) by {
            if s.contains(v) {
                let i = choose|i: int| 0 <= i < s.len() && s[i] == v;
                if i < s.len() - 1 {
                    assert(s.drop_last()[i] == v);
                }
            }
            if s.drop_last().contains(v) {
                let i = choose|i: int| 0 <= i < s.drop_last().len() && s.drop_last()[i] == v;
                assert(s[i] == v);
            }
        }
        if !s.drop_last().contains(s.last()) {
            let fo = first_occurrences(s.drop_last());
            assert(fo.push(s.last()).contains(v) <==> (fo.contains(v) || s.last() == v)) by {
                if fo.contains(v) {
                    let i = choose|i: int| 0 <= i < fo.len() && fo[i] == v;
                    assert(fo.push(s.last())[i] == v);
                }
                if s.last() == v {
                    assert(fo.push(s.last())[fo.len() as int] == v);
                }
                if fo.push(s.last()).contains(v) {
                    let i = choose|i: int| 0 <= i < fo.push(s.last()).len() && fo.push(s.last())[i]
                        == v;
                    if i < fo.len() {
                        assert(fo[i] == v);
                    }
                }
            }
        }
    }
}

/// Relies on `itertools::Itertools::unique`: the iterator yields each
/// distinct element once, in order of first occurrence.
#[verifier::external_body]
pub(crate) fn unique_usizes(v: Vec<usize>) -> (r: Vec<usize>)
    ensures
        r@ == first_occurrences(v@),
{
    v.into_iter().unique().collect()
}

/// Unicode White_Space code points, the set `char::is_whitespace` recognizes.
pub open spec fn is_ws_char(c: char) -> bool {
    let u = c as u32;
    (0x9 <= u && u <= 0xD) || u == 0x20 || u == 0x85 || u == 0xA0 || u == 0x1680 || (0x2000 <= u
        && u <= 0x200A) || u == 0x2028 || u == 0x2029 || u == 0x202F || u == 0x205F || u == 0x3000
}

/// Runtime test for the same whitespace set.
pub fn is_ws(c: char) -> (r: bool)
    ensures
        r == is_ws_char(c),
{
    let u = c as u32;
    (0x9 <= u && u <= 0xD) || u == 0x20 || u == 0x85 || u == 0xA0 || u == 0x1680 || (0x2000 <= u
        && u <= 0x200A) || u == 0x2028 || u == 0x2029 || u == 0x202F || u == 0x205F || u == 0x3000
}

/// Characters stripped outright from generated SQL identifiers.
pub open spec fn is_stripped_char(c: char) -> bool {
    c == '\'' || c == '%' || c == '!' || c == '?' || c == '|' || c == '#' || c == '\\' || c == '/'
        || c == '(' || c == ')' || c == '+'
}

/// What one character contributes to a sanitized identifier: non-ASCII bytes
/// and SQL-unsafe punctuation vanish, space and hyphen become underscore.
pub open spec fn sanitize_char(c: char) -> Seq<char> {
    if (c as u32) >= 128 {
        Seq::empty()
    } else if c == ' ' || c == '-' {
        seq!['_']
    } else if is_stripped_char(c) {
        Seq::empty()
    } else {
        seq![c]
    }
}

/// Character-wise sanitization of a whole sequence.
pub open spec fn sanitize_chars(s: Seq<char>) -> Seq<char>
    decreases s.len(),
{
    if s.len() == 0 {
        Seq::empty()
    } else {
        sanitize_chars(s.drop_last()) + sanitize_char(s.last())
    }
}

/// Whitespace removed from the front, as `str::trim` does on that side.
pub open spec fn trim_front(s: Seq<char>) -> Seq<char>
    decreases s.len(),
{
    if s.len() > 0 && is_ws_char(s.first()) {
        trim_front(s.drop_first())
    } else {
        s
    }
}

/// Whitespace removed from the back.
pub open spec fn trim_back(s: Seq<char>) -> Seq<char>
    decreases s.len(),
{
    if s.len() > 0 && is_ws_char(s.last()) {
        trim_back(s.drop_last())
    } else {
        s
    }
}

/// `str::trim`: whitespace removed from both ends.
pub open spec fn trim_spec(s: Seq<char>) -> Seq<char> {
    trim_back(trim_front(s))
}

/// The full identifier sanitization rule: trim the ends, then map each
/// remaining character through `sanitize_char`.
pub open spec fn sanitize_spec(s: Seq<char>) -> Seq<char> {
    sanitize_chars(trim_spec(s))
}

/// Once the first `k` characters are whitespace and the next one is not,
/// trimming the front means skipping exactly `k` characters.
proof fn lemma_trim_front_skip(s: Seq<char>, k: int)
    requires
        0 <= k <= s.len(),
        forall|i: int| 0 <= i < k ==> is_ws_char(s[i]),
        k == s.len() || !is_ws_char(s[k]),
    ensures
        trim_front(s) == s.skip(k),
    decreases k,
{
    if k == 0 {
        assert(s.skip(0) =~= s);
    } else {
        assert(is_ws_char(s.first()));
        lemma_trim_front_skip(s.drop_first(), k - 1);
        assert(s.drop_first().skip(k - 1) =~= s.skip(k));
    }
}

/// Once every character from position `m` on is whitespace and the one before
/// is not, trimming the back means keeping exactly `m` characters.
proof fn lemma_trim_back_take(s: Seq<char>, m: int)
    requires
        0 <= m <= s.len(),
        forall|j: int| m <= j < s.len() ==> is_ws_char(s[j]),
        m == 0 || !is_ws_char(s[m - 1]),
    ensures
        trim_back(s) == s.take(m),
    decreases s.len() - m,
{
    if m == s.len() {
        assert(s.take(m) =~= s);
        if s.len() > 0 {
            assert(!is_ws_char(s.last()));
        }
    } else {
        assert(is_ws_char(s.last()));
        lemma_trim_back_take(s.drop_last(), m);
        assert(s.drop_last().take(m) =~= s.take(m));
    }
}

/// Removes characters that are invalid in SQL column names: the ends are
/// trimmed of whitespace, non-ASCII characters and SQL-unsafe punctuation are
/// dropped, and space and hyphen are replaced by underscore.
pub fn remove_invalid_chars(input: &String) -> (r: String)
    ensures
        r@ == sanitize_spec(input@),
{
    let s = input.as_str();
    let n = s.unicode_len();
    let mut lo: usize = 0;
    while lo < n && is_ws(s.get_char(lo))
        invariant
            lo <= n,
            n == s@.len(),
            forall|i: int| 0 <= i < lo ==> is_ws_char(s@[i]),
        decreases n - lo,
    {
        lo = lo + 1;
    }
    let mut hi: usize = n;
    while hi > lo && is_ws(s.get_char(hi - 1))
        invariant
            lo <= hi <= n,
            n == s@.len(),
            forall|j: int| hi <= j < n ==> is_ws_char(s@[j]),
        decreases hi,
    {
        hi = hi - 1;
    }
    proof {
        lemma_trim_front_skip(s@, lo as int);
        lemma_trim_back_take(s@.skip(lo as int), hi - lo);
        assert(s@.skip(lo as int).take(hi - lo) =~= s@.subrange(lo as int, hi as int));
    }
    let mut out: Vec<char> = Vec::new();
    let mut i: usize = lo;
    while i < hi
        invariant
            lo <= i <= hi <= n,
            n == s@.len(),
            out@ == sanitize_chars(s@.subrange(lo as int, i as int)),
        decreases hi - i,
    {
        let c = s.get_char(i);
        proof {
            assert(s@.subrange(lo as int, i + 1 as int).drop_last() =~= s@.subrange(
                lo as int,
                i as int,
            ));
        }
        let u = c as u32;
        if u >= 128 {
        } else if c == ' ' || c == '-' {
            out.push('_');
        } else if c == '\'' || c == '%' || c == '!' || c == '?' || c == '|' || c == '#' || c == '\\'
            || c == '/' || c == '(' || c == ')' || c == '+' {
        } else {
            out.push(c);
        }
        i = i + 1;
    }
    chars_to_string(out)
}

/// The decimal digit character for a value below ten.
pub open spec fn digit_char(d: int) -> char {
    if d == 0 {
        '0'
    } else if d == 1 {
        '1'
    } else if d == 2 {
        '2'
    } else if d == 3 {
        '3'
    } else if d == 4 {
        '4'
    } else if d == 5 {
        '5'
    } else if d == 6 {
        '6'
    } else if d == 7 {
        '7'
    } else if d == 8 {
        '8'
    } else {
        '9'
    }
}

/// The decimal rendering of a non-negative integer, most significant digit
/// first and without leading zeros.
pub open spec fn dec_digits(n: int) -> Seq<char>
    recommends
        n >= 0,
    decreases n,
{
    if n < 10 {
        seq![digit_char(n)]
    } else {
        dec_digits(n / 10).push(digit_char(n % 10))
    }
}

/// The canonical decimal rendering of a signed integer.
pub open spec fn int_text(i: int) -> Seq<char> {
    if i < 0 {
        seq!['-'] + dec_digits(-i)
    } else {
        dec_digits(i)
    }
}

fn digit(d: u64) -> (c: char)
    requires
        d < 10,
    ensures
        c == digit_char(d as int),
{
    match d {
        0 => '0',
        1 => '1',
        2 => '2',
        3 => '3',
        4 => '4',
        5 => '5',
        6 => '6',
        7 => '7',
        8 => '8',
        _ => '9',
    }
}

/// Appends the decimal rendering of `n` to `out`.
pub fn push_dec_digits(out: &mut Vec<char>, n: u64)
    ensures
        final(out)@ == old(out)@ + dec_digits(n as int),
    decreases n,
{
    if n < 10 {
        out.push(digit(n));
        proof {
            assert(old(out)@.push(digit_char(n as int)) =~= old(out)@ + dec_digits(n as int));
        }
    } else {
        push_dec_digits(out, n / 10);
        out.push(digit(n % 10));
        proof {
            assert((old(out)@ + dec_digits(n as int / 10)).push(digit_char(n as int % 10)) =~= old(
                out,
            )@ + dec_digits(n as int));
        }
    }
}

/// Appends the canonical decimal rendering of a signed 64-bit integer.
pub fn push_i64_text(out: &mut Vec<char>, i: i64)
    ensures
        final(out)@ == old(out)@ + int_text(i as int),
{
    if i < 0 {
        out.push('-');
        let m: u64 = (-(i as i128)) as u64;
        push_dec_digits(out, m);
        proof {
            assert(old(out)@.push('-') + dec_digits(m as int) =~= old(out)@ + int_text(i as int));
        }
    } else {
        push_dec_digits(out, i as u64);
    }
}

/// A decimal digit character.
pub open spec fn is_digit_char(c: char) -> bool {
    48 <= (c as u32) <= 57
}

/// The digit test as a reusable predicate value.
pub open spec fn digit_pred() -> spec_fn(char) -> bool {
    |c: char| is_digit_char(c)
}

/// The text with every non-digit character stripped.
pub open spec fn digits_only(s: Seq<char>) -> Seq<char> {
    s.filter(digit_pred())
}

/// The integer a digit text denotes, most significant digit first.
pub open spec fn digits_value(s: Seq<char>) -> int
    decreases s.len(),
{
    if s.len() == 0 {
        0
    } else {
        digits_value(s.drop_last()) * 10 + ((s.last() as u32) - 48)
    }
}

/// Every character of a decimal rendering is a digit.
pub proof fn lemma_dec_digits_all_digits(n: int)
    requires
        n >= 0,
    ensures
        forall|i: int| 0 <= i < dec_digits(n).len() ==> is_digit_char(#[trigger] dec_digits(n)[i]),
    decreases n,
{
    if n < 10 {
        assert(is_digit_char(digit_char(n)));
    } else {
        lemma_dec_digits_all_digits(n / 10);
        assert(is_digit_char(digit_char(n % 10)));
        assert(forall|i: int|
            0 <= i < dec_digits(n).len() - 1 ==> #[trigger] dec_digits(n)[i] == dec_digits(
                n / 10,
            )[i]);
        assert(dec_digits(n).last() == digit_char(n % 10));
    }
}

/// Reading back a decimal rendering gives the value rendered.
pub proof fn lemma_dec_digits_value(n: int)
    requires
        n >= 0,
    ensures
        digits_value(dec_digits(n)) == n,
    decreases n,
{
    if n < 10 {
        assert(dec_digits(n).drop_last() =~= Seq::<char>::empty());
        assert(digits_value(Seq::<char>::empty()) == 0);
        assert(dec_digits(n).last() == digit_char(n));
        assert((digit_char(n) as u32) - 48 == n);
    } else {
        lemma_dec_digits_value(n / 10);
        assert(dec_digits(n).drop_last() =~= dec_digits(n / 10));
        assert(dec_digits(n).last() == digit_char(n % 10));
        assert((digit_char(n % 10) as u32) - 48 == n % 10);
        assert(digits_value(dec_digits(n)) == digits_value(dec_digits(n / 10)) * 10 + ((dec_digits(
            n,
        ).last() as u32) - 48));
    }
}

/// A leading zero does not change the value a digit text denotes.
pub proof fn lemma_digits_value_leading_zero(s: Seq<char>)
    ensures
        digits_value(seq!['0'] + s) == digits_value(s),
    decreases s.len(),
{
    if s.len() == 0 {
        assert((seq!['0'] + s) =~= seq!['0']);
        assert(seq!['0'].drop_last() =~= Seq::<char>::empty());
        assert(digits_value(Seq::<char>::empty()) == 0);
        assert(digits_value(seq!['0']) == ('0' as u32) - 48);
    } else {
        lemma_digits_value_leading_zero(s.drop_last());
        assert((seq!['0'] + s).drop_last() =~= seq!['0'] + s.drop_last());
        assert((seq!['0'] + s).last() == s.last());
        assert(digits_value(seq!['0'] + s) == digits_value(seq!['0'] + s.drop_last()) * 10 + (((
        seq!['0'] + s).last() as u32) - 48));
        assert(digits_value(s) == digits_value(s.drop_last()) * 10 + ((s.last() as u32) - 48));
    }
}

/// Appending a two-digit chunk multiplies the prefix's value by one hundred.
pub proof fn lemma_digits_value_append2(a: Seq<char>, b: Seq<char>)
    requires
        b.len() == 2,
    ensures
        digits_value(a + b) == digits_value(a) * 100 + digits_value(b),
{
    let ab = a + b;
    assert(ab.drop_last() =~= a + b.drop_last());
    assert((a + b.drop_last()).drop_last() =~= a);
    assert(b.drop_last().drop_last() =~= Seq::<char>::empty());
    assert(ab.last() == b.last());
    assert((a + b.drop_last()).last() == b.drop_last().last());
    assert(b.drop_last().last() == b[0]);
    assert(digits_value(ab) == digits_value(a + b.drop_last()) * 10 + ((b.last() as u32) - 48));
    assert(digits_value(a + b.drop_last()) == digits_value(a) * 10 + ((b[0] as u32) - 48));
    assert(digits_value(b) == digits_value(b.drop_last()) * 10 + ((b.last() as u32) - 48));
    assert(digits_value(b.drop_last()) == digits_value(Seq::<char>::empty()) * 10 + ((b[0]
        as u32) - 48));
    assert(digits_value(Seq::<char>::empty()) == 0);
}

/// A character that sanitization passes through unchanged.
pub open spec fn sanitize_fixed_char(c: char) -> bool {
    (c as u32) < 128 && c != ' ' && c != '-' && !is_stripped_char(c)
}

/// Every character of a sanitized sequence is one sanitization keeps.
proof fn lemma_sanitize_chars_image(s: Seq<char>)
    ensures
        forall|i: int|
            0 <= i < sanitize_chars(s).len() ==> #[trigger] sanitize_fixed_char(
                sanitize_chars(s)[i],
            ),
    decreases s.len(),
{
    if s.len() > 0 {
        lemma_sanitize_chars_image(s.drop_last());
        let a = sanitize_chars(s.drop_last());
        let b = sanitize_char(s.last());
        assert(forall|i: int| 0 <= i < b.len() ==> #[trigger] sanitize_fixed_char(b[i]));
        assert forall|i: int|
            0 <= i < sanitize_chars(s).len() implies #[trigger] sanitize_fixed_char(
            sanitize_chars(s)[i],
        ) by {
            if i < a.len() {
                assert(sanitize_chars(s)[i] == a[i]);
            } else {
                assert(sanitize_chars(s)[i] == b[i - a.len()]);
            }
        }
    }
}

/// On a sequence of kept characters, character-wise sanitization is the
/// identity.
proof fn lemma_sanitize_chars_fixed(s: Seq<char>)
    requires
        forall|i: int| 0 <= i < s.len() ==> #[trigger] sanitize_fixed_char(s[i]),
    ensures
        sanitize_chars(s) == s,
    decreases s.len(),
{
    if s.len() > 0 {
        lemma_sanitize_chars_fixed(s.drop_last());
        assert(sanitize_fixed_char(s.last()));
        assert(sanitize_chars(s.drop_last()) + sanitize_char(s.last()) =~= s);
    }
}

/// Sanitization is idempotent: running `remove_invalid_chars` over its own
/// output returns that output unchanged, provided the first pass left no
/// whitespace at either end — trimming is the only step that looks past a
/// single character, and every other step already reaches a fixed point.
/// (A tab surviving behind a stripped character, as in `"(\ta"`, is the one
/// way a sanitized identifier can still begin or end with whitespace.)
pub proof fn lemma_sanitize_idempotent(s: Seq<char>)
    requires
        sanitize_spec(s).len() == 0 || (!is_ws_char(sanitize_spec(s).first()) && !is_ws_char(
            sanitize_spec(s).last(),
        )),
    ensures
        sanitize_spec(sanitize_spec(s)) == sanitize_spec(s),
{
    let t = sanitize_spec(s);
    assert(trim_front(t) == t);
    assert(trim_back(t) == t);
    lemma_sanitize_chars_image(trim_spec(s));
    lemma_sanitize_chars_fixed(t);
}

/// Relies on `String`'s `FromIterator<char>`: collecting characters yields
/// exactly that character sequence.
#[verifier::external_body]
pub(crate) fn chars_to_string(v: Vec<char>) -> (r: String)
    ensures
        r@ == v@,
{
    v.into_iter().collect()
}

/// An element-wise copy of an index list.
pub fn copy_usizes(v: &Vec<usize>) -> (r: Vec<usize>)
    ensures
        r@ == v@,
{
    let mut out: Vec<usize> = Vec::new();
    let mut i: usize = 0;
    while i < v.len()
        invariant
            i <= v@.len(),
            out@ == v@.take(i as int),
        decreases v.len() - i,
    {
        out.push(v[i]);
        proof {
            assert(v@.take(i + 1 as int) =~= v@.take(i as int).push(v@[i as int]));
        }
        i = i + 1;
    }
    proof {
        assert(v@.take(v@.len() as int) =~= v@);
    }
    out
}

/// Linear scan for membership of `x` in `v`.
pub fn contains_usize(v: &Vec<usize>, x: usize) -> (r: bool)
    ensures
        r == v@.contains(x),
{
    let mut i: usize = 0;
    while i < v.len()
        invariant
            i <= v.len(),
            forall|j: int| 0 <= j < i ==> v@[j] != x,
        decreases v.len() - i,
    {
        if v[i] == x {
            return true;
        }
        i = i + 1;
    }
    false
}

/// The parts joined with `sep` between consecutive ones.
pub open spec fn join_with(parts: Seq<Seq<char>>, sep: Seq<char>) -> Seq<char>
    decreases parts.len(),
{
    if parts.len() == 0 {
        Seq::empty()
    } else if parts.len() == 1 {
        parts[0]
    } else {
        join_with(parts.drop_last(), sep) + sep + parts.last()
    }
}

/// Appends every character of `s` to `out`.
pub fn append_str_chars(out: &mut Vec<char>, s: &str)
    ensures
        final(out)@ == old(out)@ + s@,
{
    let ghost out0 = out@;
    let n = s.unicode_len();
    let mut i: usize = 0;
    while i < n
        invariant
            i <= n,
            n == s@.len(),
            out@ == out0 + s@.take(i as int),
        decreases n - i,
    {
        out.push(s.get_char(i));
        proof {
            assert(out0 + s@.take(i + 1 as int) =~= (out0 + s@.take(i as int)).push(s@[i as int]));
        }
        i = i + 1;
    }
    proof {
        assert(s@.take(n as int) =~= s@);
    }
}

/// Holds of indexes that appear in neither of two lists; the filters below
/// and their callers share these named predicates.
pub open spec fn absent_from(a: Seq<usize>) -> spec_fn(usize) -> bool {
    |u: usize| !a.contains(u)
}

/// Holds of indexes absent from both `a` and `b`.
pub open spec fn absent_from2(a: Seq<usize>, b: Seq<usize>) -> spec_fn(usize) -> bool {
    |u: usize| !a.contains(u) && !b.contains(u)
}

/// Holds of indexes absent from `a`, `b` and `c`.
pub open spec fn absent_from3(a: Seq<usize>, b: Seq<usize>, c: Seq<usize>) -> spec_fn(
    usize,
) -> bool {
    |u: usize| !a.contains(u) && !b.contains(u) && !c.contains(u)
}

/// An element is in a filtered sequence exactly when it is in the original
/// and satisfies the predicate.
pub proof fn lemma_filter_membership(s: Seq<usize>, p: spec_fn(usize) -> bool, v: usize)
    ensures
        s.filter(p).contains(v) <==> (s.contains(v) && p(v)),
    decreases s.len(),
{
    reveal(Seq::filter);
    if s.len() > 0 {
        lemma_filter_membership(s.drop_last(), p, v);
        assert(s.contains(v) <==> (s.drop_last().contains(v) || s.last() == v)) by {
            if s.contains(v) {
                let i = choose|i: int| 0 <= i < s.len() && s[i] == v;
                if i < s.len() - 1 {
                    assert(s.drop_last()[i] == v);
                }
            }
            if s.drop_last().contains(v) {
                let i = choose|i: int| 0 <= i < s.drop_last().len() && s.drop_last()[i] == v;
                assert(s[i] == v);
            }
        }
        let sub = s.drop_last().filter(p);
        if p(s.last()) {
            assert(sub.push(s.last()).contains(v) <==> (sub.contains(v) || s.last() == v)) by {
                if sub.contains(v) {
                    let i = choose|i: int| 0 <= i < sub.len() && sub[i] == v;
                    assert(sub.push(s.last())[i] == v);
                }
                if s.last() == v {
                    assert(sub.push(s.last())[sub.len() as int] == v);
                }
                if sub.push(s.last()).contains(v) {
                    let i = choose|i: int|
                        0 <= i < sub.push(s.last()).len() && sub.push(s.last())[i] == v;
                    if i < sub.len() {
                        assert(sub[i] == v);
                    }
                }
            }
        }
    }
}

/// Keeps the indexes of `v` that are not in `a`.
fn filter_absent(v: Vec<usize>, a: &Vec<usize>) -> (r: Vec<usize>)
    ensures
        r@ == v@.filter(absent_from(a@)),
{
    let mut out: Vec<usize> = Vec::new();
    let mut i: usize = 0;
    while i < v.len()
        invariant
            i <= v.len(),
            out@ == v@.take(i as int).filter(absent_from(a@)),
        decreases v.len() - i,
    {
        proof {
            reveal(Seq::filter);
            assert(v@.take(i + 1 as int).drop_last() =~= v@.take(i as int));
        }
        if !contains_usize(a, v[i]) {
            out.push(v[i]);
        }
        i = i + 1;
    }
    proof {
        assert(v@.take(v@.len() as int) =~= v@);
    }
    out
}

/// Keeps the indexes of `v` that are in neither `a` nor `b`.
fn filter_absent2(v: Vec<usize>, a: &Vec<usize>, b: &Vec<usize>) -> (r: Vec<usize>)
    ensures
        r@ == v@.filter(absent_from2(a@, b@)),
{
    let mut out: Vec<usize> = Vec::new();
    let mut i: usize = 0;
    while i < v.len()
        invariant
            i <= v.len(),
            out@ == v@.take(i as int).filter(absent_from2(a@, b@)),
        decreases v.len() - i,
    {
        proof {
            reveal(Seq::filter);
            assert(v@.take(i + 1 as int).drop_last() =~= v@.take(i as int));
        }
        if !contains_usize(a, v[i]) && !contains_usize(b, v[i]) {
            out.push(v[i]);
        }
        i = i + 1;
    }
    proof {
        assert(v@.take(v@.len() as int) =~= v@);
    }
    out
}

/// Keeps the indexes of `v` that are in none of `a`, `b` and `c`.
fn filter_absent3(v: Vec<usize>, a: &Vec<usize>, b: &Vec<usize>, c: &Vec<usize>) -> (r: Vec<usize>)
    ensures
        r@ == v@.filter(absent_from3(a@, b@, c@)),
{
    let mut out: Vec<usize> = Vec::new();
    let mut i: usize = 0;
    while i < v.len()
        invariant
            i <= v.len(),
            out@ == v@.take(i as int).filter(absent_from3(a@, b@, c@)),
        decreases v.len() - i,
    {
        proof {
            reveal(Seq::filter);
            assert(v@.take(i + 1 as int).drop_last() =~= v@.take(i as int));
        }
        if !contains_usize(a, v[i]) && !contains_usize(b, v[i]) && !contains_usize(c, v[i]) {
            out.push(v[i]);
        }
        i = i + 1;
    }
    proof {
        assert(v@.take(v@.len() as int) =~= v@);
    }
    out
}

impl DatatypeIndexes {
    /// Makes the four index lists duplicate-free and pairwise disjoint,
    /// giving earlier kinds priority: VARCHAR beats FLOAT beats INT beats
    /// DATE. Each surviving list keeps its indexes in order of first
    /// appearance.
    pub fn find_uniques(self) -> (r: DatatypeIndexes)
        ensures
            r.is_varchar@ == first_occurrences(self.is_varchar@),
            r.is_float@ == first_occurrences(self.is_float@).filter(absent_from(self.is_varchar@)),
            r.is_int@ == first_occurrences(self.is_int@).filter(
                absent_from2(self.is_varchar@, self.is_float@),
            ),
            r.is_date@ == first_occurrences(self.is_date@).filter(
                absent_from3(self.is_varchar@, self.is_float@, self.is_int@),
            ),
    {
        let ghost varchar0 = self.is_varchar@;
        let ghost float0 = self.is_float@;
        let ghost int0 = self.is_int@;
        let is_varchar = unique_usizes(self.is_varchar);
        let float_u = unique_usizes(self.is_float);
        let int_u = unique_usizes(self.is_int);
        let date_u = unique_usizes(self.is_date);
        let is_float = filter_absent(float_u, &is_varchar);
        proof {
            assert forall|u: usize| true implies #[trigger] absent_from(is_varchar@)(u)
                == absent_from(varchar0)(u) by {
                lemma_first_occurrences_contains(varchar0, u);
            }
            lemma_filter_congruence(
                first_occurrences(float0),
                absent_from(is_varchar@),
                absent_from(varchar0),
            );
        }
        let is_int = filter_absent2(int_u, &is_varchar, &is_float);
        proof {
            assert forall|u: usize| true implies #[trigger] absent_from2(is_varchar@, is_float@)(u)
                == absent_from2(varchar0, float0)(u) by {
                lemma_first_occurrences_contains(varchar0, u);
                lemma_first_occurrences_contains(float0, u);
                lemma_filter_membership(first_occurrences(float0), absent_from(varchar0), u);
            }
            lemma_filter_congruence(
                first_occurrences(int0),
                absent_from2(is_varchar@, is_float@),
                absent_from2(varchar0, float0),
            );
        }
        let is_date = filter_absent3(date_u, &is_varchar, &is_float, &is_int);
        proof {
            assert forall|u: usize| true implies #[trigger] absent_from3(
                is_varchar@,
                is_float@,
                is_int@,
            )(u) == absent_from3(varchar0, float0, int0)(u) by {
                lemma_first_occurrences_contains(varchar0, u);
                lemma_first_occurrences_contains(float0, u);
                lemma_first_occurrences_contains(int0, u);
                lemma_filter_membership(first_occurrences(float0), absent_from(varchar0), u);
                lemma_filter_membership(
                    first_occurrences(int0),
                    absent_from2(varchar0, float0),
                    u,
                );
            }
            lemma_filter_congruence(
                first_occurrences(self.is_date@),
                absent_from3(is_varchar@, is_float@, is_int@),
                absent_from3(varchar0, float0, int0),
            );
        }
        DatatypeIndexes { is_varchar, is_float, is_int, is_date }
    }
}

/// Two predicates that agree everywhere filter a sequence identically.
proof fn lemma_filter_congruence(s: Seq<usize>, p: spec_fn(usize) -> bool, q: spec_fn(usize) -> bool)
    requires
        forall|u: usize| #[trigger] p(u) == q(u),
    ensures
        s.filter(p) == s.filter(q),
    decreases s.len(),
{
    reveal(Seq::filter);
    if s.len() > 0 {
        lemma_filter_congruence(s.drop_last(), p, q);
    }
}

impl FormattedData {
    /// The canonical text rendering of the cell: strings verbatim, numerics
    /// in decimal, dates as `YYYY-MM-DD HH:MM:SS`, and the empty cell as the
    /// empty string.
    pub fn to_string(&self) -> (r: String)
        ensures
            r@ == self.text_spec(),
    {
        match self {
            FormattedData::STRING(val) => val.clone(),
            FormattedData::INT(val) => {
                let mut out: Vec<char> = Vec::new();
                push_i64_text(&mut out, *val);
                proof {
                    assert(out@ =~= int_text(*val as int));
                }
                chars_to_string(out)
            },
            FormattedData::FLOAT(val) => val.clone(),
            FormattedData::DATE(d) => {
                let mut out: Vec<char> = Vec::new();
                d.push_text(&mut out);
                proof {
                    assert(out@ =~= d.text_spec());
                }
                chars_to_string(out)
            },
            FormattedData::EMPTY => String::new(),
        }
    }
}

} // verus!
