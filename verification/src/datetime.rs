//! A calendar timestamp without a zone, carried by date-tagged cells.
//!
//! The loader only ever reads a timestamp through its canonical text
//! rendering `YYYY-MM-DD HH:MM:SS`, so the type stores the six calendar
//! fields as plain integers and renders them itself.

use crate::utils::{
    dec_digits, digit_pred, digits_only, digits_value, is_digit_char, lemma_dec_digits_all_digits,
    lemma_dec_digits_value, lemma_digits_value_append2, lemma_digits_value_leading_zero,
    push_dec_digits,
};
use vstd::prelude::*;

verus! {

/// A calendar timestamp: year, month, day, hour, minute, second.
#[derive(Debug, Clone, Copy, PartialEq, Eq, Structural)]
pub struct DateTime {
    pub year: u16,
    pub month: u8,
    pub day: u8,
    pub hour: u8,
    pub minute: u8,
    pub second: u8,
}

/// The Gregorian leap-year rule.
pub open spec fn is_leap_year(y: int) -> bool {
    y % 4 == 0 && (y % 100 != 0 || y % 400 == 0)
}

/// Days in a month of the proleptic Gregorian calendar.
pub open spec fn days_in_month(y: int, m: int) -> int {
    if m == 2 {
        if is_leap_year(y) {
            29
        } else {
            28
        }
    } else if m == 4 || m == 6 || m == 9 || m == 11 {
        30
    } else {
        31
    }
}

/// A value below ten rendered as two digits, zero padded.
pub open spec fn pad2(n: int) -> Seq<char> {
    if n < 10 {
        seq!['0'] + dec_digits(n)
    } else {
        dec_digits(n)
    }
}

/// A year rendered as at least four digits, zero padded.
pub open spec fn pad4(n: int) -> Seq<char> {
    if n < 10 {
        seq!['0', '0', '0'] + dec_digits(n)
    } else if n < 100 {
        seq!['0', '0'] + dec_digits(n)
    } else if n < 1000 {
        seq!['0'] + dec_digits(n)
    } else {
        dec_digits(n)
    }
}

impl DateTime {
    /// A well-formed timestamp: a real calendar date with a year of at most
    /// four digits, and a time of day within range.
    pub open spec fn wf(self) -> bool {
        &&& self.year <= 9999
        &&& 1 <= self.month <= 12
        &&& 1 <= self.day <= days_in_month(self.year as int, self.month as int)
        &&& self.hour <= 23
        &&& self.minute <= 59
        &&& self.second <= 59
    }

    /// The canonical rendering `YYYY-MM-DD HH:MM:SS`.
    pub open spec fn text_spec(self) -> Seq<char> {
        pad4(self.year as int) + seq!['-'] + pad2(self.month as int) + seq!['-'] + pad2(
            self.day as int,
        ) + seq![' '] + pad2(self.hour as int) + seq![':'] + pad2(self.minute as int) + seq![':']
            + pad2(self.second as int)
    }

    /// The rendering with the separators gone: just the fourteen digits.
    pub open spec fn digits_spec(self) -> Seq<char> {
        pad4(self.year as int) + pad2(self.month as int) + pad2(self.day as int) + pad2(
            self.hour as int,
        ) + pad2(self.minute as int) + pad2(self.second as int)
    }

    /// The numeric reading of those fourteen digits.
    pub open spec fn numeric_spec(self) -> int {
        ((((self.year as int * 100 + self.month as int) * 100 + self.day as int) * 100
            + self.hour as int) * 100 + self.minute as int) * 100 + self.second as int
    }

    /// Checked constructor: `Some` exactly when the fields form a well-formed
    /// timestamp.
    pub fn new(year: u16, month: u8, day: u8, hour: u8, minute: u8, second: u8) -> (r: Option<
        DateTime,
    >)
        ensures
            ({
                let d = DateTime { year, month, day, hour, minute, second };
                match r {
                    Some(v) => v == d && d.wf(),
                    None => !d.wf(),
                }
            }),
    {
        let d = DateTime { year, month, day, hour, minute, second };
        if year <= 9999 && 1 <= month && month <= 12 && 1 <= day && day as u16 <= days_in(
            year,
            month,
        ) && hour <= 23 && minute <= 59 && second <= 59 {
            Some(d)
        } else {
            None
        }
    }

    /// Appends the canonical rendering of `self` to `out`.
    pub fn push_text(&self, out: &mut Vec<char>)
        ensures
            final(out)@ == old(out)@ + self.text_spec(),
    {
        let ghost out0 = out@;
        push_pad4(out, self.year);
        out.push('-');
        push_pad2(out, self.month);
        out.push('-');
        push_pad2(out, self.day);
        out.push(' ');
        push_pad2(out, self.hour);
        out.push(':');
        push_pad2(out, self.minute);
        out.push(':');
        push_pad2(out, self.second);
        proof {
            assert(out@ =~= out0 + self.text_spec());
        }
    }

    /// Appends the fourteen digits of `self`, separators left out.
    pub fn push_digits(&self, out: &mut Vec<char>)
        ensures
            final(out)@ == old(out)@ + self.digits_spec(),
    {
        let ghost out0 = out@;
        push_pad4(out, self.year);
        push_pad2(out, self.month);
        push_pad2(out, self.day);
        push_pad2(out, self.hour);
        push_pad2(out, self.minute);
        push_pad2(out, self.second);
        proof {
            assert(out@ =~= out0 + self.digits_spec());
        }
    }

    /// The fourteen-digit numeric reading, which always fits a signed 64-bit
    /// integer for a well-formed timestamp.
    pub fn numeric(&self) -> (r: i64)
        ensures
            r == self.numeric_spec(),
    {
        let v: u64 = ((((self.year as u64 * 100 + self.month as u64) * 100 + self.day as u64) * 100
            + self.hour as u64) * 100 + self.minute as u64) * 100 + self.second as u64;
        v as i64
    }
}

/// Runtime days-in-month check used by the constructor.
fn days_in(y: u16, m: u8) -> (r: u16)
    ensures
        r == days_in_month(y as int, m as int),
{
    if m == 2 {
        if (y % 4 == 0) && (y % 100 != 0 || y % 400 == 0) {
            29
        } else {
            28
        }
    } else if m == 4 || m == 6 || m == 9 || m == 11 {
        30
    } else {
        31
    }
}

/// Appends a two-digit zero-padded rendering of a value below 100.
fn push_pad2(out: &mut Vec<char>, n: u8)
    ensures
        final(out)@ == old(out)@ + pad2(n as int),
{
    let ghost out0 = out@;
    if n < 10 {
        out.push('0');
    }
    push_dec_digits(out, n as u64);
    proof {
        assert(out@ =~= out0 + pad2(n as int));
    }
}

/// Appends a four-digit zero-padded rendering of a value below 10000.
fn push_pad4(out: &mut Vec<char>, n: u16)
    ensures
        final(out)@ == old(out)@ + pad4(n as int),
{
    let ghost out0 = out@;
    if n < 10 {
        out.push('0');
        out.push('0');
        out.push('0');
    } else if n < 100 {
        out.push('0');
        out.push('0');
    } else if n < 1000 {
        out.push('0');
    }
    push_dec_digits(out, n as u64);
    proof {
        assert(out@ =~= out0 + pad4(n as int));
    }
}

/// A two-digit rendering really has two characters.
proof fn lemma_pad2_len(n: int)
    requires
        0 <= n < 100,
    ensures
        pad2(n).len() == 2,
{
    if n < 10 {
        assert(dec_digits(n).len() == 1);
    } else {
        assert(dec_digits(n / 10).len() == 1);
        assert(dec_digits(n).len() == 2);
    }
}

/// Every character of a zero-padded rendering is a digit.
proof fn lemma_pad2_all_digits(n: int)
    requires
        n >= 0,
    ensures
        forall|i: int| 0 <= i < pad2(n).len() ==> is_digit_char(#[trigger] pad2(n)[i]),
{
    lemma_dec_digits_all_digits(n);
    assert(is_digit_char('0'));
}

/// Every character of a four-digit rendering is a digit.
proof fn lemma_pad4_all_digits(n: int)
    requires
        n >= 0,
    ensures
        forall|i: int| 0 <= i < pad4(n).len() ==> is_digit_char(#[trigger] pad4(n)[i]),
{
    lemma_dec_digits_all_digits(n);
    assert(is_digit_char('0'));
}

/// Reading back a two-digit rendering gives the value rendered.
proof fn lemma_pad2_value(n: int)
    requires
        0 <= n < 100,
    ensures
        digits_value(pad2(n)) == n,
{
    lemma_dec_digits_value(n);
    if n < 10 {
        lemma_digits_value_leading_zero(dec_digits(n));
    }
}

/// Reading back a four-digit rendering gives the value rendered.
proof fn lemma_pad4_value(n: int)
    requires
        0 <= n < 10000,
    ensures
        digits_value(pad4(n)) == n,
{
    lemma_dec_digits_value(n);
    let d = dec_digits(n);
    if n < 10 {
        lemma_digits_value_leading_zero(d);
        lemma_digits_value_leading_zero(seq!['0'] + d);
        lemma_digits_value_leading_zero(seq!['0'] + (seq!['0'] + d));
        assert(seq!['0', '0', '0'] + d =~= seq!['0'] + (seq!['0'] + (seq!['0'] + d)));
    } else if n < 100 {
        lemma_digits_value_leading_zero(d);
        lemma_digits_value_leading_zero(seq!['0'] + d);
        assert(seq!['0', '0'] + d =~= seq!['0'] + (seq!['0'] + d));
    } else if n < 1000 {
        lemma_digits_value_leading_zero(d);
    }
}

/// Filtering for digits leaves a digit text unchanged.
proof fn lemma_filter_digits_identity(s: Seq<char>)
    requires
        forall|i: int| 0 <= i < s.len() ==> is_digit_char(#[trigger] s[i]),
    ensures
        digits_only(s) == s,
    decreases s.len(),
{
    reveal(Seq::filter);
    if s.len() > 0 {
        lemma_filter_digits_identity(s.drop_last());
        assert(is_digit_char(s.last()));
        assert(digit_pred()(s.last()));
        assert(s.drop_last().push(s.last()) =~= s);
    }
}

/// Filtering for digits erases a single non-digit character.
proof fn lemma_filter_sep(c: char)
    requires
        !is_digit_char(c),
    ensures
        digits_only(seq![c]) == Seq::<char>::empty(),
{
    reveal(Seq::filter);
    assert(seq![c].drop_last() =~= Seq::<char>::empty());
    assert(!digit_pred()(c));
    assert(Seq::<char>::empty().filter(digit_pred()) =~= Seq::<char>::empty());
}

/// Stripping the non-digit characters from the canonical rendering leaves
/// exactly the fourteen digits, and reading those digits as a number gives
/// the numeric form of the timestamp. This is the coercion a date-tagged
/// cell undergoes in a numerically classified column.
pub proof fn lemma_date_digits(d: DateTime)
    requires
        d.wf(),
    ensures
        digits_only(d.text_spec()) == d.digits_spec(),
        digits_value(d.digits_spec()) == d.numeric_spec(),
{
    broadcast use Seq::filter_distributes_over_add;

    let y = d.year as int;
    let mo = d.month as int;
    let da = d.day as int;
    let h = d.hour as int;
    let mi = d.minute as int;
    let se = d.second as int;
    lemma_pad4_all_digits(y);
    lemma_pad2_all_digits(mo);
    lemma_pad2_all_digits(da);
    lemma_pad2_all_digits(h);
    lemma_pad2_all_digits(mi);
    lemma_pad2_all_digits(se);
    lemma_filter_digits_identity(pad4(y));
    lemma_filter_digits_identity(pad2(mo));
    lemma_filter_digits_identity(pad2(da));
    lemma_filter_digits_identity(pad2(h));
    lemma_filter_digits_identity(pad2(mi));
    lemma_filter_digits_identity(pad2(se));
    lemma_filter_sep('-');
    lemma_filter_sep(' ');
    lemma_filter_sep(':');
    assert(digits_only(d.text_spec()) =~= d.digits_spec());
    lemma_pad4_value(y);
    lemma_pad2_value(mo);
    lemma_pad2_value(da);
    lemma_pad2_value(h);
    lemma_pad2_value(mi);
    lemma_pad2_value(se);
    lemma_pad2_len(mo);
    lemma_pad2_len(da);
    lemma_pad2_len(h);
    lemma_pad2_len(mi);
    lemma_pad2_len(se);
    let a1 = pad4(y);
    let a2 = a1 + pad2(mo);
    let a3 = a2 + pad2(da);
    let a4 = a3 + pad2(h);
    let a5 = a4 + pad2(mi);
    lemma_digits_value_append2(a1, pad2(mo));
    lemma_digits_value_append2(a2, pad2(da));
    lemma_digits_value_append2(a3, pad2(h));
    lemma_digits_value_append2(a4, pad2(mi));
    lemma_digits_value_append2(a5, pad2(se));
    assert(d.digits_spec() == a5 + pad2(se));
}

} // verus!
