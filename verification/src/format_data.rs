//! The tagged cell model: every grid cell is one of five kinds, and each
//! kind has a canonical text rendering.

use crate::datetime::DateTime;
use crate::utils::int_text;
use vstd::prelude::*;

verus! {

/// One tagged cell value; `EMPTY` stands for SQL NULL.
///
/// The `FLOAT` variant carries the value's canonical decimal text rendering:
/// the loader reads a floating-point payload only through that rendering, and
/// the driver layer turns the text back into a native numeric when it binds.
#[allow(non_camel_case_types)]
#[derive(Debug, Clone, PartialEq)]
pub enum FormattedData {
    STRING(String),
    INT(i64),
    FLOAT(String),
    DATE(DateTime),
    EMPTY,
}

impl FormattedData {
    /// The canonical text rendering of a cell; `EMPTY` renders as the empty
    /// string.
    pub open spec fn text_spec(self) -> Seq<char> {
        match self {
            FormattedData::STRING(s) => s@,
            FormattedData::INT(v) => int_text(v as int),
            FormattedData::FLOAT(t) => t@,
            FormattedData::DATE(d) => d.text_spec(),
            FormattedData::EMPTY => Seq::empty(),
        }
    }

    /// A well-formed cell: a date-tagged cell holds a real calendar
    /// timestamp.
    pub open spec fn wf(self) -> bool {
        match self {
            FormattedData::DATE(d) => d.wf(),
            _ => true,
        }
    }
}

/// The text `s` is the canonical rendering of some cell that `v` may be
/// tagged as.
pub open spec fn renders_tagged<T: FormatData>(v: T, s: Seq<char>) -> bool {
    exists|c: FormattedData| v.fmt_matches(c) && s == c.text_spec()
}

/// Conversion of a caller's plain value into a tagged cell.
///
/// Implemented for the cell type itself, strings, the signed integers and
/// [`DateTime`], as well as their `Option` forms, where `None` becomes
/// `EMPTY`.
pub trait FormatData: Sized {
    /// Which cells a value of this type may become.
    spec fn fmt_matches(self, r: FormattedData) -> bool;

    /// Tags `self` as a cell.
    fn fmt_data(self) -> (r: FormattedData)
        ensures
            self.fmt_matches(r),
    ;
}

impl FormatData for FormattedData {
    open spec fn fmt_matches(self, r: FormattedData) -> bool {
        r == self
    }

    fn fmt_data(self) -> (r: FormattedData) {
        self
    }
}

impl FormatData for String {
    open spec fn fmt_matches(self, r: FormattedData) -> bool {
        r == FormattedData::STRING(self)
    }

    fn fmt_data(self) -> (r: FormattedData) {
        FormattedData::STRING(self)
    }
}

impl FormatData for &str {
    open spec fn fmt_matches(self, r: FormattedData) -> bool {
        r is STRING && r->STRING_0@ == self@
    }

    fn fmt_data(self) -> (r: FormattedData) {
        FormattedData::STRING(self.to_owned())
    }
}

impl FormatData for i64 {
    open spec fn fmt_matches(self, r: FormattedData) -> bool {
        r == FormattedData::INT(self)
    }

    fn fmt_data(self) -> (r: FormattedData) {
        FormattedData::INT(self)
    }
}

impl FormatData for i32 {
    open spec fn fmt_matches(self, r: FormattedData) -> bool {
        r == FormattedData::INT(self as i64)
    }

    fn fmt_data(self) -> (r: FormattedData) {
        FormattedData::INT(self as i64)
    }
}

impl FormatData for i16 {
    open spec fn fmt_matches(self, r: FormattedData) -> bool {
        r == FormattedData::INT(self as i64)
    }

    fn fmt_data(self) -> (r: FormattedData) {
        FormattedData::INT(self as i64)
    }
}

impl FormatData for i8 {
    open spec fn fmt_matches(self, r: FormattedData) -> bool {
        r == FormattedData::INT(self as i64)
    }

    fn fmt_data(self) -> (r: FormattedData) {
        FormattedData::INT(self as i64)
    }
}

impl FormatData for DateTime {
    open spec fn fmt_matches(self, r: FormattedData) -> bool {
        r == FormattedData::DATE(self)
    }

    fn fmt_data(self) -> (r: FormattedData) {
        FormattedData::DATE(self)
    }
}

impl<T: FormatData> FormatData for Option<T> {
    open spec fn fmt_matches(self, r: FormattedData) -> bool {
        match self {
            Some(v) => v.fmt_matches(r),
            None => r is EMPTY,
        }
    }

    fn fmt_data(self) -> (r: FormattedData) {
        match self {
            Some(v) => v.fmt_data(),
            None => FormattedData::EMPTY,
        }
    }
}

} // verus!
