//! The values of cells, and the rule that decides what a cell holds.

use std::borrow::Cow;
use vstd::prelude::*;
use crate::date::{
    serial_to_datetime, serial_to_datetime_spec, Date, DateConversion, DateSystem, DateTime,
    Serial, Time,
};
use crate::text::{
    all_digits, contains_char, contains_str, has_char, has_run, lemma_digits_value_nonneg,
    parse_unsigned, parse_unsigned_spec, str_eq, unsigned_body,
};

verus! {

/// A number as a cell holds it.
#[derive(Debug, Clone, Copy, PartialEq, Eq, Structural)]
pub enum Number {
    /// A binary64 number of IEEE 754, as its 64 bits.
    Real(u64),
    /// A whole number: the days of a serial that is no date.
    Whole(i64),
}

/// What the text of a cell is as a number: the number itself, and the
/// serial that it makes at millisecond resolution.
#[derive(Debug, Clone, Copy, PartialEq, Eq, Structural)]
pub struct Numeric {
    /// The number as a binary64 of IEEE 754, as its 64 bits.
    pub bits: u64,
    /// Its whole days, counted towards zero, and the milliseconds of its
    /// fraction, rounded to the nearest.
    pub serial: Serial,
}

/// `ExcelValue` is the enum that holds the equivalent "rust value" of a
/// `Cell`s "raw_value."
#[derive(Debug, PartialEq)]
pub enum ExcelValue<'a> {
    Bool(bool),
    Date(Date),
    DateTime(DateTime),
    Error(String),
    /// A cell that holds nothing.
    Empty,
    Number(Number),
    String(Cow<'a, str>),
    Time(Time),
}

/// What an `ExcelValue` holds, with text as its characters.
pub enum ValueModel {
    Bool(bool),
    Date(Date),
    DateTime(DateTime),
    Error(Seq<char>),
    Empty,
    Number(Number),
    String(Seq<char>),
    Time(Time),
}

impl<'a> View for ExcelValue<'a> {
    type V = ValueModel;

    open spec fn view(&self) -> ValueModel {
        match self {
            ExcelValue::Bool(b) => ValueModel::Bool(*b),
            ExcelValue::Date(d) => ValueModel::Date(*d),
            ExcelValue::DateTime(d) => ValueModel::DateTime(*d),
            ExcelValue::Error(e) => ValueModel::Error(e@),
            ExcelValue::Empty => ValueModel::Empty,
            ExcelValue::Number(n) => ValueModel::Number(*n),
            ExcelValue::String(s) => ValueModel::String(s@),
            ExcelValue::Time(t) => ValueModel::Time(*t),
        }
    }
}

/// Why the text of a cell gave no value.
#[derive(Debug, Clone, Copy, PartialEq, Eq, Structural)]
pub enum CellError {
    /// A number was expected, and the text is none.
    InvalidNumericLiteral,
    /// The text is serial 60 of the 1900 date system, a day that never was.
    InvalidDateSerial,
}

/// Whether the format code `style` makes a number a date: it holds a `d`
/// and not the colour `Red`, or it holds an `m` or a `y`.
pub open spec fn is_date_style(style: Seq<char>) -> bool {
    ||| (has_char(style, 'd') && !has_run(style, "Red"@))
    ||| has_char(style, 'm')
    ||| has_char(style, 'y')
}

/// Whether the format code `style` makes a number a date.
pub fn style_is_date(style: &str) -> (r: bool)
    ensures
        r == is_date_style(style@),
{
    let is_like_d_and_not_like_red = contains_char(style, 'd') && !contains_str(style, "Red");
    let is_like_m = contains_char(style, 'm');
    if is_like_d_and_not_like_red || is_like_m {
        true
    } else {
        contains_char(style, 'y')
    }
}

/// The text of `list` at the place that the text `at` names, counted from
/// 0; none where `at` is no number or `list` has no such place.
pub open spec fn listed(list: Seq<Seq<char>>, at: Seq<char>) -> Option<Seq<char>> {
    match parse_unsigned_spec(at, list.len() - 1) {
        Some(place) => Some(list[place]),
        None => None,
    }
}

/// The text of `list` at the place that the text `at` names, counted from
/// 0.
pub fn look_up<'a>(list: &'a [String], at: &str) -> (r: Option<&'a String>)
    ensures
        match r {
            Some(text) => listed(list.deep_view(), at@) == Some(text@),
            None => listed(list.deep_view(), at@) is None,
        },
{
    if list.len() == 0 {
        proof {
            if all_digits(unsigned_body(at@)) {
                lemma_digits_value_nonneg(unsigned_body(at@));
            }
        }
        return None;
    }
    match parse_unsigned(at, (list.len() - 1) as u64) {
        Some(place) => {
            let text = &list[place as usize];
            assert(list.deep_view()[place as int] == text@);
            Some(text)
        },
        None => None,
    }
}

/// The text that a cell of type `s` stands for: `raw` names, by its
/// place, one of the shared strings; where it names none, the cell holds
/// `raw` itself.
pub open spec fn shared_string(raw: Seq<char>, strings: Seq<Seq<char>>) -> Seq<char> {
    match listed(strings, raw) {
        Some(text) => text,
        None => raw,
    }
}

/// The value of a cell whose text `number` is a date serial.
pub open spec fn date_value(number: Option<Numeric>, system: DateSystem) -> Result<
    ValueModel,
    CellError,
> {
    match number {
        None => Err(CellError::InvalidNumericLiteral),
        Some(n) => match serial_to_datetime_spec(n.serial, system) {
            Ok(DateConversion::Date(date)) => Ok(ValueModel::Date(date)),
            Ok(DateConversion::DateTime(at)) => Ok(ValueModel::DateTime(at)),
            Ok(DateConversion::Time(time)) => Ok(ValueModel::Time(time)),
            Ok(DateConversion::Number(days)) => Ok(ValueModel::Number(Number::Whole(days))),
            Err(_) => Err(CellError::InvalidDateSerial),
        },
    }
}

/// What a cell holds: the first rule that fits decides.
///
/// `raw` is the text of the cell, `cell_type` its declared type, `style` its
/// format code, and `number` what `raw` is as a number, if it is one. A
/// cell of no declared text type holds a date where its format asks for one,
/// else a number.
pub open spec fn resolve_spec(
    raw: Seq<char>,
    cell_type: Seq<char>,
    style: Seq<char>,
    number: Option<Numeric>,
    strings: Seq<Seq<char>>,
    system: DateSystem,
) -> Result<ValueModel, CellError> {
    if cell_type == "s"@ {
        Ok(ValueModel::String(shared_string(raw, strings)))
    } else if cell_type == "str"@ || cell_type == "inlineStr"@ {
        Ok(ValueModel::String(raw))
    } else if cell_type == "b"@ {
        Ok(ValueModel::Bool(raw != "0"@))
    } else if cell_type == "bl"@ {
        Ok(ValueModel::Empty)
    } else if cell_type == "e"@ {
        Ok(ValueModel::Error(raw))
    } else if is_date_style(style) {
        date_value(number, system)
    } else {
        match number {
            None => Err(CellError::InvalidNumericLiteral),
            Some(n) => Ok(ValueModel::Number(Number::Real(n.bits))),
        }
    }
}

/// Decides what a cell holds, from its text, its declared type and its
/// format code. `number` is the text as a number, where it is one.
pub fn resolve_value<'a>(
    raw: &str,
    cell_type: &str,
    style: &str,
    number: Option<Numeric>,
    strings: &'a [String],
    date_system: &DateSystem,
) -> (r: Result<ExcelValue<'a>, CellError>)
    ensures
        match r {
            Ok(value) => resolve_spec(
                raw@,
                cell_type@,
                style@,
                number,
                strings.deep_view(),
                *date_system,
            ) == Ok::<ValueModel, CellError>(value@),
            Err(e) => resolve_spec(raw@, cell_type@, style@, number, strings.deep_view(), *date_system)
                == Err::<ValueModel, CellError>(e),
        },
{
    if str_eq(cell_type, "s") {
        match look_up(strings, raw) {
            Some(s) => Ok(ExcelValue::String(Cow::Borrowed(s.as_str()))),
            None => Ok(ExcelValue::String(Cow::Owned(raw.to_owned()))),
        }
    } else if str_eq(cell_type, "str") || str_eq(cell_type, "inlineStr") {
        Ok(ExcelValue::String(Cow::Owned(raw.to_owned())))
    } else if str_eq(cell_type, "b") {
        Ok(ExcelValue::Bool(!str_eq(raw, "0")))
    } else if str_eq(cell_type, "bl") {
        Ok(ExcelValue::Empty)
    } else if str_eq(cell_type, "e") {
        Ok(ExcelValue::Error(raw.to_owned()))
    } else if style_is_date(style) {
        match number {
            None => Err(CellError::InvalidNumericLiteral),
            Some(n) => match serial_to_datetime(&n.serial, date_system) {
                Ok(DateConversion::Date(date)) => Ok(ExcelValue::Date(date)),
                Ok(DateConversion::DateTime(at)) => Ok(ExcelValue::DateTime(at)),
                Ok(DateConversion::Time(time)) => Ok(ExcelValue::Time(time)),
                Ok(DateConversion::Number(days)) => Ok(ExcelValue::Number(Number::Whole(days))),
                Err(_) => Err(CellError::InvalidDateSerial),
            },
        }
    } else {
        match number {
            None => Err(CellError::InvalidNumericLiteral),
            Some(n) => Ok(ExcelValue::Number(Number::Real(n.bits))),
        }
    }
}

} // verus!
