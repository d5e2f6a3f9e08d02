use std::borrow::Cow;
use xl::cell::{
    blank_cell, decode_reference, encode_reference, is_date, new_cell, used_area, Cell,
};
use xl::date::{Date, DateSystem, Serial, Time};
use xl::row::{empty_row, pad_row, Row};
use xl::text::{contains_char, contains_str, parse_unsigned, push_decimal, str_eq};
use xl::value::{resolve_value, style_is_date, CellError, ExcelValue, Number, Numeric};

fn numeric(n: f64) -> Option<Numeric> {
    let days = n.trunc() as i64;
    let millis = ((n - days as f64) * 86400000.0).round() as i64;
    Some(Numeric { bits: n.to_bits(), serial: Serial { days, millis } })
}

#[test]
fn an_address_names_a_column_and_a_row() {
    assert_eq!(decode_reference("A1"), Some((1, 1)));
    assert_eq!(decode_reference("C7"), Some((3, 7)));
    assert_eq!(decode_reference("XFD1048576"), Some((16384, 1048576)));
    assert_eq!(decode_reference("ab12"), Some((28, 12)));
    assert_eq!(decode_reference("A4294967295"), Some((1, u32::MAX)));
    assert_eq!(decode_reference("A007"), Some((1, 7)));
    assert_eq!(decode_reference("A0"), Some((1, 0)));
}

#[test]
fn an_address_with_a_part_amiss_names_nothing() {
    for bad in ["", "A", "7", "XFE1", "A4294967296", "A1B", "A 1", "A-1", "1A", "A1:B2", "\u{e9}1"] {
        assert_eq!(decode_reference(bad), None, "{bad}");
    }
}

#[test]
fn an_address_is_written_as_it_is_read() {
    assert_eq!(encode_reference(1, 1), "A1");
    assert_eq!(encode_reference(3, 7), "C7");
    assert_eq!(encode_reference(16384, 1048576), "XFD1048576");
    assert_eq!(encode_reference(27, 0), "AA0");
    assert_eq!(encode_reference(26, u32::MAX), "Z4294967295");
    for (col, row) in [(1, 1), (26, 10), (27, 99), (702, 100), (703, 65536), (16384, u32::MAX)] {
        assert_eq!(decode_reference(&encode_reference(col, row)), Some((col, row)));
    }
}

#[test]
fn a_cell_knows_its_coordinates() {
    let mut cell = new_cell();
    assert_eq!(cell.coordinates(), None);
    cell.reference.push_str("B3");
    assert_eq!(cell.coordinates(), Some((2, 3)));
    assert_eq!(blank_cell(5, 9).coordinates(), Some((5, 9)));
}

#[test]
fn a_new_cell_is_empty() {
    let cell: Cell = new_cell();
    assert_eq!(cell.value, ExcelValue::Empty);
    assert_eq!(cell.formula, "");
    assert_eq!(cell.reference, "");
    assert_eq!(cell.style, "");
    assert_eq!(cell.cell_type, "");
    assert_eq!(cell.raw_value, "");
    let blank = blank_cell(28, 4);
    assert_eq!(blank.value, ExcelValue::Empty);
    assert_eq!(blank.reference, "AB4");
    assert_eq!(blank.raw_value, "");
}

#[test]
fn a_used_range_declares_rows_and_columns() {
    assert_eq!(used_area("A1:C10"), Some((10, 3)));
    assert_eq!(used_area("B2:XFD1048576"), Some((1048576, 16384)));
    assert_eq!(used_area(":b2"), Some((2, 2)));
    assert_eq!(used_area("A1"), Some((0, 0)));
    assert_eq!(used_area(""), Some((0, 0)));
    assert_eq!(used_area("C10"), Some((0, 0)));
}

#[test]
fn a_used_range_that_is_no_range_declares_nothing_readable() {
    for bad in ["A1:", "A1:C", "A1:10", "A1:C10:D11", "A1:XFE1", "A1: C10"] {
        assert_eq!(used_area(bad), None, "{bad}");
    }
}

#[test]
fn an_empty_row_has_an_empty_cell_for_each_column() {
    let row: Row = empty_row(3, 7);
    assert_eq!(row.1, 7);
    assert_eq!(row.0.len(), 3);
    assert_eq!(row.0[0].reference, "A7");
    assert_eq!(row.0[1].reference, "B7");
    assert_eq!(row.0[2].reference, "C7");
    assert!(row.0.iter().all(|c| c.value == ExcelValue::Empty && c.raw_value.is_empty()));
    assert!(empty_row(0, 1).0.is_empty());
    assert_eq!(row[1].reference, "B7");
}

#[test]
fn a_row_is_filled_up_to_its_width() {
    let mut cells = vec![blank_cell(1, 2)];
    cells[0].raw_value.push_str("kept");
    pad_row(&mut cells, 3, 2);
    assert_eq!(cells.len(), 3);
    assert_eq!(cells[0].raw_value, "kept");
    assert_eq!(cells[1].reference, "B2");
    assert_eq!(cells[2].reference, "C2");
    pad_row(&mut cells, 2, 2);
    assert_eq!(cells.len(), 3);
    pad_row(&mut cells, 3, 2);
    assert_eq!(cells.len(), 3);
}

#[test]
fn a_format_with_d_m_or_y_makes_a_date() {
    assert!(style_is_date("d"));
    assert!(style_is_date("mm-dd-yy"));
    assert!(style_is_date("d-mmm"));
    assert!(style_is_date("h:mm"));
    assert!(style_is_date("yyyy"));
    assert!(style_is_date("[Red]m"));
    assert!(style_is_date("[Red]yy"));
    assert!(!style_is_date(""));
    assert!(!style_is_date("General"));
    assert!(!style_is_date("0.00"));
    assert!(!style_is_date("#,##0 ;[Red](#,##0)"));
    assert!(!style_is_date("[Red]d"));
    assert!(!style_is_date("D"));
    assert!(style_is_date("[red]d"));
    let mut cell = new_cell();
    assert!(!is_date(&cell));
    cell.style.push_str("d-mmm-yy");
    assert!(is_date(&cell));
}

#[test]
fn the_first_rule_that_fits_decides_the_value() {
    let strings = vec![String::from("zero"), String::from("one")];
    let v1900 = DateSystem::V1900;
    let resolve = |raw: &'static str, kind: &'static str, style: &'static str| {
        resolve_value(raw, kind, style, raw.parse::<f64>().ok().and_then(numeric), &strings, &v1900)
    };
    assert_eq!(resolve("1", "s", "d"), Ok(ExcelValue::String(Cow::Borrowed("one"))));
    assert_eq!(resolve("+1", "s", ""), Ok(ExcelValue::String(Cow::Borrowed("one"))));
    assert_eq!(resolve("2", "s", ""), Ok(ExcelValue::String(Cow::Borrowed("2"))));
    assert_eq!(resolve("1.0", "s", ""), Ok(ExcelValue::String(Cow::Borrowed("1.0"))));
    assert_eq!(resolve("", "s", ""), Ok(ExcelValue::String(Cow::Borrowed(""))));
    assert_eq!(resolve("7", "str", "d"), Ok(ExcelValue::String(Cow::Borrowed("7"))));
    assert_eq!(resolve("7", "inlineStr", "d"), Ok(ExcelValue::String(Cow::Borrowed("7"))));
    assert_eq!(resolve("0", "b", "d"), Ok(ExcelValue::Bool(false)));
    assert_eq!(resolve("00", "b", ""), Ok(ExcelValue::Bool(true)));
    assert_eq!(resolve("", "b", ""), Ok(ExcelValue::Bool(true)));
    assert_eq!(resolve("7", "bl", "d"), Ok(ExcelValue::Empty));
    assert_eq!(resolve("#N/A", "e", "d"), Ok(ExcelValue::Error(String::from("#N/A"))));
    assert_eq!(resolve("2", "", "d"), Ok(ExcelValue::Date(Date { year: 1900, month: 1, day: 2 })));
    assert_eq!(
        resolve("0.25", "n", "h:mm"),
        Ok(ExcelValue::Time(Time { hour: 6, minute: 0, second: 0, milli: 0 }))
    );
    assert_eq!(resolve("-693595", "", "d"), Ok(ExcelValue::Number(Number::Whole(-693595))));
    assert_eq!(resolve("60", "", "d"), Err(CellError::InvalidDateSerial));
    assert_eq!(resolve("x", "", "d"), Err(CellError::InvalidNumericLiteral));
    assert_eq!(resolve("x", "", ""), Err(CellError::InvalidNumericLiteral));
    assert_eq!(resolve("", "", ""), Err(CellError::InvalidNumericLiteral));
    assert_eq!(resolve("60", "", "0"), Ok(ExcelValue::Number(Number::Real(60f64.to_bits()))));
    assert_eq!(resolve("1", "S", ""), Ok(ExcelValue::Number(Number::Real(1f64.to_bits()))));
}

#[test]
fn a_shared_string_needs_a_table() {
    let got = resolve_value("0", "s", "", numeric(0.0), &[], &DateSystem::V1900);
    assert_eq!(got, Ok(ExcelValue::String(Cow::Borrowed("0"))));
}

#[test]
fn numbers_are_read_as_the_standard_library_reads_them() {
    for text in ["0", "7", "007", "+7", "255", "+0255", "256", "", "+", "-1", "-0", "1 ", " 1", "1_0", "0x1", "٣"] {
        assert_eq!(parse_unsigned(text, 255), text.parse::<u8>().ok().map(u64::from), "{text}");
    }
    for text in ["4294967295", "4294967296", "99999999999999999999999999", "18446744073709551615"] {
        let max = u32::MAX as u64;
        assert_eq!(parse_unsigned(text, max), text.parse::<u32>().ok().map(u64::from), "{text}");
        assert_eq!(parse_unsigned(text, u64::MAX), text.parse::<u64>().ok(), "{text}");
    }
    assert_eq!(parse_unsigned("18446744073709551616", u64::MAX), None);
    assert_eq!(parse_unsigned("0", 0), Some(0));
    assert_eq!(parse_unsigned("1", 0), None);
}

#[test]
fn numbers_are_written_in_base_ten() {
    for n in [0u64, 1, 9, 10, 11, 99, 100, 1048576, u32::MAX as u64, u64::MAX] {
        let mut out = vec!['n', '='];
        push_decimal(&mut out, n);
        let text: String = out.into_iter().collect();
        assert_eq!(text, format!("n={n}"));
        assert_eq!(parse_unsigned(&text[2..], u64::MAX), Some(n));
    }
}

#[test]
fn strings_are_searched_and_held_against_each_other() {
    assert!(str_eq("", ""));
    assert!(str_eq("row", "row"));
    assert!(!str_eq("row", "rows"));
    assert!(!str_eq("row", "Row"));
    assert!(str_eq("\u{e9}t\u{e9}", "\u{e9}t\u{e9}"));
    assert!(contains_char("mm-dd-yy", 'd'));
    assert!(!contains_char("mm-dd-yy", 'D'));
    assert!(!contains_char("", 'd'));
    assert!(contains_str("#,##0 ;[Red](#,##0)", "Red"));
    assert!(contains_str("Red", "Red"));
    assert!(contains_str("Red", ""));
    assert!(contains_str("", ""));
    assert!(!contains_str("Re", "Red"));
    assert!(!contains_str("Re-d", "Red"));
    assert!(contains_str("ReRed", "Red"));
}
