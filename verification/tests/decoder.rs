use std::borrow::Cow;
use xl::cell::Cell;
use xl::date::{Date, DateSystem, Serial, Time};
use xl::decoder::{DecodeError, Pull, RowIter};
use xl::event::{get, Attribute, XmlEvent};
use xl::row::Row;
use xl::value::{ExcelValue, Number, Numeric};

fn attrs(pairs: &[(&str, &str)]) -> Vec<Attribute> {
    pairs.iter().map(|(k, v)| Attribute { key: k.to_string(), value: v.to_string() }).collect()
}

fn start(name: &str, pairs: &[(&str, &str)]) -> XmlEvent {
    XmlEvent::Start { name: name.to_string(), attributes: attrs(pairs) }
}

fn empty(name: &str, pairs: &[(&str, &str)]) -> XmlEvent {
    XmlEvent::Empty { name: name.to_string(), attributes: attrs(pairs) }
}

fn end(name: &str) -> XmlEvent {
    XmlEvent::End { name: name.to_string() }
}

/// Text, with what it is as a number where it is one.
fn text(content: &str) -> XmlEvent {
    let number = content.parse::<f64>().ok().map(|n| {
        let days = n.trunc() as i64;
        let millis = ((n - days as f64) * 86400000.0).round() as i64;
        Numeric { bits: n.to_bits(), serial: Serial { days, millis } }
    });
    XmlEvent::Text { content: content.to_string(), number }
}

/// The events of a cell with a value.
fn cell(reference: &str, kind: &str, style: &str, value: &str) -> Vec<XmlEvent> {
    let mut pairs = vec![("r", reference)];
    if !kind.is_empty() {
        pairs.push(("t", kind));
    }
    if !style.is_empty() {
        pairs.push(("s", style));
    }
    vec![start("c", &pairs), start("v", &[]), text(value), end("v"), end("c")]
}

/// The events of a row with its cells.
fn row(number: &str, cells: Vec<Vec<XmlEvent>>) -> Vec<XmlEvent> {
    let mut events = vec![start("row", &[("r", number)])];
    for c in cells {
        events.extend(c);
    }
    events.push(end("row"));
    events
}

/// The events of a worksheet with its rows.
fn sheet(dimension: Option<&str>, rows: Vec<Vec<XmlEvent>>) -> Vec<XmlEvent> {
    let mut events = vec![start("worksheet", &[])];
    if let Some(range) = dimension {
        events.push(empty("dimension", &[("ref", range)]));
    }
    events.push(start("sheetData", &[]));
    for r in rows {
        events.extend(r);
    }
    events.push(end("sheetData"));
    events.push(end("worksheet"));
    events.push(XmlEvent::Eof);
    events
}

/// Runs a decoder over the events to the end, as a caller does.
fn decode<'a>(
    events: Vec<XmlEvent>,
    strings: &'a [String],
    styles: &'a [String],
    system: DateSystem,
) -> Result<Vec<Row<'a>>, DecodeError> {
    let mut decoder = RowIter::new(strings, styles, system);
    let mut events = events.into_iter();
    let mut rows = Vec::new();
    loop {
        match decoder.poll() {
            Pull::Row(row) => rows.push(row),
            Pull::Done => return Ok(rows),
            Pull::NeedEvent => decoder.feed(events.next().unwrap_or(XmlEvent::Eof))?,
        }
    }
}

fn plain(events: Vec<XmlEvent>) -> Vec<Row<'static>> {
    decode(events, &[], &[], DateSystem::V1900).unwrap()
}

fn number_of(n: f64) -> ExcelValue<'static> {
    ExcelValue::Number(Number::Real(n.to_bits()))
}

fn is_blank(cell: &Cell, reference: &str) -> bool {
    cell.value == ExcelValue::Empty
        && cell.formula.is_empty()
        && cell.reference == reference
        && cell.style.is_empty()
        && cell.cell_type.is_empty()
        && cell.raw_value.is_empty()
}

fn references(row: &Row) -> Vec<String> {
    row.0.iter().map(|c| c.reference.clone()).collect()
}

#[test]
fn rows_one_three_five_come_out_as_five_dense_rows() {
    let rows = plain(sheet(
        None,
        vec![
            row("1", vec![cell("A1", "", "", "1"), cell("C1", "", "", "3")]),
            row("3", vec![cell("A3", "", "", "7"), cell("B3", "", "", "8")]),
            row("5", vec![cell("B5", "", "", "14"), cell("C5", "", "", "15")]),
        ],
    ));
    assert_eq!(rows.len(), 5);
    for (i, row) in rows.iter().enumerate() {
        assert_eq!(row.1, i + 1);
        assert_eq!(row.0.len(), 3);
        let n = i + 1;
        assert_eq!(references(row), vec![format!("A{n}"), format!("B{n}"), format!("C{n}")]);
    }
    assert_eq!(rows[0].0[0].value, number_of(1.0));
    assert!(is_blank(&rows[0].0[1], "B1"));
    assert_eq!(rows[0].0[2].value, number_of(3.0));
    assert!(is_blank(&rows[1].0[0], "A2"));
    assert!(is_blank(&rows[1].0[1], "B2"));
    assert!(is_blank(&rows[1].0[2], "C2"));
    assert_eq!(rows[2].0[0].value, number_of(7.0));
    assert_eq!(rows[2].0[1].value, number_of(8.0));
    assert!(is_blank(&rows[2].0[2], "C3"));
    assert!(is_blank(&rows[3].0[0], "A4"));
    assert!(is_blank(&rows[3].0[1], "B4"));
    assert!(is_blank(&rows[3].0[2], "C4"));
    assert!(is_blank(&rows[4].0[0], "A5"));
    assert_eq!(rows[4].0[1].value, number_of(14.0));
    assert_eq!(rows[4].0[2].value, number_of(15.0));
}

#[test]
fn declared_rows_that_are_missing_come_out_empty_after_the_end() {
    let rows = plain(sheet(
        Some("A1:B10"),
        vec![
            row("1", vec![cell("A1", "", "", "1"), cell("B1", "", "", "2")]),
            row("2", vec![cell("A2", "", "", "3"), cell("B2", "", "", "4")]),
            row("3", vec![cell("A3", "", "", "5"), cell("B3", "", "", "6")]),
        ],
    ));
    assert_eq!(rows.len(), 10);
    assert_eq!(rows[0].0[1].value, number_of(2.0));
    assert_eq!(rows[1].0[0].value, number_of(3.0));
    assert_eq!(rows[2].0[1].value, number_of(6.0));
    for (i, row) in rows.iter().enumerate() {
        assert_eq!(row.1, i + 1);
        assert_eq!(row.0.len(), 2);
    }
    for n in 4..=10 {
        let row = &rows[n - 1];
        assert!(is_blank(&row.0[0], &format!("A{n}")));
        assert!(is_blank(&row.0[1], &format!("B{n}")));
    }
}

#[test]
fn a_shared_string_past_the_end_is_its_own_text() {
    let strings = vec![String::from("zero"), String::from("one")];
    let rows = decode(
        sheet(None, vec![row("1", vec![cell("A1", "s", "", "1"), cell("B1", "s", "", "2")])]),
        &strings,
        &[],
        DateSystem::V1900,
    )
    .unwrap();
    assert_eq!(rows.len(), 1);
    assert_eq!(rows[0].0[0].value, ExcelValue::String(Cow::Borrowed("one")));
    assert_eq!(rows[0].0[0].raw_value, "1");
    assert_eq!(rows[0].0[1].value, ExcelValue::String(Cow::Borrowed("2")));
    assert_eq!(rows[0].0[1].raw_value, "2");
}

#[test]
fn a_shared_string_that_is_no_number_is_its_own_text() {
    let strings = vec![String::from("zero")];
    let rows = decode(
        sheet(None, vec![row("1", vec![cell("A1", "s", "", "x"), cell("B1", "s", "", "-0")])]),
        &strings,
        &[],
        DateSystem::V1900,
    )
    .unwrap();
    assert_eq!(rows[0].0[0].value, ExcelValue::String(Cow::Borrowed("x")));
    assert_eq!(rows[0].0[1].value, ExcelValue::String(Cow::Borrowed("-0")));
}

#[test]
fn a_decoder_without_events_wants_one() {
    let mut decoder = RowIter::new(&[], &[], DateSystem::V1900);
    assert!(matches!(decoder.poll(), Pull::NeedEvent));
    assert!(matches!(decoder.poll(), Pull::NeedEvent));
}

#[test]
fn a_worksheet_without_rows_has_none() {
    assert!(plain(sheet(None, vec![])).is_empty());
    assert!(plain(vec![XmlEvent::Eof]).is_empty());
    assert!(plain(sheet(Some("A1"), vec![])).is_empty());
}

#[test]
fn a_declared_range_without_rows_comes_out_empty() {
    let rows = plain(sheet(Some("A1:C2"), vec![]));
    assert_eq!(rows.len(), 2);
    assert_eq!(references(&rows[0]), vec!["A1", "B1", "C1"]);
    assert_eq!(references(&rows[1]), vec!["A2", "B2", "C2"]);
    assert!(rows.iter().all(|r| r.0.iter().all(|c| c.value == ExcelValue::Empty)));
}

#[test]
fn a_decoder_that_is_done_stays_done() {
    let mut decoder = RowIter::new(&[], &[], DateSystem::V1900);
    assert!(matches!(decoder.poll(), Pull::NeedEvent));
    decoder.feed(XmlEvent::Eof).unwrap();
    assert!(matches!(decoder.poll(), Pull::Done));
    assert!(matches!(decoder.poll(), Pull::Done));
}

#[test]
fn the_row_read_ahead_waits_for_its_turn() {
    let mut decoder = RowIter::new(&[], &[], DateSystem::V1900);
    for event in row("3", vec![cell("B3", "", "", "5")]) {
        assert!(matches!(decoder.poll(), Pull::NeedEvent));
        decoder.feed(event).unwrap();
    }
    let mut numbers = Vec::new();
    let mut values = Vec::new();
    while let Pull::Row(row) = decoder.poll() {
        assert_eq!(row.0.len(), 2);
        numbers.push(row.1);
        values.push(row.0.into_iter().nth(1).unwrap().value);
    }
    assert_eq!(numbers, vec![1, 2, 3]);
    assert_eq!(values, vec![ExcelValue::Empty, ExcelValue::Empty, number_of(5.0)]);
    assert!(matches!(decoder.poll(), Pull::NeedEvent));
}

#[test]
fn a_wider_row_widens_the_rows_after_it() {
    let rows = plain(sheet(
        None,
        vec![
            row("1", vec![cell("A1", "", "", "1")]),
            row("2", vec![cell("D2", "", "", "2")]),
            row("3", vec![cell("A3", "", "", "3")]),
        ],
    ));
    let widths: Vec<usize> = rows.iter().map(|r| r.0.len()).collect();
    assert_eq!(widths, vec![1, 4, 4]);
    assert_eq!(references(&rows[1]), vec!["A2", "B2", "C2", "D2"]);
    assert_eq!(references(&rows[2]), vec!["A3", "B3", "C3", "D3"]);
}

#[test]
fn a_row_wider_than_the_declared_range_widens_the_worksheet() {
    let rows = plain(sheet(
        Some("A1:B3"),
        vec![row("1", vec![cell("C1", "", "", "1")]), row("2", vec![cell("A2", "", "", "2")])],
    ));
    let widths: Vec<usize> = rows.iter().map(|r| r.0.len()).collect();
    assert_eq!(widths, vec![3, 3, 3]);
}

#[test]
fn a_range_after_the_first_row_declares_nothing() {
    let mut events = row("1", vec![cell("A1", "", "", "1")]);
    events.push(empty("dimension", &[("ref", "A1:C9")]));
    events.push(XmlEvent::Eof);
    let rows = plain(events);
    assert_eq!(rows.len(), 1);
    assert_eq!(rows[0].0.len(), 1);
}

#[test]
fn a_range_that_cannot_be_read_declares_nothing() {
    let rows = plain(sheet(Some("A1:"), vec![row("1", vec![cell("A1", "", "", "1")])]));
    assert_eq!(rows.len(), 1);
    let rows = plain(sheet(Some("A1:7"), vec![]));
    assert!(rows.is_empty());
    let rows = plain(sheet(Some("A1:XFE7"), vec![]));
    assert!(rows.is_empty());
}

#[test]
fn cells_get_their_type_style_and_text() {
    let styles = vec![String::from("General"), String::from("0.00")];
    let rows = decode(
        sheet(None, vec![row("1", vec![cell("A1", "str", "1", "hello")])]),
        &[],
        &styles,
        DateSystem::V1900,
    )
    .unwrap();
    let cell = &rows[0].0[0];
    assert_eq!(cell.value, ExcelValue::String(Cow::Borrowed("hello")));
    assert_eq!(cell.reference, "A1");
    assert_eq!(cell.cell_type, "str");
    assert_eq!(cell.style, "0.00");
    assert_eq!(cell.raw_value, "hello");
    assert_eq!(cell.formula, "");
    assert_eq!(cell.coordinates(), Some((1, 1)));
}

#[test]
fn a_style_number_without_a_format_code_gives_no_style() {
    let styles = vec![String::from("mm-dd-yy")];
    let rows = decode(
        sheet(None, vec![row("1", vec![cell("A1", "", "1", "44197"), cell("B1", "", "x", "2")])]),
        &[],
        &styles,
        DateSystem::V1900,
    )
    .unwrap();
    assert_eq!(rows[0].0[0].style, "");
    assert_eq!(rows[0].0[0].value, number_of(44197.0));
    assert_eq!(rows[0].0[1].style, "");
}

#[test]
fn text_outside_the_value_is_the_formula() {
    let events = vec![
        start("row", &[("r", "1")]),
        start("c", &[("r", "A1")]),
        start("f", &[]),
        text("SUM("),
        text("B1:B9)"),
        end("f"),
        start("v", &[]),
        text("45"),
        end("v"),
        end("c"),
        end("row"),
        XmlEvent::Eof,
    ];
    let rows = plain(events);
    assert_eq!(rows[0].0[0].formula, "SUM(B1:B9)");
    assert_eq!(rows[0].0[0].value, number_of(45.0));
    assert_eq!(rows[0].0[0].raw_value, "45");
}

#[test]
fn an_inline_string_is_its_text() {
    let events = vec![
        start("row", &[("r", "1")]),
        start("c", &[("r", "A1"), ("t", "inlineStr")]),
        start("is", &[]),
        start("t", &[]),
        text("inline"),
        end("t"),
        end("is"),
        end("c"),
        end("row"),
        XmlEvent::Eof,
    ];
    let rows = plain(events);
    assert_eq!(rows[0].0[0].value, ExcelValue::String(Cow::Borrowed("inline")));
}

#[test]
fn cells_hold_what_their_type_says() {
    let rows = plain(sheet(
        None,
        vec![row(
            "1",
            vec![
                cell("A1", "b", "", "0"),
                cell("B1", "b", "", "1"),
                cell("C1", "b", "", "no"),
                cell("D1", "bl", "", "whatever"),
                cell("E1", "e", "", "#DIV/0!"),
                cell("F1", "n", "", "2.5"),
            ],
        )],
    ));
    let values: Vec<&ExcelValue> = rows[0].0.iter().map(|c| &c.value).collect();
    assert_eq!(*values[0], ExcelValue::Bool(false));
    assert_eq!(*values[1], ExcelValue::Bool(true));
    assert_eq!(*values[2], ExcelValue::Bool(true));
    assert_eq!(*values[3], ExcelValue::Empty);
    assert_eq!(*values[4], ExcelValue::Error(String::from("#DIV/0!")));
    assert_eq!(*values[5], number_of(2.5));
}

#[test]
fn a_date_style_makes_a_number_a_date() {
    let styles = vec![String::from("mm-dd-yy"), String::from("h:mm"), String::from("0.00")];
    let rows = decode(
        sheet(
            None,
            vec![row(
                "1",
                vec![
                    cell("A1", "", "0", "75"),
                    cell("B1", "", "1", "0.5"),
                    cell("C1", "", "0", "128.5625"),
                    cell("D1", "", "2", "75"),
                    cell("E1", "", "0", "-700000"),
                ],
            )],
        ),
        &[],
        &styles,
        DateSystem::V1900,
    )
    .unwrap();
    let c = &rows[0].0;
    assert_eq!(c[0].value, ExcelValue::Date(Date { year: 1900, month: 3, day: 15 }));
    assert_eq!(c[1].value, ExcelValue::Time(Time { hour: 12, minute: 0, second: 0, milli: 0 }));
    assert!(matches!(c[2].value, ExcelValue::DateTime(at) if at.date.month == 5 && at.time.hour == 13));
    assert_eq!(c[3].value, number_of(75.0));
    assert_eq!(c[4].value, ExcelValue::Number(Number::Whole(-700000)));
}

#[test]
fn a_cell_that_gives_no_value_is_an_error_and_the_row_goes_on() {
    let styles = vec![String::from("mm-dd-yy")];
    let rows = decode(
        sheet(
            None,
            vec![row(
                "1",
                vec![
                    cell("A1", "", "", "abc"),
                    cell("B1", "", "0", "60"),
                    cell("C1", "", "0", "soon"),
                    cell("D1", "", "", "4"),
                ],
            )],
        ),
        &[],
        &styles,
        DateSystem::V1900,
    )
    .unwrap();
    let c = &rows[0].0;
    assert_eq!(c[0].value, ExcelValue::Error(String::from("#VALUE!")));
    assert_eq!(c[0].raw_value, "abc");
    assert_eq!(c[1].value, ExcelValue::Error(String::from("#NUM!")));
    assert_eq!(c[2].value, ExcelValue::Error(String::from("#VALUE!")));
    assert_eq!(c[3].value, number_of(4.0));
}

#[test]
fn serial_sixty_is_a_day_in_the_1904_system() {
    let styles = vec![String::from("mm-dd-yy")];
    let rows = decode(
        sheet(None, vec![row("1", vec![cell("A1", "", "0", "60")])]),
        &[],
        &styles,
        DateSystem::V1904,
    )
    .unwrap();
    assert_eq!(rows[0].0[0].value, ExcelValue::Date(Date { year: 1904, month: 3, day: 1 }));
}

#[test]
fn empty_tags_of_rows_and_cells_say_nothing() {
    let events = vec![
        empty("row", &[("r", "1")]),
        start("row", &[("r", "2")]),
        empty("c", &[("r", "A2"), ("s", "3")]),
        start("c", &[("r", "B2")]),
        start("v", &[]),
        text("9"),
        end("v"),
        end("c"),
        end("row"),
        XmlEvent::Eof,
    ];
    let rows = plain(events);
    assert_eq!(rows.len(), 2);
    assert!(is_blank(&rows[0].0[0], "A1"));
    assert!(is_blank(&rows[0].0[1], "B1"));
    assert!(is_blank(&rows[1].0[0], "A2"));
    assert_eq!(rows[1].0[1].value, number_of(9.0));
}

#[test]
fn a_row_that_is_still_open_at_the_end_is_given_up() {
    let events = vec![
        start("row", &[("r", "1")]),
        start("c", &[("r", "A1")]),
        start("v", &[]),
        text("9"),
        end("v"),
        end("c"),
        XmlEvent::Eof,
    ];
    assert!(plain(events).is_empty());
}

fn fails_with(events: Vec<XmlEvent>, error: DecodeError) -> bool {
    decode(events, &[], &[], DateSystem::V1900).err() == Some(error)
}

#[test]
fn a_row_needs_its_number() {
    assert!(fails_with(vec![start("row", &[])], DecodeError::MissingRowNumber));
    assert!(fails_with(vec![start("row", &[("r", "one")])], DecodeError::MissingRowNumber));
    assert!(fails_with(vec![start("row", &[("r", "4294967296")])], DecodeError::MissingRowNumber));
    assert!(fails_with(vec![start("row", &[("r", "")])], DecodeError::MissingRowNumber));
}

#[test]
fn rows_come_in_order() {
    let mut events = row("2", vec![]);
    events.extend(row("2", vec![]));
    assert!(fails_with(events, DecodeError::RowOutOfOrder));
    let mut events = row("2", vec![]);
    events.extend(row("1", vec![]));
    assert!(fails_with(events, DecodeError::RowOutOfOrder));
    assert!(fails_with(row("0", vec![]), DecodeError::RowOutOfOrder));
}

#[test]
fn a_cell_needs_an_address() {
    let bad = |reference: &str| {
        fails_with(row("1", vec![cell(reference, "", "", "1")]), DecodeError::InvalidReference)
    };
    assert!(bad(""));
    assert!(bad("A"));
    assert!(bad("1"));
    assert!(bad("XFE1"));
    assert!(bad("A1:B2"));
    assert!(bad("A-1"));
    assert!(bad("A 1"));
    let events = vec![start("row", &[("r", "1")]), start("c", &[]), end("c")];
    assert!(fails_with(events, DecodeError::InvalidReference));
}

#[test]
fn a_cell_stands_in_its_row_after_the_cells_before_it() {
    assert!(fails_with(row("1", vec![cell("A2", "", "", "1")]), DecodeError::CellMisplaced));
    assert!(fails_with(
        row("1", vec![cell("B1", "", "", "1"), cell("A1", "", "", "2")]),
        DecodeError::CellMisplaced
    ));
    assert!(fails_with(
        row("1", vec![cell("B1", "", "", "1"), cell("B1", "", "", "2")]),
        DecodeError::CellMisplaced
    ));
}

#[test]
fn rows_and_cells_open_and_close_in_their_place() {
    let error = DecodeError::UnexpectedTag;
    assert!(fails_with(vec![start("row", &[("r", "1")]), start("row", &[("r", "2")])], error));
    assert!(fails_with(vec![start("c", &[("r", "A1")])], error));
    assert!(fails_with(vec![end("c")], error));
    assert!(fails_with(vec![end("row")], error));
    assert!(fails_with(
        vec![start("row", &[("r", "1")]), start("c", &[("r", "A1")]), start("c", &[("r", "B1")])],
        error
    ));
}

#[test]
fn nothing_comes_after_an_error() {
    let mut decoder = RowIter::new(&[], &[], DateSystem::V1900);
    for event in row("2", vec![cell("A2", "", "", "1")]) {
        assert!(matches!(decoder.poll(), Pull::NeedEvent));
        decoder.feed(event).unwrap();
    }
    assert!(matches!(decoder.poll(), Pull::Row(_)));
    assert!(matches!(decoder.poll(), Pull::Row(_)));
    assert!(matches!(decoder.poll(), Pull::NeedEvent));
    assert_eq!(decoder.feed(end("row")), Err(DecodeError::UnexpectedTag));
    assert!(matches!(decoder.poll(), Pull::Done));
    assert!(matches!(decoder.poll(), Pull::Done));
}

#[test]
fn addresses_are_read_without_regard_to_case_and_sign() {
    let rows = plain(sheet(None, vec![row("+2", vec![cell("b+2", "", "", "1")])]));
    assert_eq!(rows.len(), 2);
    assert_eq!(rows[1].0[1].reference, "b+2");
    assert_eq!(rows[1].0[1].coordinates(), Some((2, 2)));
}

#[test]
fn get_finds_the_first_attribute_of_a_key() {
    let list = attrs(&[("r", "A1"), ("t", "s"), ("r", "B1")]);
    assert_eq!(get(&list, "r"), Some("A1"));
    assert_eq!(get(&list, "t"), Some("s"));
    assert_eq!(get(&list, "s"), None);
    assert_eq!(get(&[], "r"), None);
}

#[test]
fn the_last_column_is_the_widest_a_row_gets() {
    let rows = plain(sheet(None, vec![row("1", vec![cell("XFD1", "", "", "1")])]));
    assert_eq!(rows[0].0.len(), 16384);
    assert_eq!(rows[0].0[16383].value, number_of(1.0));
    assert_eq!(rows[0].0[16382].reference, "XFC1");
    assert_eq!(rows[0].0[701].reference, "ZZ1");
    assert_eq!(rows[0].0[702].reference, "AAA1");
}
