use xl::date::DateSystem;
use xl::decoder::Pull;
use xl::event::{Attribute, XmlEvent};
use xl::table::StringMap;
use xl::workbook::{
    get_date_system, read_relationship, read_shared_string, sheet_target, standard_styles,
    SheetAccessTrait, SheetMap, SheetNameOrNum, StyleTable, WorkbookError, Worksheet,
};

fn empty(name: &str, pairs: &[(&str, &str)]) -> XmlEvent {
    XmlEvent::Empty {
        name: name.to_string(),
        attributes: pairs
            .iter()
            .map(|(k, v)| Attribute { key: k.to_string(), value: v.to_string() })
            .collect(),
    }
}

fn start(name: &str, pairs: &[(&str, &str)]) -> XmlEvent {
    XmlEvent::Start {
        name: name.to_string(),
        attributes: pairs
            .iter()
            .map(|(k, v)| Attribute { key: k.to_string(), value: v.to_string() })
            .collect(),
    }
}

fn text(content: &str) -> XmlEvent {
    XmlEvent::Text { content: content.to_string(), number: None }
}

/// The sheets of a small workbook: four of them, the third named `Time`.
fn book() -> SheetMap {
    let mut rels = StringMap::new();
    for (id, target) in [
        ("rId1", "worksheets/sheet1.xml"),
        ("rId2", "worksheets/sheet2.xml"),
        ("rId3", "worksheets/sheet3.xml"),
        ("rId4", "/xl/worksheets/sheet4.xml"),
        ("rId5", "theme/theme1.xml"),
    ] {
        read_relationship(&mut rels, &empty("Relationship", &[("Id", id), ("Target", target)]));
    }
    let mut sheets = SheetMap::new();
    for (name, id, sheet_id) in
        [("Sheet1", "rId1", "1"), ("Sheet2", "rId2", "2"), ("Time", "rId3", "7"), ("Last", "rId4", "300")]
    {
        let event = empty("sheet", &[("name", name), ("sheetId", sheet_id), ("r:id", id)]);
        sheets.read(&rels, &event).unwrap();
    }
    sheets
}

#[test]
fn sxl_all_sheets() {
    let num_sheets = book().len();
    assert_eq!(num_sheets, 4);
}

#[test]
fn sxl_sheet_by_name_exists() {
    let sheets = book();
    assert!(sheets.get("Time").is_some());
}

#[test]
fn sxl_sheet_by_num_exists() {
    let sheets = book();
    assert!(sheets.get(1).is_some());
}

#[test]
fn sxl_sheet_by_name_not_exists() {
    let sheets = book();
    assert!(!sheets.get("Unknown").is_some());
}

#[test]
fn sxl_sheet_by_num_not_exists() {
    let sheets = book();
    assert!(!sheets.get(0).is_some());
}

#[test]
fn sxl_correct_sheet_name() {
    let sheets = book();
    assert_eq!(sheets.get("Time").unwrap().name, "Time");
}

#[test]
fn wb_all_sheets() {
    let num_sheets = book().len();
    assert_eq!(num_sheets, 4);
}

#[test]
fn wb_sheet_by_name_exists() {
    let sheets = book();
    assert!(sheets.get("Time").is_some());
}

#[test]
fn wb_sheet_by_num_exists() {
    let sheets = book();
    assert!(sheets.get(1).is_some());
}

#[test]
fn wb_sheet_by_name_not_exists() {
    let sheets = book();
    assert!(!sheets.get("Unknown").is_some());
}

#[test]
fn wb_sheet_by_num_not_exists() {
    let sheets = book();
    assert!(!sheets.get(0).is_some());
}

#[test]
fn wb_correct_sheet_name() {
    let sheets = book();
    assert_eq!(sheets.get("Time").unwrap().name, "Time");
}

#[test]
fn all_sheets_are_counted() {
    assert_eq!(book().len(), 4);
    assert_eq!(SheetMap::new().len(), 0);
}

#[test]
fn a_sheet_is_found_by_its_name() {
    let sheets = book();
    assert!(sheets.get("Time").is_some());
    assert_eq!(sheets.get("Time").unwrap().name, "Time");
    assert_eq!(sheets.get("Time").unwrap().position, 3);
    assert!(sheets.get("Unknown").is_none());
    assert!(sheets.get("time").is_none());
}

#[test]
fn a_sheet_is_found_by_its_position_from_one() {
    let sheets = book();
    assert!(sheets.get(1).is_some());
    assert_eq!(sheets.get(1).unwrap().name, "Sheet1");
    assert_eq!(sheets.get(4).unwrap().name(), "Last");
    assert!(sheets.get(0).is_none());
    assert!(sheets.get(5).is_none());
    assert!(sheets.get(usize::MAX).is_none());
}

#[test]
fn the_names_come_in_the_order_of_the_sheets() {
    assert_eq!(book().by_name(), vec!["Sheet1", "Sheet2", "Time", "Last"]);
    assert_eq!(book().by_name()[2], "Time");
    assert!(SheetMap::new().by_name().is_empty());
}

#[test]
fn a_name_means_the_later_of_two_sheets() {
    let mut sheets = SheetMap::new();
    assert!(sheets.add("a".into(), "Twin".into(), "xl/a.xml".into(), 1));
    assert!(sheets.add("b".into(), "Twin".into(), "xl/b.xml".into(), 2));
    assert!(sheets.add("c".into(), "Other".into(), "xl/c.xml".into(), 3));
    let found = sheets.get("Twin").unwrap();
    assert_eq!(found.position(), 2);
    assert_eq!(found.relationship_id(), "b");
    assert_eq!(found.target(), "xl/b.xml");
    assert_eq!(found.sheet_id(), 2);
}

#[test]
fn a_sheet_knows_where_its_rows_are() {
    let sheets = book();
    assert_eq!(sheets.get(1).unwrap().target(), "xl/worksheets/sheet1.xml");
    assert_eq!(sheets.get(4).unwrap().target(), "xl/worksheets/sheet4.xml");
    assert_eq!(sheets.get(3).unwrap().sheet_id(), 7);
    assert_eq!(sheets.get(4).unwrap().sheet_id(), 0);
    assert_eq!(sheets.get(3).unwrap().relationship_id(), "rId3");
}

#[test]
fn a_sheet_needs_its_relationship() {
    let mut sheets = SheetMap::new();
    let rels = StringMap::new();
    let event = empty("sheet", &[("name", "Lost"), ("sheetId", "1"), ("r:id", "rId9")]);
    assert_eq!(sheets.read(&rels, &event), Err(WorkbookError::MissingRelationship));
    assert_eq!(sheets.len(), 0);
    assert_eq!(sheets.read(&rels, &start("sheet", &[])), Ok(()));
    assert_eq!(sheets.read(&rels, &empty("sheets", &[])), Ok(()));
    assert_eq!(sheets.len(), 0);
}

#[test]
fn a_sheet_map_holds_255_sheets() {
    let mut sheets = SheetMap::new();
    for n in 1..=255 {
        assert!(sheets.add(String::new(), format!("S{n}"), String::new(), 0));
    }
    assert!(!sheets.add(String::new(), String::from("S256"), String::new(), 0));
    assert_eq!(sheets.len(), 255);
    assert_eq!(sheets.get(255).unwrap().position, 255);
    assert!(sheets.get("S256").is_none());
    let mut rels = StringMap::new();
    rels.insert(String::new(), String::from("x"));
    assert_eq!(sheets.read(&rels, &empty("sheet", &[])), Err(WorkbookError::TooManySheets));
}

#[test]
fn a_worksheet_is_made_of_its_parts() {
    let ws = Worksheet::new("rId1".into(), "Data".into(), 3, "xl/worksheets/sheet3.xml".into(), 9);
    assert_eq!(ws.name, "Data");
    assert_eq!(ws.position, 3);
    assert_eq!(ws.name(), "Data");
    assert_eq!(ws.position(), 3);
    assert_eq!(ws.relationship_id(), "rId1");
    assert_eq!(ws.target(), "xl/worksheets/sheet3.xml");
    assert_eq!(ws.sheet_id(), 9);
    let mut rows = ws.rows(&[], &[], DateSystem::V1904);
    assert!(matches!(rows.poll(), Pull::NeedEvent));
}

#[test]
fn a_selector_is_a_name_or_a_position() {
    assert!(matches!("Time".go(), SheetNameOrNum::Name("Time")));
    assert!(matches!(3usize.go(), SheetNameOrNum::Pos(3)));
}

#[test]
fn targets_lie_under_xl_unless_they_start_at_the_root() {
    assert_eq!(sheet_target("worksheets/sheet1.xml"), "xl/worksheets/sheet1.xml");
    assert_eq!(sheet_target("/xl/worksheets/sheet1.xml"), "xl/worksheets/sheet1.xml");
    assert_eq!(sheet_target(""), "xl/");
    assert_eq!(sheet_target("/"), "");
    assert_eq!(sheet_target("//x"), "/x");
}

#[test]
fn a_relationship_relates_its_id_to_its_target() {
    let mut rels = StringMap::new();
    read_relationship(&mut rels, &empty("Relationship", &[("Id", "rId1"), ("Target", "a.xml")]));
    read_relationship(&mut rels, &empty("Relationship", &[("Id", "rId2")]));
    read_relationship(&mut rels, &empty("Relationships", &[("Id", "rId3"), ("Target", "c.xml")]));
    read_relationship(&mut rels, &start("Relationship", &[("Id", "rId4"), ("Target", "d.xml")]));
    read_relationship(&mut rels, &empty("Relationship", &[("Id", "rId1"), ("Target", "b.xml")]));
    assert_eq!(rels.get("rId1"), Some("b.xml"));
    assert_eq!(rels.get("rId2"), Some(""));
    assert_eq!(rels.get("rId3"), None);
    assert_eq!(rels.get("rId4"), None);
    assert!(rels.contains_key("rId2"));
    assert!(!rels.contains_key("rId4"));
}

#[test]
fn the_standard_styles_are_the_standard_ones() {
    let styles = standard_styles();
    assert_eq!(styles.get("0"), Some("General"));
    assert_eq!(styles.get("14"), Some("mm-dd-yy"));
    assert_eq!(styles.get("22"), Some("m/d/yy h:mm"));
    assert_eq!(styles.get("38"), Some("#,##0 ;[Red](#,##0)"));
    assert_eq!(styles.get("49"), Some("@"));
    assert_eq!(styles.get("5"), None);
    assert_eq!(styles.get("50"), None);
    let known = (0..100).filter(|n| styles.contains_key(&n.to_string())).count();
    assert_eq!(known, 28);
}

#[test]
fn styles_get_the_format_codes_of_their_numbers() {
    let mut table = StyleTable::new();
    let events = [
        empty("numFmt", &[("numFmtId", "164"), ("formatCode", "yyyy-mm-dd")]),
        empty("numFmt", &[("numFmtId", "2"), ("formatCode", "0.0000")]),
        start("xf", &[("numFmtId", "0")]),
        start("xf", &[("numFmtId", "164")]),
        start("xf", &[("numFmtId", "999")]),
        empty("xf", &[("numFmtId", "14")]),
        start("xf", &[("numFmtId", "2")]),
        start("font", &[]),
        text("x"),
        XmlEvent::Eof,
    ];
    for event in &events {
        assert_eq!(table.read(event), Ok(()));
    }
    assert_eq!(table.into_styles(), vec!["General", "yyyy-mm-dd", "0.0000"]);
}

#[test]
fn styles_need_their_attributes() {
    let mut table = StyleTable::new();
    let error = Err(WorkbookError::MissingAttribute);
    assert_eq!(table.read(&empty("numFmt", &[("numFmtId", "164")])), error);
    assert_eq!(table.read(&empty("numFmt", &[("formatCode", "0")])), error);
    assert_eq!(table.read(&start("xf", &[("fontId", "0")])), error);
    assert_eq!(table.read(&start("xf", &[("numFmtId", "164")])), Ok(()));
    assert!(table.into_styles().is_empty());
}

#[test]
fn shared_strings_come_in_their_order() {
    let mut strings = Vec::new();
    read_shared_string(&mut strings, start("sst", &[]));
    read_shared_string(&mut strings, start("si", &[]));
    read_shared_string(&mut strings, start("t", &[]));
    read_shared_string(&mut strings, text("first"));
    read_shared_string(&mut strings, empty("t", &[]));
    read_shared_string(&mut strings, empty("si", &[]));
    read_shared_string(&mut strings, text("third"));
    read_shared_string(&mut strings, XmlEvent::Eof);
    assert_eq!(strings, vec!["first", "", "third"]);
}

#[test]
fn the_date_system_is_1904_only_where_the_workbook_says_so() {
    assert_eq!(
        get_date_system(&empty("workbookPr", &[("date1904", "1")])),
        Some(DateSystem::V1904)
    );
    assert_eq!(
        get_date_system(&empty("workbookPr", &[("date1904", "0")])),
        Some(DateSystem::V1900)
    );
    assert_eq!(
        get_date_system(&empty("workbookPr", &[("date1904", "true")])),
        Some(DateSystem::V1900)
    );
    assert_eq!(get_date_system(&empty("workbookPr", &[])), Some(DateSystem::V1900));
    assert_eq!(get_date_system(&XmlEvent::Eof), Some(DateSystem::V1900));
    assert_eq!(get_date_system(&start("workbookPr", &[("date1904", "1")])), None);
    assert_eq!(get_date_system(&empty("sheet", &[("date1904", "1")])), None);
    assert_eq!(get_date_system(&text("1")), None);
}

#[test]
fn a_table_keeps_the_last_value_of_a_key() {
    let mut table = StringMap::new();
    assert_eq!(table.get("a"), None);
    table.insert("a".into(), "1".into());
    table.insert("b".into(), "2".into());
    table.insert("a".into(), "3".into());
    assert_eq!(table.get("a"), Some("3"));
    assert_eq!(table.get("b"), Some("2"));
    assert_eq!(table.get(""), None);
    assert!(table.contains_key("a"));
    assert!(!table.contains_key("c"));
}
