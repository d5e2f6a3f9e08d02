//! The worksheets of a workbook.

use vstd::prelude::*;
use crate::date::DateSystem;
use crate::decoder::{DecoderModel, RowIter};
use crate::event::{attr_get, get, EventModel, XmlEvent};
use crate::table::StringMap;
use crate::text::{chars_of, parse_unsigned, parse_unsigned_spec, str_eq, string_of};

verus! {

/// The Worksheet is the primary object in this module since this is where
/// most of the valuable data is. See the methods below for how to use.
#[derive(Debug)]
pub struct Worksheet {
    pub name: String,
    pub position: u8,
    relationship_id: String,
    /// location where we can find this worksheet in its xlsx file
    target: String,
    sheet_id: u8,
}

/// What a `Worksheet` holds, with text as its characters.
pub struct WorksheetModel {
    pub name: Seq<char>,
    pub position: u8,
    pub relationship_id: Seq<char>,
    pub target: Seq<char>,
    pub sheet_id: u8,
}

impl View for Worksheet {
    type V = WorksheetModel;

    closed spec fn view(&self) -> WorksheetModel {
        WorksheetModel {
            name: self.name@,
            position: self.position,
            relationship_id: self.relationship_id@,
            target: self.target@,
            sheet_id: self.sheet_id,
        }
    }
}

impl Worksheet {
    /// Create a new worksheet. Note that this method will probably not be
    /// called directly. Instead, you'll normally get a worksheet from a
    /// `SheetMap`.
    pub fn new(
        relationship_id: String,
        name: String,
        position: u8,
        target: String,
        sheet_id: u8,
    ) -> (r: Self)
        ensures
            r@ == (WorksheetModel {
                name: name@,
                position,
                relationship_id: relationship_id@,
                target: target@,
                sheet_id,
            }),
    {
        Worksheet { name, position, relationship_id, target, sheet_id }
    }

    /// The name of the worksheet.
    pub fn name(&self) -> (r: &str)
        ensures
            r@ == self@.name,
    {
        self.name.as_str()
    }

    /// The place of the worksheet among the sheets of its workbook, from 1.
    pub fn position(&self) -> (r: u8)
        ensures
            r == self@.position,
    {
        self.position
    }

    /// The identifier under which the workbook relates to the worksheet.
    pub fn relationship_id(&self) -> (r: &str)
        ensures
            r@ == self@.relationship_id,
    {
        self.relationship_id.as_str()
    }

    /// The path of the rows of the worksheet inside the workbook file.
    pub fn target(&self) -> (r: &str)
        ensures
            r@ == self@.target,
    {
        self.target.as_str()
    }

    /// The identifier that the workbook declares for the worksheet.
    pub fn sheet_id(&self) -> (r: u8)
        ensures
            r == self@.sheet_id,
    {
        self.sheet_id
    }

    /// Obtain a `RowIter` for this worksheet, with the shared strings, the
    /// format codes and the date system of its workbook. This is, arguably,
    /// the main part of the library: the `RowIter` rebuilds the rows of the
    /// worksheet from the events of its markup, which the caller reads at
    /// `target`.
    pub fn rows<'a>(
        &self,
        strings: &'a [String],
        styles: &'a [String],
        date_system: DateSystem,
    ) -> (r: RowIter<'a>)
        ensures
            r@ == DecoderModel::start(strings.deep_view(), styles.deep_view(), date_system),
            r@.wf(),
    {
        RowIter::new(strings, styles, date_system)
    }
}

/// Struct to let you refer to sheets by name or by position (1-based).
pub enum SheetNameOrNum<'a> {
    Name(&'a str),
    Pos(usize),
}

/// What a `SheetNameOrNum` holds, with a name as its characters.
pub enum SheetSelector {
    Name(Seq<char>),
    Pos(usize),
}

impl<'a> View for SheetNameOrNum<'a> {
    type V = SheetSelector;

    open spec fn view(&self) -> SheetSelector {
        match self {
            SheetNameOrNum::Name(n) => SheetSelector::Name(n@),
            SheetNameOrNum::Pos(p) => SheetSelector::Pos(*p),
        }
    }
}

/// Trait to make it easy to use `get` when trying to get a sheet. You will
/// probably not use this trait directly.
pub trait SheetAccessTrait {
    /// The sheet that `self` asks for.
    spec fn selector(&self) -> SheetSelector;

    fn go(&self) -> (r: SheetNameOrNum<'_>)
        ensures
            r@ == self.selector(),
    ;
}

impl SheetAccessTrait for &str {
    open spec fn selector(&self) -> SheetSelector {
        SheetSelector::Name(self@)
    }

    fn go(&self) -> (r: SheetNameOrNum<'_>) {
        SheetNameOrNum::Name(*self)
    }
}

impl SheetAccessTrait for usize {
    open spec fn selector(&self) -> SheetSelector {
        SheetSelector::Pos(*self)
    }

    fn go(&self) -> (r: SheetNameOrNum<'_>) {
        SheetNameOrNum::Pos(*self)
    }
}

/// A `SheetMap` is an object containing all the sheets in a given workbook.
///
/// The sheets stand at their positions, which start at 1: at position 0
/// there is never a sheet. Where two sheets have one name, the name means
/// the later of them.
#[derive(Debug)]
pub struct SheetMap {
    sheets_by_num: Vec<Option<Worksheet>>,
}

/// The sheets of `sheets` as what they hold.
pub open spec fn sheet_models(sheets: Seq<Option<Worksheet>>) -> Seq<Option<WorksheetModel>> {
    Seq::new(
        sheets.len(),
        |i: int|
            match sheets[i] {
                Some(ws) => Some(ws@),
                None => None,
            },
    )
}

/// The last sheet of `sheets` whose name is `name`.
pub open spec fn find_name(sheets: Seq<Option<WorksheetModel>>, name: Seq<char>) -> Option<
    WorksheetModel,
>
    decreases sheets.len(),
{
    if sheets.len() == 0 {
        None
    } else if sheets.last() is Some && sheets.last()->0.name == name {
        sheets.last()
    } else {
        find_name(sheets.drop_last(), name)
    }
}

/// The sheet of `sheets` that `selector` asks for: the last of that name,
/// or the one at that position.
pub open spec fn find_sheet(sheets: Seq<Option<WorksheetModel>>, selector: SheetSelector) -> Option<
    WorksheetModel,
> {
    match selector {
        SheetSelector::Name(name) => find_name(sheets, name),
        SheetSelector::Pos(at) => if at < sheets.len() {
            sheets[at as int]
        } else {
            None
        },
    }
}

/// The names of the sheets of `sheets`, in their order.
pub open spec fn sheet_names(sheets: Seq<Option<WorksheetModel>>) -> Seq<Seq<char>>
    decreases sheets.len(),
{
    if sheets.len() == 0 {
        Seq::empty()
    } else {
        match sheets.last() {
            Some(ws) => sheet_names(sheets.drop_last()).push(ws.name),
            None => sheet_names(sheets.drop_last()),
        }
    }
}

/// The most sheets that a `SheetMap` holds.
pub const MAX_SHEETS: usize = 255;

impl View for SheetMap {
    type V = Seq<Option<WorksheetModel>>;

    closed spec fn view(&self) -> Seq<Option<WorksheetModel>> {
        sheet_models(self.sheets_by_num@)
    }
}

impl SheetMap {
    /// What holds of every `SheetMap`: nothing stands at position 0, and at
    /// each position after it stands a sheet that knows its position.
    pub open spec fn wf(&self) -> bool {
        &&& 1 <= self@.len() <= MAX_SHEETS + 1
        &&& self@[0] is None
        &&& forall|i: int|
            1 <= i < self@.len() ==> (#[trigger] self@[i]) is Some && self@[i]->0.position == i
    }

    /// A `SheetMap` without sheets.
    pub fn new() -> (r: Self)
        ensures
            r.wf(),
            r@ == seq![None::<WorksheetModel>],
    {
        let mut sheets_by_num: Vec<Option<Worksheet>> = Vec::new();
        sheets_by_num.push(None);  // never a "0" sheet (consistent with VBA)
        let r = SheetMap { sheets_by_num };
        assert(r@ =~= seq![None::<WorksheetModel>]);
        r
    }

    /// Adds a sheet after the sheets that are there; it gets the next
    /// position. A map that is full stays as it is and says so.
    pub fn add(&mut self, relationship_id: String, name: String, target: String, sheet_id: u8) -> (r:
        bool)
        requires
            old(self).wf(),
        ensures
            final(self).wf(),
            r == (old(self)@.len() <= MAX_SHEETS),
            r ==> final(self)@ == old(self)@.push(
                Some(
                    WorksheetModel {
                        name: name@,
                        position: old(self)@.len() as u8,
                        relationship_id: relationship_id@,
                        target: target@,
                        sheet_id,
                    },
                ),
            ),
            !r ==> final(self)@ == old(self)@,
    {
        if self.sheets_by_num.len() > MAX_SHEETS {
            return false;
        }
        let position = self.sheets_by_num.len() as u8;
        let ws = Worksheet::new(relationship_id, name, position, target, sheet_id);
        let ghost before = self@;
        self.sheets_by_num.push(Some(ws));
        assert(self@ =~= before.push(Some(ws@)));
        true
    }

    /// After you obtain a `SheetMap`, `by_name` gives you a list of sheets in
    /// the `SheetMap` ordered by their position in the workbook.
    ///
    /// Note that the returned array is **ZERO** based rather than **ONE**
    /// based like `get`.
    pub fn by_name(&self) -> (r: Vec<&str>)
        ensures
            r.deep_view() == sheet_names(self@),
    {
        let mut names: Vec<&str> = Vec::new();
        let mut i: usize = 0;
        while i < self.sheets_by_num.len()
            invariant
                i <= self.sheets_by_num.len(),
                names.deep_view() == sheet_names(self@.subrange(0, i as int)),
            decreases self.sheets_by_num.len() - i,
        {
            let ghost before = names.deep_view();
            proof {
                let next = self@.subrange(0, i + 1);
                assert(next.drop_last() =~= self@.subrange(0, i as int));
                assert(next.last() == self@[i as int]);
            }
            if let Some(ws) = &self.sheets_by_num[i] {
                names.push(ws.name.as_str());
                assert(names.deep_view() =~= before.push(ws.name@));
            }
            i += 1;
        }
        assert(self@.subrange(0, self@.len() as int) =~= self@);
        names
    }

    /// An easy way to obtain a reference to a `Worksheet` within this
    /// `Workbook`. Note that we return an `Option` because the sheet you want
    /// may not exist in the workbook. Also note that when you try to `get` a
    /// worksheet by number (i.e., by its position within the workbook), the
    /// tabs use **1-based indexing** rather than 0-based indexing (like the
    /// rest of Rust and most of the programming world).
    pub fn get<T: SheetAccessTrait>(&self, sheet: T) -> (r: Option<&Worksheet>)
        ensures
            match r {
                Some(ws) => find_sheet(self@, sheet.selector()) == Some(ws@),
                None => find_sheet(self@, sheet.selector()) is None,
            },
    {
        let wanted = sheet.go();
        match wanted {
            SheetNameOrNum::Name(n) => {
                let mut i: usize = self.sheets_by_num.len();
                assert(self@.subrange(0, i as int) =~= self@);
                while i > 0
                    invariant
                        i <= self.sheets_by_num.len(),
                        sheet.selector() == SheetSelector::Name(n@),
                        find_name(self@, n@) == find_name(self@.subrange(0, i as int), n@),
                    decreases i,
                {
                    proof {
                        let here = self@.subrange(0, i as int);
                        assert(here.drop_last() =~= self@.subrange(0, i - 1));
                        assert(here.last() == self@[i - 1]);
                    }
                    i -= 1;
                    if let Some(ws) = &self.sheets_by_num[i] {
                        if str_eq(ws.name.as_str(), n) {
                            assert(self@[i as int] == Some(ws@));
                            return Some(ws);
                        }
                    }
                }
                None
            },
            SheetNameOrNum::Pos(n) => {
                if n < self.sheets_by_num.len() {
                    self.sheets_by_num[n].as_ref()
                } else {
                    None
                }
            },
        }
    }

    /// The number of active sheets in the workbook.
    pub fn len(&self) -> (r: u8)
        requires
            self.wf(),
        ensures
            r == self@.len() - 1,
    {
        (self.sheets_by_num.len() - 1) as u8
    }
}

/// Why a workbook could not be read.
#[derive(Debug, Clone, Copy, PartialEq, Eq, Structural)]
pub enum WorkbookError {
    /// A tag lacks an attribute that it must have.
    MissingAttribute,
    /// A sheet names a relationship that the workbook does not have.
    MissingRelationship,
    /// The workbook has more sheets than a `SheetMap` holds.
    TooManySheets,
}

/// The standard format codes, by their numbers (ISO/IEC 29500:2011 in
/// Part 1, section 18.8.30).
pub open spec fn standard_formats() -> Map<Seq<char>, Seq<char>> {
    Map::<Seq<char>, Seq<char>>::empty()
    .insert("0"@, "General"@)
    .insert("1"@, "0"@)
    .insert("2"@, "0.00"@)
    .insert("3"@, "#,##0"@)
    .insert("4"@, "#,##0.00"@)
    .insert("9"@, "0%"@)
    .insert("10"@, "0.00%"@)
    .insert("11"@, "0.00E+00"@)
    .insert("12"@, "# ?/?"@)
    .insert("13"@, "# ??/??"@)
    .insert("14"@, "mm-dd-yy"@)
    .insert("15"@, "d-mmm-yy"@)
    .insert("16"@, "d-mmm"@)
    .insert("17"@, "mmm-yy"@)
    .insert("18"@, "h:mm AM/PM"@)
    .insert("19"@, "h:mm:ss AM/PM"@)
    .insert("20"@, "h:mm"@)
    .insert("21"@, "h:mm:ss"@)
    .insert("22"@, "m/d/yy h:mm"@)
    .insert("37"@, "#,##0 ;(#,##0)"@)
    .insert("38"@, "#,##0 ;[Red](#,##0)"@)
    .insert("39"@, "#,##0.00;(#,##0.00)"@)
    .insert("40"@, "#,##0.00;[Red](#,##0.00)"@)
    .insert("45"@, "mm:ss"@)
    .insert("46"@, "[h]:mm:ss"@)
    .insert("47"@, "mmss.0"@)
    .insert("48"@, "##0.0E+0"@)
    .insert("49"@, "@"@)
}

/// Return table of standard styles (ISO/IEC 29500:2011 in Part 1, section
/// 18.8.30)
pub fn standard_styles() -> (r: StringMap)
    ensures
        r@ == standard_formats(),
{
    let mut styles = StringMap::new();
    styles.insert("0".to_owned(), "General".to_owned());
    styles.insert("1".to_owned(), "0".to_owned());
    styles.insert("2".to_owned(), "0.00".to_owned());
    styles.insert("3".to_owned(), "#,##0".to_owned());
    styles.insert("4".to_owned(), "#,##0.00".to_owned());
    styles.insert("9".to_owned(), "0%".to_owned());
    styles.insert("10".to_owned(), "0.00%".to_owned());
    styles.insert("11".to_owned(), "0.00E+00".to_owned());
    styles.insert("12".to_owned(), "# ?/?".to_owned());
    styles.insert("13".to_owned(), "# ??/??".to_owned());
    styles.insert("14".to_owned(), "mm-dd-yy".to_owned());
    styles.insert("15".to_owned(), "d-mmm-yy".to_owned());
    styles.insert("16".to_owned(), "d-mmm".to_owned());
    styles.insert("17".to_owned(), "mmm-yy".to_owned());
    styles.insert("18".to_owned(), "h:mm AM/PM".to_owned());
    styles.insert("19".to_owned(), "h:mm:ss AM/PM".to_owned());
    styles.insert("20".to_owned(), "h:mm".to_owned());
    styles.insert("21".to_owned(), "h:mm:ss".to_owned());
    styles.insert("22".to_owned(), "m/d/yy h:mm".to_owned());
    styles.insert("37".to_owned(), "#,##0 ;(#,##0)".to_owned());
    styles.insert("38".to_owned(), "#,##0 ;[Red](#,##0)".to_owned());
    styles.insert("39".to_owned(), "#,##0.00;(#,##0.00)".to_owned());
    styles.insert("40".to_owned(), "#,##0.00;[Red](#,##0.00)".to_owned());
    styles.insert("45".to_owned(), "mm:ss".to_owned());
    styles.insert("46".to_owned(), "[h]:mm:ss".to_owned());
    styles.insert("47".to_owned(), "mmss.0".to_owned());
    styles.insert("48".to_owned(), "##0.0E+0".to_owned());
    styles.insert("49".to_owned(), "@".to_owned());
    styles
}

/// The path inside the workbook file that the target `target` of a
/// relationship means: a target that starts at the root is taken from
/// there, and any other lies under `xl/`.
pub open spec fn sheet_target_spec(target: Seq<char>) -> Seq<char> {
    if target.len() > 0 && target[0] == '/' {
        target.subrange(1, target.len() as int)
    } else {
        "xl/"@ + target
    }
}

/// The path inside the workbook file that the target of a relationship
/// means.
pub fn sheet_target(target: &str) -> (r: String)
    ensures
        r@ == sheet_target_spec(target@),
{
    let chars = chars_of(target);
    let mut out: Vec<char> = Vec::new();
    let mut i: usize = 0;
    if chars.len() > 0 && chars[0] == '/' {
        i = 1;
    } else {
        out.push('x');
        out.push('l');
        out.push('/');
        proof {
            reveal_strlit("xl/");
            assert(out@ =~= "xl/"@);
        }
    }
    let ghost head = out@;
    let ghost from = i;
    while i < chars.len()
        invariant
            from <= i <= chars.len(),
            out@ == head + chars@.subrange(from as int, i as int),
        decreases chars.len() - i,
    {
        out.push(chars[i]);
        assert(out@ =~= head + chars@.subrange(from as int, i + 1));
        i += 1;
    }
    assert(out@ =~= sheet_target_spec(target@));
    string_of(&out)
}

/// The date system that the event `event` of the workbook's markup settles,
/// if it settles it: the tag `workbookPr` asks for the 1904 system where its
/// attribute `date1904` is `1`, and for the 1900 system otherwise; and a
/// workbook that ends without that tag has the 1900 system.
pub open spec fn date_system_spec(event: EventModel) -> Option<DateSystem> {
    match event {
        EventModel::Empty { name, attributes } => if name == "workbookPr"@ {
            if attr_get(attributes, "date1904"@) == Some("1"@) {
                Some(DateSystem::V1904)
            } else {
                Some(DateSystem::V1900)
            }
        } else {
            None
        },
        EventModel::Eof => Some(DateSystem::V1900),
        _ => None,
    }
}

/// The date system that the event `event` of the workbook's markup settles,
/// if it settles it.
pub fn get_date_system(event: &XmlEvent) -> (r: Option<DateSystem>)
    ensures
        r == date_system_spec(event@),
{
    match event {
        XmlEvent::Empty { name, attributes } => {
            if str_eq(name.as_str(), "workbookPr") {
                if let Some(system) = get(attributes.as_slice(), "date1904") {
                    if str_eq(system, "1") {
                        return Some(DateSystem::V1904);
                    }
                }
                Some(DateSystem::V1900)
            } else {
                None
            }
        },
        XmlEvent::Eof => Some(DateSystem::V1900),
        _ => None,
    }
}

/// The shared strings after the event `event` of their markup: every text
/// is the next string, and so is every empty tag `t`, as the empty string.
pub open spec fn shared_strings_spec(strings: Seq<Seq<char>>, event: EventModel) -> Seq<Seq<char>> {
    match event {
        EventModel::Text { content, number } => strings.push(content),
        EventModel::Empty { name, attributes } => if name == "t"@ {
            strings.push(Seq::empty())
        } else {
            strings
        },
        _ => strings,
    }
}

/// Takes the event `event` of the markup of the shared strings.
pub fn read_shared_string(strings: &mut Vec<String>, event: XmlEvent)
    ensures
        final(strings).deep_view() == shared_strings_spec(old(strings).deep_view(), event@),
{
    let ghost before = strings.deep_view();
    match event {
        XmlEvent::Text { content, number } => {
            strings.push(content);
            assert(strings.deep_view() =~= before.push(content@));
        },
        XmlEvent::Empty { name, attributes } => {
            if str_eq(name.as_str(), "t") {
                strings.push(String::new());
                assert(strings.deep_view() =~= before.push(Seq::empty()));
            } else {
                assert(strings.deep_view() =~= before);
            }
        },
        _ => {
            assert(strings.deep_view() =~= before);
        },
    }
}

/// The relationships after the event `event` of their markup: an empty tag
/// `Relationship` relates its `Id` to its `Target`.
pub open spec fn relationships_spec(
    rels: Map<Seq<char>, Seq<char>>,
    event: EventModel,
) -> Map<Seq<char>, Seq<char>> {
    match event {
        EventModel::Empty { name, attributes } => if name == "Relationship"@ {
            rels.insert(
                match attr_get(attributes, "Id"@) {
                    Some(id) => id,
                    None => Seq::empty(),
                },
                match attr_get(attributes, "Target"@) {
                    Some(target) => target,
                    None => Seq::empty(),
                },
            )
        } else {
            rels
        },
        _ => rels,
    }
}

/// Takes the event `event` of the markup of the relationships: xlsx zips
/// contain an xml file that has a mapping of "ids" to "targets." The ids are
/// used to uniquely identify sheets within the file. The targets have
/// information on where the sheets can be found within the zip.
pub fn read_relationship(rels: &mut StringMap, event: &XmlEvent)
    ensures
        final(rels)@ == relationships_spec(old(rels)@, event@),
{
    match event {
        XmlEvent::Empty { name, attributes } => {
            if str_eq(name.as_str(), "Relationship") {
                let id = match get(attributes.as_slice(), "Id") {
                    Some(id) => id.to_owned(),
                    None => String::new(),
                };
                let target = match get(attributes.as_slice(), "Target") {
                    Some(target) => target.to_owned(),
                    None => String::new(),
                };
                rels.insert(id, target);
            }
        },
        _ => {},
    }
}

/// The format codes of a workbook while its styles are read.
#[derive(Debug)]
pub struct StyleTable {
    number_formats: StringMap,
    styles: Vec<String>,
}

/// What a `StyleTable` holds.
pub struct StyleModel {
    /// The format codes by their numbers: the standard ones, and those
    /// that the workbook declares.
    pub number_formats: Map<Seq<char>, Seq<char>>,
    /// The format code of each style, in the order of the styles.
    pub styles: Seq<Seq<char>>,
}

impl StyleModel {
    /// The table after the event `event` of the markup of the styles. An
    /// empty tag `numFmt` declares the format code `formatCode` under the
    /// number `numFmtId`. A tag `xf` that opens is the next style: it
    /// gets the format code of its `numFmtId`, and is passed over where
    /// there is none.
    pub open spec fn read(self, event: EventModel) -> Result<StyleModel, WorkbookError> {
        match event {
            EventModel::Empty { name, attributes } => if name == "numFmt"@ {
                match (attr_get(attributes, "numFmtId"@), attr_get(attributes, "formatCode"@)) {
                    (Some(id), Some(code)) => Ok(
                        StyleModel { number_formats: self.number_formats.insert(id, code), ..self },
                    ),
                    _ => Err(WorkbookError::MissingAttribute),
                }
            } else {
                Ok(self)
            },
            EventModel::Start { name, attributes } => if name == "xf"@ {
                match attr_get(attributes, "numFmtId"@) {
                    Some(id) => if self.number_formats.contains_key(id) {
                        Ok(StyleModel { styles: self.styles.push(self.number_formats[id]), ..self })
                    } else {
                        Ok(self)
                    },
                    None => Err(WorkbookError::MissingAttribute),
                }
            } else {
                Ok(self)
            },
            _ => Ok(self),
        }
    }
}

impl View for StyleTable {
    type V = StyleModel;

    closed spec fn view(&self) -> StyleModel {
        StyleModel { number_formats: self.number_formats@, styles: self.styles.deep_view() }
    }
}

impl StyleTable {
    /// A table with the standard format codes and without styles.
    pub fn new() -> (r: Self)
        ensures
            r@ == (StyleModel { number_formats: standard_formats(), styles: Seq::empty() }),
    {
        let r = StyleTable { number_formats: standard_styles(), styles: Vec::new() };
        assert(r.styles.deep_view() =~= Seq::<Seq<char>>::empty());
        r
    }

    /// Takes the event `event` of the markup of the styles. After an error
    /// the table is as it was.
    pub fn read(&mut self, event: &XmlEvent) -> (r: Result<(), WorkbookError>)
        ensures
            match r {
                Ok(()) => old(self)@.read(event@) == Ok::<StyleModel, WorkbookError>(final(self)@),
                Err(e) => old(self)@.read(event@) == Err::<StyleModel, WorkbookError>(e)
                    && final(self)@ == old(self)@,
            },
    {
        match event {
            XmlEvent::Empty { name, attributes } => {
                if str_eq(name.as_str(), "numFmt") {
                    let id = get(attributes.as_slice(), "numFmtId");
                    let code = get(attributes.as_slice(), "formatCode");
                    match (id, code) {
                        (Some(id), Some(code)) => {
                            self.number_formats.insert(id.to_owned(), code.to_owned());
                            Ok(())
                        },
                        _ => Err(WorkbookError::MissingAttribute),
                    }
                } else {
                    Ok(())
                }
            },
            XmlEvent::Start { name, attributes } => {
                if str_eq(name.as_str(), "xf") {
                    match get(attributes.as_slice(), "numFmtId") {
                        Some(id) => {
                            let ghost before = self.styles.deep_view();
                            if let Some(code) = self.number_formats.get(id) {
                                self.styles.push(code.to_owned());
                                assert(self.styles.deep_view() =~= before.push(code@));
                            }
                            Ok(())
                        },
                        None => Err(WorkbookError::MissingAttribute),
                    }
                } else {
                    Ok(())
                }
            },
            _ => Ok(()),
        }
    }

    /// The format code of each style, in the order of the styles.
    pub fn into_styles(self) -> (r: Vec<String>)
        ensures
            r.deep_view() == self@.styles,
    {
        self.styles
    }
}

/// The sheets of a workbook after the event `event` of its markup, where
/// `rels` are its relationships. An empty tag `sheet` is the next sheet: its
/// `name`, its relationship `r:id`, whose target says where its rows are,
/// and its `sheetId`, which counts as 0 where it is no number up to 255.
pub open spec fn sheets_spec(
    sheets: Seq<Option<WorksheetModel>>,
    rels: Map<Seq<char>, Seq<char>>,
    event: EventModel,
) -> Result<Seq<Option<WorksheetModel>>, WorkbookError> {
    match event {
        EventModel::Empty { name, attributes } => if name == "sheet"@ {
            let id = match attr_get(attributes, "r:id"@) {
                Some(id) => id,
                None => Seq::empty(),
            };
            if !rels.contains_key(id) {
                Err(WorkbookError::MissingRelationship)
            } else if sheets.len() > MAX_SHEETS {
                Err(WorkbookError::TooManySheets)
            } else {
                Ok(
                    sheets.push(
                        Some(
                            WorksheetModel {
                                name: match attr_get(attributes, "name"@) {
                                    Some(name) => name,
                                    None => Seq::empty(),
                                },
                                position: sheets.len() as u8,
                                relationship_id: id,
                                target: sheet_target_spec(rels[id]),
                                sheet_id: match attr_get(attributes, "sheetId"@) {
                                    Some(text) => match parse_unsigned_spec(text, 255) {
                                        Some(n) => n as u8,
                                        None => 0,
                                    },
                                    None => 0,
                                },
                            },
                        ),
                    ),
                )
            }
        } else {
            Ok(sheets)
        },
        _ => Ok(sheets),
    }
}

impl SheetMap {
    /// Takes the event `event` of the markup of the workbook, whose
    /// relationships are `rels`. After an error the sheets are as they
    /// were.
    pub fn read(&mut self, rels: &StringMap, event: &XmlEvent) -> (r: Result<(), WorkbookError>)
        requires
            old(self).wf(),
        ensures
            final(self).wf(),
            match r {
                Ok(()) => sheets_spec(old(self)@, rels@, event@) == Ok::<
                    Seq<Option<WorksheetModel>>,
                    WorkbookError,
                >(final(self)@),
                Err(e) => sheets_spec(old(self)@, rels@, event@) == Err::<
                    Seq<Option<WorksheetModel>>,
                    WorkbookError,
                >(e) && final(self)@ == old(self)@,
            },
    {
        match event {
            XmlEvent::Empty { name, attributes } => {
                if str_eq(name.as_str(), "sheet") {
                    let id = match get(attributes.as_slice(), "r:id") {
                        Some(id) => id.to_owned(),
                        None => String::new(),
                    };
                    let name = match get(attributes.as_slice(), "name") {
                        Some(name) => name.to_owned(),
                        None => String::new(),
                    };
                    let num: u8 = match get(attributes.as_slice(), "sheetId") {
                        Some(text) => match parse_unsigned(text, 255) {
                            Some(n) => n as u8,
                            None => 0,
                        },
                        None => 0,
                    };
                    let target = match rels.get(id.as_str()) {
                        Some(s) => sheet_target(s),
                        None => {
                            return Err(WorkbookError::MissingRelationship);
                        },
                    };
                    if self.add(id, name, target, num) {
                        Ok(())
                    } else {
                        Err(WorkbookError::TooManySheets)
                    }
                } else {
                    Ok(())
                }
            },
            _ => Ok(()),
        }
    }
}

} // verus!
