//! Cells and their addresses.
//!
//! The address of a cell is the letters of its column followed by the number
//! of its row, as in `C7`.

use vstd::prelude::*;
use vstd::slice::slice_subrange;
use crate::column::{
    col_letters, is_upper_letter, lemma_index_round_trip, letters_to_index_chars,
    letters_to_index_spec, push_col_letters, valid_col,
};
use crate::text::{
    chars_of, decimal_digits, is_ascii_letter, is_digit, is_letter, lemma_decimal_round_trip,
    parse_unsigned_chars, parse_unsigned_spec, push_decimal, string_of,
};
use crate::value::{style_is_date, is_date_style, ExcelValue, ValueModel};

verus! {

/// One cell of a worksheet.
#[derive(Debug)]
pub struct Cell<'a> {
    /// The value you get by converting the raw_value (a string) into a Rust
    /// value
    pub value: ExcelValue<'a>,
    /// The formula (may be "empty") of the cell
    pub formula: String,
    /// What cell are we looking at? E.g., B3, A1, etc.
    pub reference: String,
    /// The cell style (e.g., the style you see in Excel by hitting Ctrl+1 and
    /// going to the "Number" tab).
    pub style: String,
    /// The type of cell as recorded by Excel (s = string using
    /// sharedStrings.xml, str = raw string, b = boolean, etc.).
    pub cell_type: String,
    /// The raw string value recorded in the xml
    pub raw_value: String,
}

/// What a `Cell` holds, with text as its characters.
pub struct CellModel {
    pub value: ValueModel,
    pub formula: Seq<char>,
    pub reference: Seq<char>,
    pub style: Seq<char>,
    pub cell_type: Seq<char>,
    pub raw_value: Seq<char>,
}

impl<'a> View for Cell<'a> {
    type V = CellModel;

    open spec fn view(&self) -> CellModel {
        CellModel {
            value: self.value@,
            formula: self.formula@,
            reference: self.reference@,
            style: self.style@,
            cell_type: self.cell_type@,
            raw_value: self.raw_value@,
        }
    }
}

/// How many letters stand at the front of `s`.
pub open spec fn letter_prefix_len(s: Seq<char>) -> nat
    decreases s.len(),
{
    if s.len() > 0 && is_ascii_letter(s[0]) {
        1 + letter_prefix_len(s.drop_first())
    } else {
        0
    }
}

/// The column and the row that the address `s` names: the letters at its
/// front are the column, and what follows them is the number of the row.
/// There is none where a part is missing or is not what it should be.
pub open spec fn decode_ref(s: Seq<char>) -> Option<(u16, u32)> {
    let k = letter_prefix_len(s) as int;
    if k == s.len() {
        None
    } else {
        match (
            letters_to_index_spec(s.subrange(0, k)),
            parse_unsigned_spec(s.subrange(k, s.len() as int), u32::MAX as int),
        ) {
            (Ok(col), Some(row)) => Some((col, row as u32)),
            _ => None,
        }
    }
}

/// The address of the cell in column `col` and row `row`.
pub open spec fn encode_ref(col: nat, row: nat) -> Seq<char> {
    col_letters(col) + decimal_digits(row)
}

/// An empty cell without an address.
pub open spec fn new_cell_model() -> CellModel {
    CellModel {
        value: ValueModel::Empty,
        formula: Seq::empty(),
        reference: Seq::empty(),
        style: Seq::empty(),
        cell_type: Seq::empty(),
        raw_value: Seq::empty(),
    }
}

/// The empty cell that stands in column `col` of row `row` where the
/// worksheet says nothing of that place.
pub open spec fn blank_cell_model(col: nat, row: nat) -> CellModel {
    CellModel { reference: encode_ref(col, row), ..new_cell_model() }
}

/// The letters at the front of `s` are the first `k` characters, where
/// those are letters and the next is none.
pub proof fn lemma_letter_prefix(s: Seq<char>, k: int)
    requires
        0 <= k <= s.len(),
        forall|j: int| 0 <= j < k ==> is_ascii_letter(#[trigger] s[j]),
        k < s.len() ==> !is_ascii_letter(s[k]),
    ensures
        letter_prefix_len(s) == k,
    decreases k,
{
    if k > 0 {
        let t = s.drop_first();
        assert forall|j: int| 0 <= j < k - 1 implies is_ascii_letter(#[trigger] t[j]) by {
            assert(t[j] == s[j + 1]);
        }
        if k - 1 < t.len() {
            assert(t[k - 1] == s[k]);
        }
        lemma_letter_prefix(t, k - 1);
    }
}

/// An address names the column and the row it was written for: decoding
/// what `encode_ref` wrote gives both back.
pub proof fn lemma_ref_round_trip(col: nat, row: nat)
    requires
        valid_col(col as int),
        row <= u32::MAX,
    ensures
        decode_ref(encode_ref(col, row)) == Some((col as u16, row as u32)),
{
    let letters = col_letters(col);
    let digits = decimal_digits(row);
    let s = encode_ref(col, row);
    let k = letters.len() as int;
    lemma_index_round_trip(col);
    lemma_decimal_round_trip(row);
    assert forall|j: int| 0 <= j < k implies is_ascii_letter(#[trigger] s[j]) by {
        assert(s[j] == letters[j]);
        assert(is_upper_letter(letters[j]));
    }
    assert(s[k] == digits[0]);
    assert(is_digit(digits[0]));
    lemma_letter_prefix(s, k);
    assert(s.subrange(0, k) =~= letters);
    assert(s.subrange(k, s.len() as int) =~= digits);
    assert(parse_unsigned_spec(digits, u32::MAX as int) == Some(row as int));
}

/// The column and the row that the characters of an address name.
pub fn decode_reference_chars(chars: &[char]) -> (r: Option<(u16, u32)>)
    ensures
        r == decode_ref(chars@),
{
    let mut k: usize = 0;
    while k < chars.len() && is_letter(chars[k])
        invariant
            k <= chars.len(),
            forall|j: int| 0 <= j < k ==> is_ascii_letter(#[trigger] chars@[j]),
        decreases chars.len() - k,
    {
        k += 1;
    }
    proof {
        lemma_letter_prefix(chars@, k as int);
    }
    if k == chars.len() {
        return None;
    }
    let letters = slice_subrange(chars, 0, k);
    let digits = slice_subrange(chars, k, chars.len());
    match (letters_to_index_chars(letters), parse_unsigned_chars(digits, u32::MAX as u64)) {
        (Ok(col), Some(row)) => Some((col, row as u32)),
        _ => None,
    }
}

/// The column and the row that the address `reference` names.
pub fn decode_reference(reference: &str) -> (r: Option<(u16, u32)>)
    ensures
        r == decode_ref(reference@),
{
    let chars = chars_of(reference);
    decode_reference_chars(chars.as_slice())
}

/// How many characters stand in `s` before its first colon; all of them
/// where it has none.
pub open spec fn before_colon(s: Seq<char>) -> nat
    decreases s.len(),
{
    if s.len() > 0 && s[0] != ':' {
        1 + before_colon(s.drop_first())
    } else {
        0
    }
}

/// The rows and the columns that the range `s`, such as `A1:C10`, declares
/// as used: those of the address after its colon. None are declared where
/// it has no colon, and there is no answer where what follows the colon is
/// no address.
pub open spec fn used_area_spec(s: Seq<char>) -> Option<(u32, u16)> {
    let k = before_colon(s) as int;
    if k == s.len() {
        Some((0u32, 0u16))
    } else {
        match decode_ref(s.subrange(k + 1, s.len() as int)) {
            Some((col, row)) => Some((row, col)),
            None => None,
        }
    }
}

/// The colon of `s` stands at `k` where no earlier character is one.
pub proof fn lemma_before_colon(s: Seq<char>, k: int)
    requires
        0 <= k <= s.len(),
        forall|j: int| 0 <= j < k ==> #[trigger] s[j] != ':',
        k < s.len() ==> s[k] == ':',
    ensures
        before_colon(s) == k,
    decreases k,
{
    if k > 0 {
        let t = s.drop_first();
        assert forall|j: int| 0 <= j < k - 1 implies #[trigger] t[j] != ':' by {
            assert(t[j] == s[j + 1]);
        }
        if k - 1 < t.len() {
            assert(t[k - 1] == s[k]);
        }
        lemma_before_colon(t, k - 1);
    }
}

/// find the number of rows and columns used in a particular worksheet, as
/// its used range declares them. Returns a tuple of (rows, columns).
pub fn used_area(used_area_range: &str) -> (r: Option<(u32, u16)>)
    ensures
        r == used_area_spec(used_area_range@),
{
    let chars = chars_of(used_area_range);
    let mut k: usize = 0;
    while k < chars.len() && chars[k] != ':'
        invariant
            k <= chars.len(),
            forall|j: int| 0 <= j < k ==> #[trigger] chars@[j] != ':',
        decreases chars.len() - k,
    {
        k += 1;
    }
    proof {
        lemma_before_colon(chars@, k as int);
    }
    if k == chars.len() {
        return Some((0, 0));
    }
    let end = slice_subrange(chars.as_slice(), k + 1, chars.len());
    match decode_reference_chars(end) {
        Some((col, row)) => Some((row, col)),
        None => None,
    }
}

/// Writes the address of the cell in column `col` and row `row`.
pub fn encode_reference(col: u16, row: u32) -> (s: String)
    ensures
        s@ == encode_ref(col as nat, row as nat),
{
    let mut out: Vec<char> = Vec::new();
    push_col_letters(&mut out, col);
    push_decimal(&mut out, row as u64);
    assert(out@ =~= encode_ref(col as nat, row as nat));
    string_of(&out)
}

/// An empty cell without an address.
pub fn new_cell() -> (c: Cell<'static>)
    ensures
        c@ == new_cell_model(),
{
    Cell {
        value: ExcelValue::Empty,
        formula: String::new(),
        reference: String::new(),
        style: String::new(),
        cell_type: String::new(),
        raw_value: String::new(),
    }
}

/// The empty cell of column `col` in row `row`.
pub fn blank_cell(col: u16, row: u32) -> (c: Cell<'static>)
    ensures
        c@ == blank_cell_model(col as nat, row as nat),
{
    Cell {
        value: ExcelValue::Empty,
        formula: String::new(),
        reference: encode_reference(col, row),
        style: String::new(),
        cell_type: String::new(),
        raw_value: String::new(),
    }
}

impl<'a> Cell<'a> {
    /// return the column/row coordinates of the current cell, where its
    /// address names them
    pub fn coordinates(&self) -> (r: Option<(u16, u32)>)
        ensures
            r == decode_ref(self.reference@),
    {
        decode_reference(self.reference.as_str())
    }
}

/// Whether the style of `cell` makes the number in it a date.
pub fn is_date(cell: &Cell) -> (r: bool)
    ensures
        r == is_date_style(cell.style@),
{
    style_is_date(cell.style.as_str())
}

} // verus!
