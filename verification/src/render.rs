//! Rows of comma-separated text, and the Markdown table they make.

use vstd::prelude::*;
use vstd::string::StrSliceExecFns;
use crate::text::{chars_of, string_of};

verus! {

/// Whether `c` is white space: a character with the property `White_Space`
/// of Unicode.
pub open spec fn is_white_space(c: char) -> bool {
    let n = c as u32;
    ||| 0x09 <= n <= 0x0D
    ||| n == 0x20
    ||| n == 0x85
    ||| n == 0xA0
    ||| n == 0x1680
    ||| 0x2000 <= n <= 0x200A
    ||| n == 0x2028
    ||| n == 0x2029
    ||| n == 0x202F
    ||| n == 0x205F
    ||| n == 0x3000
}

/// Whether `c` is white space.
pub fn is_space(c: char) -> (r: bool)
    ensures
        r == is_white_space(c),
{
    let n = c as u32;
    (0x09 <= n && n <= 0x0D) || n == 0x20 || n == 0x85 || n == 0xA0 || n == 0x1680 || (0x2000 <= n
        && n <= 0x200A) || n == 0x2028 || n == 0x2029 || n == 0x202F || n == 0x205F || n == 0x3000
}

/// How many characters of white space stand at the front of `s`.
pub open spec fn leading_space(s: Seq<char>) -> nat
    decreases s.len(),
{
    if s.len() > 0 && is_white_space(s[0]) {
        1 + leading_space(s.drop_first())
    } else {
        0
    }
}

/// How many characters of white space stand at the end of `s`.
pub open spec fn trailing_space(s: Seq<char>) -> nat
    decreases s.len(),
{
    if s.len() > 0 && is_white_space(s.last()) {
        1 + trailing_space(s.drop_last())
    } else {
        0
    }
}

/// `s` without the white space at its front and at its end.
pub open spec fn trim_spec(s: Seq<char>) -> Seq<char> {
    if leading_space(s) == s.len() {
        Seq::empty()
    } else {
        s.subrange(leading_space(s) as int, s.len() - trailing_space(s))
    }
}

/// The white space at the front of `s` is its first `k` characters, where
/// those are white space and the next is none.
pub proof fn lemma_leading_space(s: Seq<char>, k: int)
    requires
        0 <= k <= s.len(),
        forall|j: int| 0 <= j < k ==> is_white_space(#[trigger] s[j]),
        k < s.len() ==> !is_white_space(s[k]),
    ensures
        leading_space(s) == k,
    decreases k,
{
    if k > 0 {
        let t = s.drop_first();
        assert forall|j: int| 0 <= j < k - 1 implies is_white_space(#[trigger] t[j]) by {
            assert(t[j] == s[j + 1]);
        }
        if k - 1 < t.len() {
            assert(t[k - 1] == s[k]);
        }
        lemma_leading_space(t, k - 1);
    }
}

/// The white space at the end of `s` is its last `k` characters, where
/// those are white space and the one before them is none.
pub proof fn lemma_trailing_space(s: Seq<char>, k: int)
    requires
        0 <= k <= s.len(),
        forall|j: int| s.len() - k <= j < s.len() ==> is_white_space(#[trigger] s[j]),
        k < s.len() ==> !is_white_space(s[s.len() - k - 1]),
    ensures
        trailing_space(s) == k,
    decreases k,
{
    if k > 0 {
        let t = s.drop_last();
        assert forall|j: int| t.len() - (k - 1) <= j < t.len() implies is_white_space(
            #[trigger] t[j],
        ) by {
            assert(t[j] == s[j]);
        }
        if k - 1 < t.len() {
            assert(t[t.len() - (k - 1) - 1] == s[s.len() - k - 1]);
        }
        lemma_trailing_space(t, k - 1);
    }
}

/// The characters `chars` without the white space at their front and at
/// their end, as a string.
pub fn trim_chars(chars: &Vec<char>) -> (r: String)
    ensures
        r@ == trim_spec(chars@),
{
    let mut from: usize = 0;
    while from < chars.len() && is_space(chars[from])
        invariant
            from <= chars.len(),
            forall|j: int| 0 <= j < from ==> is_white_space(#[trigger] chars@[j]),
        decreases chars.len() - from,
    {
        from += 1;
    }
    proof {
        lemma_leading_space(chars@, from as int);
    }
    if from == chars.len() {
        return String::new();
    }
    let mut to: usize = chars.len();
    while to > from + 1 && is_space(chars[to - 1])
        invariant
            from < to <= chars.len(),
            !is_white_space(chars@[from as int]),
            forall|j: int| to <= j < chars.len() ==> is_white_space(#[trigger] chars@[j]),
        decreases to,
    {
        to -= 1;
    }
    proof {
        lemma_trailing_space(chars@, chars.len() - to);
    }
    let mut out: Vec<char> = Vec::new();
    let mut i: usize = from;
    while i < to
        invariant
            from <= i <= to <= chars.len(),
            out@ == chars@.subrange(from as int, i as int),
        decreases to - i,
    {
        out.push(chars[i]);
        assert(out@ =~= chars@.subrange(from as int, i + 1));
        i += 1;
    }
    string_of(&out)
}

/// The fields of the rest of a row of comma-separated text: of `s` from
/// `i` on, where `current` is what has been read of the field at hand, and
/// `in_quotes` says whether a quoted part of it is open.
///
/// A comma outside quotes ends a field. A quote opens or closes a quoted
/// part, and two quotes inside a quoted part are one quote of the field.
/// Each field loses the white space round it.
pub open spec fn csv_fields_from(s: Seq<char>, i: int, current: Seq<char>, in_quotes: bool) -> Seq<
    Seq<char>,
>
    decreases s.len() - i,
{
    if i >= s.len() {
        seq![trim_spec(current)]
    } else if s[i] == '"' {
        if in_quotes && i + 1 < s.len() && s[i + 1] == '"' {
            csv_fields_from(s, i + 2, current.push('"'), in_quotes)
        } else {
            csv_fields_from(s, i + 1, current, !in_quotes)
        }
    } else if s[i] == ',' && !in_quotes {
        seq![trim_spec(current)] + csv_fields_from(s, i + 1, Seq::empty(), in_quotes)
    } else {
        csv_fields_from(s, i + 1, current.push(s[i]), in_quotes)
    }
}

/// The fields of the row `s` of comma-separated text.
pub open spec fn csv_fields(s: Seq<char>) -> Seq<Seq<char>> {
    csv_fields_from(s, 0, Seq::empty(), false)
}

/// Simple CSV parser that handles quoted fields
pub fn parse_csv_row(csv_row: &str) -> (fields: Vec<String>)
    ensures
        fields.deep_view() == csv_fields(csv_row@),
{
    let chars = chars_of(csv_row);
    let mut fields: Vec<String> = Vec::new();
    let mut current_field: Vec<char> = Vec::new();
    let mut in_quotes = false;
    let mut i: usize = 0;
    assert(fields.deep_view() =~= Seq::<Seq<char>>::empty());
    while i < chars.len()
        invariant
            i <= chars.len(),
            chars@ == csv_row@,
            csv_fields(csv_row@) == fields.deep_view() + csv_fields_from(
                csv_row@,
                i as int,
                current_field@,
                in_quotes,
            ),
        decreases chars.len() - i,
    {
        let c = chars[i];
        let ghost before = fields.deep_view();
        if c == '"' {
            if in_quotes && i + 1 < chars.len() && chars[i + 1] == '"' {
                // Double quote escape
                current_field.push('"');
                i += 1;  // consume second quote
            } else {
                in_quotes = !in_quotes;
            }
        } else if c == ',' && !in_quotes {
            let field = trim_chars(&current_field);
            fields.push(field);
            current_field = Vec::new();
            proof {
                let rest = csv_fields_from(csv_row@, i + 1, Seq::empty(), in_quotes);
                assert(fields.deep_view() =~= before.push(field@));
                assert(before + (seq![field@] + rest) =~= before.push(field@) + rest);
            }
        } else {
            current_field.push(c);
        }
        i += 1;
    }
    // Add the last field
    let ghost before = fields.deep_view();
    let field = trim_chars(&current_field);
    fields.push(field);
    assert(fields.deep_view() =~= before + seq![field@]);
    fields
}

/// What a character of a cell becomes in a Markdown table: a bar is
/// escaped, and a line break is a blank.
pub open spec fn markdown_char(c: char) -> Seq<char> {
    if c == '|' {
        seq!['\\', '|']
    } else if c == '\n' || c == '\r' {
        seq![' ']
    } else {
        seq![c]
    }
}

/// What the text of a cell becomes in a Markdown table.
pub open spec fn markdown_text(s: Seq<char>) -> Seq<char>
    decreases s.len(),
{
    if s.len() == 0 {
        Seq::empty()
    } else {
        markdown_text(s.drop_last()) + markdown_char(s.last())
    }
}

/// Appends to `out` what the text `cell` becomes in a Markdown table.
fn push_markdown_text(out: &mut Vec<char>, cell: &str)
    ensures
        final(out)@ == old(out)@ + markdown_text(cell@),
{
    assert(out@ =~= old(out)@ + markdown_text(cell@.subrange(0, 0)));
    for c in it: cell.chars()
        invariant
            it.seq() == cell@,
            out@ == old(out)@ + markdown_text(cell@.subrange(0, it.index() as int)),
    {
        let ghost k = it.index() as int;
        let ghost done = markdown_text(cell@.subrange(0, k));
        let ghost next = cell@.subrange(0, k + 1);
        proof {
            assert(next.drop_last() =~= cell@.subrange(0, k));
            assert(next.last() == c);
        }
        if c == '|' {
            out.push('\\');
            out.push('|');
        } else if c == '\n' || c == '\r' {
            out.push(' ');
        } else {
            out.push(c);
        }
        assert(out@ =~= old(out)@ + (done + markdown_char(c)));
    }
    assert(cell@.subrange(0, cell@.len() as int) =~= cell@);
}

/// Clean cell content for markdown output
pub fn clean_cell_for_markdown(cell: &str) -> (r: String)
    ensures
        r@ == markdown_text(cell@),
{
    let mut out: Vec<char> = Vec::new();
    push_markdown_text(&mut out, cell);
    assert(Seq::<char>::empty() + markdown_text(cell@) =~= markdown_text(cell@));
    string_of(&out)
}

/// Whether the fields `fields` are a row of a table: one of them, at
/// least, holds more than white space.
pub open spec fn is_data_row(fields: Seq<Seq<char>>) -> bool {
    exists|i: int| 0 <= i < fields.len() && trim_spec(#[trigger] fields[i]).len() > 0
}

/// The rows of the table that the rows `csv_rows` of comma-separated text
/// make: the fields of each row, without the rows that hold nothing.
pub open spec fn table_rows(csv_rows: Seq<Seq<char>>) -> Seq<Seq<Seq<char>>>
    decreases csv_rows.len(),
{
    if csv_rows.len() == 0 {
        Seq::empty()
    } else {
        let rest = table_rows(csv_rows.drop_last());
        let fields = csv_fields(csv_rows.last());
        if is_data_row(fields) {
            rest.push(fields)
        } else {
            rest
        }
    }
}

/// The number of fields of the longest of `rows`.
pub open spec fn max_cols(rows: Seq<Seq<Seq<char>>>) -> nat
    decreases rows.len(),
{
    if rows.len() == 0 {
        0
    } else {
        let rest = max_cols(rows.drop_last());
        if rows.last().len() > rest {
            rows.last().len()
        } else {
            rest
        }
    }
}

/// The first `n` cells of the line of a table for the row `row`; a cell
/// that the row lacks is empty.
pub open spec fn table_line(row: Seq<Seq<char>>, n: nat) -> Seq<char>
    decreases n,
{
    if n == 0 {
        seq!['|']
    } else {
        let cell = if n - 1 < row.len() {
            row[n - 1]
        } else {
            Seq::empty()
        };
        table_line(row, (n - 1) as nat) + seq![' '] + markdown_text(cell) + seq![' ', '|']
    }
}

/// The line that parts the head of a table of `n` columns from its body.
pub open spec fn separator_line(n: nat) -> Seq<char>
    decreases n,
{
    if n == 0 {
        seq!['|']
    } else {
        separator_line((n - 1) as nat) + seq![' ', '-', '-', '-', ' ', '|']
    }
}

/// The lines of the rows `rows` from `from` on, each `width` cells wide.
pub open spec fn body_lines(rows: Seq<Seq<Seq<char>>>, width: nat) -> Seq<Seq<char>>
    decreases rows.len(),
{
    if rows.len() == 0 {
        Seq::empty()
    } else {
        body_lines(rows.drop_last(), width).push(table_line(rows.last(), width))
    }
}

/// The lines of the Markdown table that the rows `csv_rows` make: the
/// first row is the head, a separator follows it, and the other rows are
/// the body. Every line has as many cells as the longest row has fields.
/// Rows that hold nothing make no table.
pub open spec fn markdown_spec(csv_rows: Seq<Seq<char>>) -> Seq<Seq<char>> {
    let rows = table_rows(csv_rows);
    let width = max_cols(rows);
    if rows.len() == 0 {
        Seq::empty()
    } else {
        seq![table_line(rows[0], width), separator_line(width)] + body_lines(
            rows.subrange(1, rows.len() as int),
            width,
        )
    }
}

/// Whether one of `fields` holds more than white space.
fn has_content(fields: &Vec<String>) -> (r: bool)
    ensures
        r == is_data_row(fields.deep_view()),
{
    let mut i: usize = 0;
    while i < fields.len()
        invariant
            i <= fields.len(),
            forall|j: int| 0 <= j < i ==> trim_spec(#[trigger] fields.deep_view()[j]).len() == 0,
        decreases fields.len() - i,
    {
        let chars = chars_of(fields[i].as_str());
        let trimmed = trim_chars(&chars);
        assert(fields.deep_view()[i as int] == chars@);
        if trimmed.as_str().unicode_len() > 0 {
            return true;
        }
        i += 1;
    }
    false
}

/// The line of a table for the row `row`, `width` cells wide.
fn line_of(row: &Vec<String>, width: usize) -> (r: String)
    ensures
        r@ == table_line(row.deep_view(), width as nat),
{
    let mut out: Vec<char> = Vec::new();
    out.push('|');
    let mut i: usize = 0;
    while i < width
        invariant
            i <= width,
            out@ == table_line(row.deep_view(), i as nat),
        decreases width - i,
    {
        let ghost before = out@;
        out.push(' ');
        if i < row.len() {
            assert(row.deep_view()[i as int] == row@[i as int]@);
            push_markdown_text(&mut out, row[i].as_str());
        } else {
            assert(out@ =~= before + seq![' '] + markdown_text(Seq::empty()));
        }
        out.push(' ');
        out.push('|');
        i += 1;
        assert(out@ =~= table_line(row.deep_view(), i as nat));
    }
    string_of(&out)
}

/// The rows of `rows` as their fields.
pub open spec fn row_texts(rows: Seq<Vec<String>>) -> Seq<Seq<Seq<char>>> {
    Seq::new(rows.len(), |i: int| rows[i].deep_view())
}

/// Convert CSV rows to the lines of a markdown table
pub fn markdown_table(csv_rows: &[String]) -> (lines: Vec<String>)
    ensures
        lines.deep_view() == markdown_spec(csv_rows.deep_view()),
{
    let ghost texts = csv_rows.deep_view();
    let mut rows_data: Vec<Vec<String>> = Vec::new();
    let mut max_width: usize = 0;
    // Parse CSV rows
    let mut i: usize = 0;
    assert(texts.subrange(0, 0) =~= Seq::<Seq<char>>::empty());
    assert(row_texts(rows_data@) =~= Seq::<Seq<Seq<char>>>::empty());
    while i < csv_rows.len()
        invariant
            i <= csv_rows.len(),
            texts == csv_rows.deep_view(),
            row_texts(rows_data@) == table_rows(texts.subrange(0, i as int)),
            max_width == max_cols(row_texts(rows_data@)),
        decreases csv_rows.len() - i,
    {
        let fields = parse_csv_row(csv_rows[i].as_str());
        let ghost before = row_texts(rows_data@);
        proof {
            let here = texts.subrange(0, i + 1);
            assert(here.drop_last() =~= texts.subrange(0, i as int));
            assert(here.last() == csv_rows@[i as int]@);
        }
        if has_content(&fields) {
            if fields.len() > max_width {
                max_width = fields.len();
            }
            rows_data.push(fields);
            proof {
                assert(row_texts(rows_data@) =~= before.push(fields.deep_view()));
                assert(row_texts(rows_data@).drop_last() =~= before);
            }
        }
        i += 1;
    }
    assert(texts.subrange(0, texts.len() as int) =~= texts);
    let mut lines: Vec<String> = Vec::new();
    if rows_data.len() == 0 {
        assert(lines.deep_view() =~= Seq::<Seq<char>>::empty());
        return lines;
    }
    let ghost rows = row_texts(rows_data@);
    // The header (first row)
    lines.push(line_of(&rows_data[0], max_width));
    // The separator row
    let mut separator: Vec<char> = Vec::new();
    separator.push('|');
    let mut n: usize = 0;
    while n < max_width
        invariant
            n <= max_width,
            separator@ == separator_line(n as nat),
        decreases max_width - n,
    {
        separator.push(' ');
        separator.push('-');
        separator.push('-');
        separator.push('-');
        separator.push(' ');
        separator.push('|');
        n += 1;
        assert(separator@ =~= separator_line(n as nat));
    }
    lines.push(string_of(&separator));
    let ghost head = seq![table_line(rows[0], max_width as nat), separator_line(max_width as nat)];
    assert(lines.deep_view() =~= head);
    // The data rows
    let mut k: usize = 1;
    assert(rows.subrange(1, 1) =~= Seq::<Seq<Seq<char>>>::empty());
    assert(lines.deep_view() =~= head + body_lines(rows.subrange(1, 1), max_width as nat));
    while k < rows_data.len()
        invariant
            1 <= k <= rows_data.len(),
            rows == row_texts(rows_data@),
            lines.deep_view() == head + body_lines(rows.subrange(1, k as int), max_width as nat),
        decreases rows_data.len() - k,
    {
        let ghost before = lines.deep_view();
        let line = line_of(&rows_data[k], max_width);
        lines.push(line);
        proof {
            let here = rows.subrange(1, k + 1);
            assert(here.drop_last() =~= rows.subrange(1, k as int));
            assert(here.last() == rows_data@[k as int].deep_view());
            assert(lines.deep_view() =~= before.push(line@));
        }
        k += 1;
    }
    lines
}

} // verus!
