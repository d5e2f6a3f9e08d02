//! The row decoder: the automaton that rebuilds the rows of a worksheet.
//!
//! The decoder never reads anything itself. Its caller asks it what comes
//! next (`RowIter::poll`): a row, or the request for one more event of the
//! worksheet's markup, which the caller then hands over (`RowIter::feed`).
//! The rows come out numbered 1, 2, 3 and so on without a gap: for a row of
//! which the worksheet says nothing the decoder makes an empty one, and it
//! holds back at most one row that it has read ahead.

use vstd::prelude::*;
use vstd::string::StringExecFns;
use crate::cell::{
    decode_ref, new_cell, new_cell_model, used_area, used_area_spec, Cell, CellModel,
};
use crate::column::XL_MAX_COL;
use crate::date::DateSystem;
use crate::event::{attr_get, attribute_models, get, Attribute, EventModel, XmlEvent};
use crate::row::{
    blank_row, cell_models, dense_cells, empty_row, lemma_blank_row_dense, lemma_padded_dense,
    pad_row, padded, Row, RowModel,
};
use crate::text::{parse_unsigned, parse_unsigned_spec, str_eq};
use crate::value::{
    listed, look_up, resolve_spec, resolve_value, CellError, ExcelValue, Numeric, ValueModel,
};

verus! {

/// Why the traversal of a worksheet ended before its time.
#[derive(Debug, Clone, Copy, PartialEq, Eq, Structural)]
pub enum DecodeError {
    /// A row does not say which row it is.
    MissingRowNumber,
    /// A row comes after a row of its own number or of a greater one.
    RowOutOfOrder,
    /// The address of a cell names no column and row.
    InvalidReference,
    /// The address of a cell names another row than the one it stands in,
    /// or a column that is not after the cell before it.
    CellMisplaced,
    /// A row or a cell opens or closes where it cannot.
    UnexpectedTag,
}

/// Where the decoder stands.
pub enum Phase {
    /// No row is held back and the markup has not ended: events are wanted.
    Idle,
    /// A row that was read ahead is held back.
    Buffered,
    /// The markup has ended, and rows that the worksheet declared are still
    /// owed.
    Draining,
    /// Nothing more will come.
    Done,
}

/// The state of the decoder.
pub struct DecoderModel {
    /// The shared strings of the workbook.
    pub strings: Seq<Seq<char>>,
    /// The format codes of the workbook, by style number.
    pub styles: Seq<Seq<char>>,
    pub date_system: DateSystem,
    /// The number of the row that is handed out next.
    pub want_row: nat,
    /// How many rows the worksheet declared to have.
    pub num_rows: nat,
    /// How many columns the worksheet is known to have.
    pub num_cols: nat,
    /// The row that was read ahead.
    pub next_row: Option<RowModel>,
    /// Whether the markup has ended.
    pub done_file: bool,
    /// Whether the traversal has failed.
    pub failed: bool,
    /// Whether a row has opened yet.
    pub seen_row: bool,
    /// Whether a row is open, its number, and the cells it has so far.
    pub in_row: bool,
    pub this_row: nat,
    pub cells: Seq<CellModel>,
    /// Whether a cell is open, whether its value is, and the cell so far.
    pub in_cell: bool,
    pub in_value: bool,
    pub cell: CellModel,
}

/// The text of the error value that a cell gets whose text gave no value.
pub open spec fn error_code(e: CellError) -> Seq<char> {
    match e {
        CellError::InvalidNumericLiteral => "#VALUE!"@,
        CellError::InvalidDateSerial => "#NUM!"@,
    }
}

/// The cell that opens with `attributes`: `r` is its address, `t` its type,
/// and `s` the number of its style, for which the cell gets the format code.
pub open spec fn opened_cell(
    attributes: Seq<(Seq<char>, Seq<char>)>,
    styles: Seq<Seq<char>>,
) -> CellModel {
    CellModel {
        reference: match attr_get(attributes, "r"@) {
            Some(r) => r,
            None => Seq::empty(),
        },
        cell_type: match attr_get(attributes, "t"@) {
            Some(t) => t,
            None => Seq::empty(),
        },
        style: match attr_get(attributes, "s"@) {
            Some(s) => match listed(styles, s) {
                Some(style) => style,
                None => Seq::empty(),
            },
            None => Seq::empty(),
        },
        ..new_cell_model()
    }
}

impl DecoderModel {
    /// The state in which a decoder starts.
    pub open spec fn start(
        strings: Seq<Seq<char>>,
        styles: Seq<Seq<char>>,
        date_system: DateSystem,
    ) -> DecoderModel {
        DecoderModel {
            strings,
            styles,
            date_system,
            want_row: 1,
            num_rows: 0,
            num_cols: 0,
            next_row: None,
            done_file: false,
            failed: false,
            seen_row: false,
            in_row: false,
            this_row: 0,
            cells: Seq::empty(),
            in_cell: false,
            in_value: false,
            cell: new_cell_model(),
        }
    }

    /// What holds of every state that a decoder reaches.
    pub open spec fn wf(self) -> bool {
        &&& 1 <= self.want_row <= u32::MAX + 1
        &&& self.num_rows <= u32::MAX
        &&& self.num_cols <= XL_MAX_COL
        &&& self.next_row matches Some(row) ==> {
            &&& row.wf()
            &&& row.number >= self.want_row
            &&& row.cells.len() == self.num_cols
            &&& !self.in_row
            &&& !self.done_file
            &&& self.seen_row
        }
        &&& self.in_row ==> {
            &&& self.want_row <= self.this_row <= u32::MAX
            &&& dense_cells(self.cells, self.this_row)
            &&& self.seen_row
        }
        &&& !self.in_row ==> self.cells.len() == 0 && !self.in_cell
        &&& self.done_file ==> !self.in_row
    }

    pub open spec fn phase(self) -> Phase {
        if self.failed {
            Phase::Done
        } else if self.next_row is Some {
            Phase::Buffered
        } else if !self.done_file {
            Phase::Idle
        } else if self.want_row <= self.num_rows {
            Phase::Draining
        } else {
            Phase::Done
        }
    }

    /// The row that `poll` hands out, if it hands one out: the row that is
    /// held back where it is the row that is wanted, else an empty row in
    /// its place; and while rows are owed after the end, an empty row.
    pub open spec fn poll_row(self) -> Option<RowModel> {
        match self.phase() {
            Phase::Buffered => if self.next_row->0.number == self.want_row {
                self.next_row
            } else {
                Some(blank_row(self.num_cols, self.want_row))
            },
            Phase::Draining => Some(blank_row(self.num_cols, self.want_row)),
            _ => None,
        }
    }

    /// The state after `poll`: where a row went out, the next row is
    /// wanted, and the row that was held back is gone if it was the one.
    pub open spec fn poll_next(self) -> DecoderModel {
        match self.phase() {
            Phase::Buffered => DecoderModel {
                want_row: self.want_row + 1,
                next_row: if self.next_row->0.number == self.want_row {
                    None
                } else {
                    self.next_row
                },
                ..self
            },
            Phase::Draining => DecoderModel { want_row: self.want_row + 1, ..self },
            _ => self,
        }
    }

    /// A used range declares the rows and columns of the worksheet, where
    /// no row has opened yet and the range is anything but `A1`. A range
    /// that cannot be read declares nothing.
    pub open spec fn on_dimension(self, attributes: Seq<(Seq<char>, Seq<char>)>) -> DecoderModel {
        match attr_get(attributes, "ref"@) {
            Some(range) => if self.seen_row || range == "A1"@ {
                self
            } else {
                match used_area_spec(range) {
                    Some((rows, cols)) => DecoderModel {
                        num_rows: rows as nat,
                        num_cols: cols as nat,
                        ..self
                    },
                    None => self,
                }
            },
            None => self,
        }
    }

    /// A row opens: it says its number, which is none that has gone by.
    pub open spec fn on_row_start(self, attributes: Seq<(Seq<char>, Seq<char>)>) -> Result<
        DecoderModel,
        DecodeError,
    > {
        if self.in_row {
            Err(DecodeError::UnexpectedTag)
        } else {
            match attr_get(attributes, "r"@) {
                None => Err(DecodeError::MissingRowNumber),
                Some(r) => match parse_unsigned_spec(r, u32::MAX as int) {
                    None => Err(DecodeError::MissingRowNumber),
                    Some(number) => if number < self.want_row {
                        Err(DecodeError::RowOutOfOrder)
                    } else {
                        Ok(
                            DecoderModel {
                                seen_row: true,
                                in_row: true,
                                this_row: number as nat,
                                ..self
                            },
                        )
                    },
                },
            }
        }
    }

    /// A cell opens, in a row and not in another cell.
    pub open spec fn on_cell_start(self, attributes: Seq<(Seq<char>, Seq<char>)>) -> Result<
        DecoderModel,
        DecodeError,
    > {
        if !self.in_row || self.in_cell {
            Err(DecodeError::UnexpectedTag)
        } else {
            Ok(DecoderModel { in_cell: true, cell: opened_cell(attributes, self.styles), ..self })
        }
    }

    /// Text arrives. Inside the value of a cell it is the text of the cell
    /// and decides its value; a text that gives no value makes the cell an
    /// error. Elsewhere inside a cell it is part of the formula.
    pub open spec fn on_text(self, content: Seq<char>, number: Option<Numeric>) -> DecoderModel {
        if !self.in_cell {
            self
        } else if self.in_value {
            let value = match resolve_spec(
                content,
                self.cell.cell_type,
                self.cell.style,
                number,
                self.strings,
                self.date_system,
            ) {
                Ok(value) => value,
                Err(e) => ValueModel::Error(error_code(e)),
            };
            DecoderModel { cell: CellModel { raw_value: content, value, ..self.cell }, ..self }
        } else {
            DecoderModel {
                cell: CellModel { formula: self.cell.formula + content, ..self.cell },
                ..self
            }
        }
    }

    /// A cell closes. Its address names its place, in the open row and
    /// after the cells that the row has; the columns that were passed over
    /// get empty cells, and the cell follows them.
    pub open spec fn on_cell_end(self) -> Result<DecoderModel, DecodeError> {
        if !self.in_cell {
            Err(DecodeError::UnexpectedTag)
        } else {
            match decode_ref(self.cell.reference) {
                None => Err(DecodeError::InvalidReference),
                Some((col, row)) => if row != self.this_row || col <= self.cells.len() {
                    Err(DecodeError::CellMisplaced)
                } else {
                    Ok(
                        DecoderModel {
                            cells: padded(self.cells, (col - 1) as nat, self.this_row).push(
                                self.cell,
                            ),
                            in_cell: false,
                            cell: new_cell_model(),
                            ..self
                        },
                    )
                },
            }
        }
    }

    /// A row closes. It is filled up with empty cells to the width of the
    /// worksheet, which grows to the width of the row where that is more,
    /// and is held back until `poll` hands it out.
    pub open spec fn on_row_end(self) -> Result<DecoderModel, DecodeError> {
        if !self.in_row {
            Err(DecodeError::UnexpectedTag)
        } else {
            let width = if self.cells.len() > self.num_cols {
                self.cells.len()
            } else {
                self.num_cols
            };
            Ok(
                DecoderModel {
                    num_cols: width,
                    next_row: Some(
                        RowModel {
                            cells: padded(self.cells, width, self.this_row),
                            number: self.this_row,
                        },
                    ),
                    in_row: false,
                    cells: Seq::empty(),
                    in_cell: false,
                    cell: new_cell_model(),
                    ..self
                },
            )
        }
    }

    /// The markup ends. A row that is still open is given up.
    pub open spec fn on_eof(self) -> DecoderModel {
        DecoderModel {
            done_file: true,
            in_row: false,
            cells: Seq::empty(),
            in_cell: false,
            in_value: false,
            cell: new_cell_model(),
            ..self
        }
    }

    /// The state that the event `event` leads to, or the error with which
    /// the traversal ends.
    pub open spec fn feed(self, event: EventModel) -> Result<DecoderModel, DecodeError> {
        match event {
            EventModel::Empty { name, attributes } => if name == "dimension"@ {
                Ok(self.on_dimension(attributes))
            } else {
                Ok(self)
            },
            EventModel::Start { name, attributes } => if name == "row"@ {
                self.on_row_start(attributes)
            } else if name == "c"@ {
                self.on_cell_start(attributes)
            } else if name == "v"@ || name == "t"@ {
                Ok(DecoderModel { in_value: true, ..self })
            } else {
                Ok(self)
            },
            EventModel::Text { content, number } => Ok(self.on_text(content, number)),
            EventModel::End { name } => if name == "v"@ || name == "t"@ {
                Ok(DecoderModel { in_value: false, ..self })
            } else if name == "c"@ {
                self.on_cell_end()
            } else if name == "row"@ {
                self.on_row_end()
            } else {
                Ok(self)
            },
            EventModel::Eof => Ok(self.on_eof()),
        }
    }

    /// The state of a traversal that has failed.
    pub open spec fn fail(self) -> DecoderModel {
        DecoderModel { failed: true, ..self }
    }
}

/// Every step of the decoder keeps what holds of its states.
pub proof fn lemma_steps_keep_wf(state: DecoderModel, event: EventModel)
    requires
        state.wf(),
    ensures
        state.poll_next().wf(),
        state.fail().wf(),
        state.phase() == Phase::Idle ==> (state.feed(event) matches Ok(next) ==> next.wf()),
{
    if state.phase() == Phase::Idle {
        match event {
            EventModel::End { name } => {
                if name == "c"@ {
                    if let Ok(next) = state.on_cell_end() {
                        let (col, row) = decode_ref(state.cell.reference)->0;
                        let gap = padded(state.cells, (col - 1) as nat, state.this_row);
                        lemma_letters_cannot_pass(state.cell.reference);
                        lemma_padded_dense(state.cells, (col - 1) as nat, state.this_row);
                        assert(gap.len() == col - 1);
                        assert forall|i: int| 0 <= i < next.cells.len() implies decode_ref(
                            #[trigger] next.cells[i].reference,
                        ) == Some(((i + 1) as u16, state.this_row as u32)) by {
                            if i < gap.len() {
                                assert(next.cells[i] == gap[i]);
                            }
                        }
                    }
                } else if name == "row"@ {
                    if let Ok(next) = state.on_row_end() {
                        lemma_padded_dense(state.cells, next.num_cols, state.this_row);
                    }
                }
            },
            _ => {},
        }
    }
}

/// An address that can be read names a column that exists.
pub proof fn lemma_letters_cannot_pass(reference: Seq<char>)
    ensures
        decode_ref(reference) matches Some((col, row)) ==> 1 <= col <= XL_MAX_COL,
{
}

/// What `poll` hands out is the row that is wanted: it carries that number,
/// it is dense, and it is as wide as the worksheet is known to be. The
/// next row is wanted after it.
pub proof fn lemma_poll_row(state: DecoderModel)
    requires
        state.wf(),
    ensures
        match state.poll_row() {
            Some(row) => {
                &&& row.number == state.want_row
                &&& row.wf()
                &&& row.cells.len() == state.num_cols
                &&& state.poll_next().want_row == state.want_row + 1
                &&& state.poll_next().num_cols == state.num_cols
            },
            None => state.poll_next() == state,
        },
{
    if state.phase() == Phase::Buffered || state.phase() == Phase::Draining {
        lemma_blank_row_dense(state.num_cols, state.want_row);
    }
}

impl DecoderModel {
    /// How many rows `poll` hands out before the state wants an event or
    /// is done.
    pub open spec fn owed(self) -> nat {
        match self.phase() {
            Phase::Buffered => (self.next_row->0.number - self.want_row + 1) as nat,
            Phase::Draining => (self.num_rows - self.want_row + 1) as nat,
            _ => 0,
        }
    }

    /// The rows that a traversal hands out from this state on, to its end,
    /// where `events` are the events that it is fed, one at each request,
    /// and the end of the markup is what it is fed when they have run out.
    /// A traversal that fails hands out nothing more.
    pub open spec fn rows(self, events: Seq<EventModel>) -> Seq<RowModel>
        decreases events.len(), if self.done_file {
            0nat
        } else {
            1nat
        }, self.owed(),
        when self.wf()
        via Self::rows_decreases
    {
        match self.phase() {
            Phase::Done => Seq::empty(),
            Phase::Idle => {
                let event = if events.len() > 0 {
                    events[0]
                } else {
                    EventModel::Eof
                };
                match self.feed(event) {
                    Ok(next) => next.rows(
                        if events.len() > 0 {
                            events.drop_first()
                        } else {
                            events
                        },
                    ),
                    Err(_) => Seq::empty(),
                }
            },
            _ => seq![self.poll_row()->0] + self.poll_next().rows(events),
        }
    }

    #[via_fn]
    proof fn rows_decreases(self, events: Seq<EventModel>) {
        lemma_steps_keep_wf(self, EventModel::Eof);
        if events.len() > 0 {
            lemma_steps_keep_wf(self, events[0]);
        }
    }
}

/// The rows of a traversal are numbered one after the other, without a
/// gap, from the row that is wanted at its start; each of them is dense; and
/// none is narrower than the one before it. Once a row has opened or the
/// markup has ended, none is narrower than the worksheet is known to be.
pub proof fn lemma_rows_in_order(state: DecoderModel, events: Seq<EventModel>)
    requires
        state.wf(),
    ensures
        forall|i: int|
            0 <= i < state.rows(events).len() ==> {
                let row = #[trigger] state.rows(events)[i];
                &&& row.number == state.want_row + i
                &&& row.wf()
                &&& (state.seen_row || state.done_file ==> row.cells.len() >= state.num_cols)
            },
        forall|i: int, j: int|
            0 <= i <= j < state.rows(events).len() ==> (#[trigger] state.rows(events)[i]).cells.len()
                <= (#[trigger] state.rows(events)[j]).cells.len(),
    decreases events.len(), if state.done_file {
        0nat
    } else {
        1nat
    }, state.owed(),
{
    let rows = state.rows(events);
    match state.phase() {
        Phase::Done => {
            assert(rows =~= Seq::<RowModel>::empty());
        },
        Phase::Idle => {
            let event = if events.len() > 0 {
                events[0]
            } else {
                EventModel::Eof
            };
            let rest = if events.len() > 0 {
                events.drop_first()
            } else {
                events
            };
            lemma_steps_keep_wf(state, event);
            if let Ok(next) = state.feed(event) {
                lemma_feed_widens(state, event);
                lemma_rows_in_order(next, rest);
                assert(rows == next.rows(rest));
            } else {
                assert(rows =~= Seq::<RowModel>::empty());
            }
        },
        _ => {
            let next = state.poll_next();
            let first = state.poll_row()->0;
            let after = next.rows(events);
            lemma_steps_keep_wf(state, EventModel::Eof);
            lemma_poll_row(state);
            lemma_rows_in_order(next, events);
            assert(rows == seq![first] + after);
            assert(next.seen_row || next.done_file);
            assert forall|i: int| 0 <= i < rows.len() implies {
                let row = #[trigger] rows[i];
                &&& row.number == state.want_row + i
                &&& row.wf()
                &&& row.cells.len() >= state.num_cols
            } by {
                if i > 0 {
                    assert(rows[i] == after[i - 1]);
                }
            }
            assert forall|i: int, j: int| 0 <= i <= j < rows.len() implies (#[trigger] rows[i]).cells.len()
                <= (#[trigger] rows[j]).cells.len() by {
                if i > 0 {
                    assert(rows[i] == after[i - 1]);
                    assert(rows[j] == after[j - 1]);
                } else if j > 0 {
                    assert(rows[j] == after[j - 1]);
                }
            }
        },
    }
}

/// After the end of the markup a traversal hands out the rows that the
/// worksheet declared and did not have, each of them empty, and then ends.
pub proof fn lemma_rows_after_end(state: DecoderModel, events: Seq<EventModel>)
    requires
        state.wf(),
        state.done_file,
        !state.failed,
    ensures
        state.rows(events).len() == state.owed(),
        state.owed() == if state.want_row <= state.num_rows {
            state.num_rows - state.want_row + 1
        } else {
            0
        },
        forall|i: int|
            0 <= i < state.rows(events).len() ==> #[trigger] state.rows(events)[i] == blank_row(
                state.num_cols,
                (state.want_row + i) as nat,
            ),
    decreases state.owed(),
{
    let rows = state.rows(events);
    if state.phase() == Phase::Draining {
        let next = state.poll_next();
        let after = next.rows(events);
        lemma_steps_keep_wf(state, EventModel::Eof);
        lemma_rows_after_end(next, events);
        assert(rows == seq![state.poll_row()->0] + after);
        assert forall|i: int| 0 <= i < rows.len() implies #[trigger] rows[i] == blank_row(
            state.num_cols,
            (state.want_row + i) as nat,
        ) by {
            if i > 0 {
                assert(rows[i] == after[i - 1]);
            }
        }
    } else {
        assert(rows =~= Seq::<RowModel>::empty());
    }
}

/// An event never makes the worksheet narrower once a row has opened, and
/// never takes back a row that was handed out.
pub proof fn lemma_feed_widens(state: DecoderModel, event: EventModel)
    requires
        state.wf(),
        state.phase() == Phase::Idle,
    ensures
        state.feed(event) matches Ok(next) ==> {
            &&& next.want_row == state.want_row
            &&& (state.seen_row ==> next.num_cols >= state.num_cols && next.seen_row)
        },
{
}

/// What `RowIter::poll` answers.
#[derive(Debug)]
pub enum Pull<'a> {
    /// The next row.
    Row(Row<'a>),
    /// There is no row yet: the decoder wants the next event.
    NeedEvent,
    /// There are no more rows.
    Done,
}

/// The decoder of one traversal of one worksheet.
pub struct RowIter<'a> {
    strings: &'a [String],
    styles: &'a [String],
    date_system: DateSystem,
    want_row: u64,
    next_row: Option<Row<'a>>,
    num_rows: u32,
    num_cols: u16,
    done_file: bool,
    failed: bool,
    seen_row: bool,
    in_row: bool,
    this_row: u32,
    row: Vec<Cell<'a>>,
    in_cell: bool,
    in_value: bool,
    cell: Cell<'a>,
}

impl<'a> View for RowIter<'a> {
    type V = DecoderModel;

    closed spec fn view(&self) -> DecoderModel {
        DecoderModel {
            strings: self.strings.deep_view(),
            styles: self.styles.deep_view(),
            date_system: self.date_system,
            want_row: self.want_row as nat,
            num_rows: self.num_rows as nat,
            num_cols: self.num_cols as nat,
            next_row: match self.next_row {
                Some(row) => Some(row@),
                None => None,
            },
            done_file: self.done_file,
            failed: self.failed,
            seen_row: self.seen_row,
            in_row: self.in_row,
            this_row: self.this_row as nat,
            cells: cell_models(self.row@),
            in_cell: self.in_cell,
            in_value: self.in_value,
            cell: self.cell@,
        }
    }
}

/// The error value of a cell whose text gave no value.
fn error_value(e: CellError) -> (r: ExcelValue<'static>)
    ensures
        r@ == ValueModel::Error(error_code(e)),
{
    match e {
        CellError::InvalidNumericLiteral => ExcelValue::Error("#VALUE!".to_owned()),
        CellError::InvalidDateSerial => ExcelValue::Error("#NUM!".to_owned()),
    }
}

/// The cell that opens with `attributes`.
fn open_cell(attributes: &[Attribute], styles: &[String]) -> (c: Cell<'static>)
    ensures
        c@ == opened_cell(attribute_models(attributes@), styles.deep_view()),
{
    let mut cell = new_cell();
    if let Some(r) = get(attributes, "r") {
        cell.reference = r.to_owned();
    }
    if let Some(t) = get(attributes, "t") {
        cell.cell_type = t.to_owned();
    }
    if let Some(s) = get(attributes, "s") {
        if let Some(style) = look_up(styles, s) {
            cell.style = style.clone();
        }
    }
    cell
}

impl<'a> RowIter<'a> {
    /// A decoder at the start of a worksheet, with the shared strings, the
    /// format codes and the date system of its workbook.
    pub fn new(strings: &'a [String], styles: &'a [String], date_system: DateSystem) -> (r: Self)
        ensures
            r@ == DecoderModel::start(strings.deep_view(), styles.deep_view(), date_system),
            r@.wf(),
    {
        let r = RowIter {
            strings,
            styles,
            date_system,
            want_row: 1,
            next_row: None,
            num_rows: 0,
            num_cols: 0,
            done_file: false,
            failed: false,
            seen_row: false,
            in_row: false,
            this_row: 0,
            row: Vec::new(),
            in_cell: false,
            in_value: false,
            cell: new_cell(),
        };
        assert(cell_models(r.row@) =~= Seq::<CellModel>::empty());
        r
    }

    /// Whether a cell is open, so that text would be taken: text outside a
    /// cell changes nothing.
    pub fn wants_text(&self) -> (r: bool)
        ensures
            r == self@.in_cell,
    {
        self.in_cell
    }

    /// Hands out the next row, if the decoder has one to give: the row it
    /// holds back or an empty row before it, or an empty row that is owed
    /// after the end. Else it says whether it wants an event or is done.
    pub fn poll(&mut self) -> (r: Pull<'a>)
        requires
            old(self)@.wf(),
        ensures
            final(self)@ == old(self)@.poll_next(),
            final(self)@.wf(),
            match r {
                Pull::Row(row) => old(self)@.poll_row() == Some(row@),
                Pull::NeedEvent => old(self)@.phase() == Phase::Idle,
                Pull::Done => old(self)@.phase() == Phase::Done,
            },
    {
        proof {
            lemma_steps_keep_wf(self@, EventModel::Eof);
        }
        if self.failed {
            return Pull::Done;
        }
        let held: Option<u64> = match &self.next_row {
            Some(row) => Some(row.1 as u64),
            None => None,
        };
        match held {
            Some(number) => {
                let current_row = self.want_row;
                self.want_row = current_row + 1;
                if number == current_row {
                    match self.next_row.take() {
                        Some(row) => Pull::Row(row),
                        None => Pull::Done,
                    }
                } else {
                    Pull::Row(empty_row(self.num_cols, current_row as u32))
                }
            },
            None => {
                if !self.done_file {
                    Pull::NeedEvent
                } else if self.want_row <= self.num_rows as u64 {
                    let current_row = self.want_row;
                    self.want_row = current_row + 1;
                    Pull::Row(empty_row(self.num_cols, current_row as u32))
                } else {
                    Pull::Done
                }
            },
        }
    }

    /// Takes the next event of the markup, which the decoder asked for.
    /// An error ends the traversal: nothing more comes after it.
    pub fn feed(&mut self, event: XmlEvent) -> (r: Result<(), DecodeError>)
        requires
            old(self)@.wf(),
            old(self)@.phase() == Phase::Idle,
        ensures
            final(self)@.wf(),
            match r {
                Ok(()) => old(self)@.feed(event@) == Ok::<DecoderModel, DecodeError>(
                    final(self)@,
                ),
                Err(e) => old(self)@.feed(event@) == Err::<DecoderModel, DecodeError>(e)
                    && final(self)@ == old(self)@.fail(),
            },
    {
        proof {
            lemma_steps_keep_wf(self@, event@);
        }
        let r = match event {
            XmlEvent::Empty { name, attributes } => {
                if str_eq(name.as_str(), "dimension") {
                    self.read_dimension(attributes.as_slice());
                }
                Ok(())
            },
            XmlEvent::Start { name, attributes } => {
                if str_eq(name.as_str(), "row") {
                    self.start_row(attributes.as_slice())
                } else if str_eq(name.as_str(), "c") {
                    if !self.in_row || self.in_cell {
                        Err(DecodeError::UnexpectedTag)
                    } else {
                        self.cell = open_cell(attributes.as_slice(), self.styles);
                        self.in_cell = true;
                        Ok(())
                    }
                } else {
                    if str_eq(name.as_str(), "v") || str_eq(name.as_str(), "t") {
                        self.in_value = true;
                    }
                    Ok(())
                }
            },
            XmlEvent::Text { content, number } => {
                self.put_text(content, number);
                Ok(())
            },
            XmlEvent::End { name } => {
                if str_eq(name.as_str(), "v") || str_eq(name.as_str(), "t") {
                    self.in_value = false;
                    Ok(())
                } else if str_eq(name.as_str(), "c") {
                    self.end_cell()
                } else if str_eq(name.as_str(), "row") {
                    self.end_row()
                } else {
                    Ok(())
                }
            },
            XmlEvent::Eof => {
                self.done_file = true;
                self.in_row = false;
                self.row = Vec::new();
                self.in_cell = false;
                self.in_value = false;
                self.cell = new_cell();
                assert(cell_models(self.row@) =~= Seq::<CellModel>::empty());
                Ok(())
            },
        };
        if r.is_err() {
            self.failed = true;
        }
        r
    }

    /// Reads the used range of the worksheet.
    fn read_dimension(&mut self, attributes: &[Attribute])
        ensures
            final(self)@ == old(self)@.on_dimension(attribute_models(attributes@)),
    {
        if let Some(range) = get(attributes, "ref") {
            if !self.seen_row && !str_eq(range, "A1") {
                if let Some((rows, cols)) = used_area(range) {
                    self.num_cols = cols;
                    self.num_rows = rows;
                }
            }
        }
    }

    /// Opens a row.
    fn start_row(&mut self, attributes: &[Attribute]) -> (r: Result<(), DecodeError>)
        ensures
            match r {
                Ok(()) => old(self)@.on_row_start(attribute_models(attributes@)) == Ok::<
                    DecoderModel,
                    DecodeError,
                >(final(self)@),
                Err(e) => old(self)@.on_row_start(attribute_models(attributes@)) == Err::<
                    DecoderModel,
                    DecodeError,
                >(e) && final(self)@ == old(self)@,
            },
    {
        if self.in_row {
            return Err(DecodeError::UnexpectedTag);
        }
        let number = match get(attributes, "r") {
            None => None,
            Some(r) => parse_unsigned(r, u32::MAX as u64),
        };
        match number {
            None => Err(DecodeError::MissingRowNumber),
            Some(number) => {
                if number < self.want_row {
                    Err(DecodeError::RowOutOfOrder)
                } else {
                    self.seen_row = true;
                    self.in_row = true;
                    self.this_row = number as u32;
                    Ok(())
                }
            },
        }
    }

    /// Takes text: the text of the open cell, or a part of its formula.
    fn put_text(&mut self, content: String, number: Option<Numeric>)
        ensures
            final(self)@ == old(self)@.on_text(content@, number),
    {
        if !self.in_cell {
            return ;
        }
        if self.in_value {
            let value = match resolve_value(
                content.as_str(),
                self.cell.cell_type.as_str(),
                self.cell.style.as_str(),
                number,
                self.strings,
                &self.date_system,
            ) {
                Ok(value) => value,
                Err(e) => error_value(e),
            };
            self.cell.raw_value = content;
            self.cell.value = value;
        } else {
            self.cell.formula.append(content.as_str());
        }
    }

    /// Closes the open cell and puts it in its place in the open row.
    fn end_cell(&mut self) -> (r: Result<(), DecodeError>)
        requires
            old(self)@.wf(),
        ensures
            match r {
                Ok(()) => old(self)@.on_cell_end() == Ok::<DecoderModel, DecodeError>(
                    final(self)@,
                ),
                Err(e) => old(self)@.on_cell_end() == Err::<DecoderModel, DecodeError>(e)
                    && final(self)@ == old(self)@,
            },
    {
        if !self.in_cell {
            return Err(DecodeError::UnexpectedTag);
        }
        match self.cell.coordinates() {
            None => Err(DecodeError::InvalidReference),
            Some((this_col, this_row)) => {
                if this_row != self.this_row || this_col as usize <= self.row.len() {
                    Err(DecodeError::CellMisplaced)
                } else {
                    let mut cell = new_cell();
                    std::mem::swap(&mut self.cell, &mut cell);
                    pad_row(&mut self.row, this_col - 1, this_row);
                    let ghost before = cell_models(self.row@);
                    self.row.push(cell);
                    assert(cell_models(self.row@) =~= before.push(cell@));
                    self.in_cell = false;
                    Ok(())
                }
            },
        }
    }

    /// Closes the open row and holds it back.
    fn end_row(&mut self) -> (r: Result<(), DecodeError>)
        requires
            old(self)@.wf(),
        ensures
            match r {
                Ok(()) => old(self)@.on_row_end() == Ok::<DecoderModel, DecodeError>(final(self)@),
                Err(e) => old(self)@.on_row_end() == Err::<DecoderModel, DecodeError>(e)
                    && final(self)@ == old(self)@,
            },
    {
        if !self.in_row {
            return Err(DecodeError::UnexpectedTag);
        }
        let mut row: Vec<Cell<'a>> = Vec::new();
        std::mem::swap(&mut self.row, &mut row);
        if row.len() > self.num_cols as usize {
            self.num_cols = row.len() as u16;
        }
        pad_row(&mut row, self.num_cols, self.this_row);
        self.next_row = Some(Row(row, self.this_row as usize));
        self.in_row = false;
        self.in_cell = false;
        self.cell = new_cell();
        assert(cell_models(self.row@) =~= Seq::<CellModel>::empty());
        Ok(())
    }
}

} // verus!
