//! This library is intended to help you deal with big Excel files. It
//! reads the SpreadsheetML / XML of an xlsx file as a stream, so you can see
//! the first ten rows of any tab within any Excel file extremely quickly,
//! without loading the file completely into memory.
//!
//! A worksheet stores its grid sparsely: empty cells and empty rows are
//! simply absent from its markup. The heart of the library is the row
//! decoder ([`decoder::RowIter`]), which rebuilds the dense grid one row at
//! a time, and the two codecs that the rebuilding needs: column letters
//! ([`column`]) and date serial numbers ([`date`]).
//!
//! The library does no input or output of its own. Whoever uses it reads
//! the workbook file and hands the library the events of its markup
//! ([`event::XmlEvent`]); [`workbook`] gathers from them what a workbook
//! says of itself, and a decoder the rows of a worksheet. Numbers pass
//! through the library as integers: a cell's number as the bits of its
//! float, and a date serial as whole days and milliseconds.
//!
//! Beside these stand the pieces of the command line tool `xlcat`
//! ([`config`], [`render`]) and the lexers of formulas and of number formats
//! ([`parser`], [`formats`]).

pub mod text;
pub mod column;
pub mod date;
pub mod value;
pub mod cell;
pub mod row;
pub mod table;
pub mod event;
pub mod decoder;
pub mod workbook;
pub mod config;
pub mod render;
pub mod cursor;
pub mod parser;
pub mod formats;

pub use column::{col2num, num2col};
pub use date::{date_to_excel_number, excel_number_to_date, DateSystem};
pub use value::ExcelValue;
pub use workbook::Worksheet;
