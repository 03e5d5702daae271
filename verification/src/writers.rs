//! Delimited text (the `csv` crate) and text aligned by elastic tabstops (the `tabwriter`
//! crate). What each crate writes is named, not restated: the names below stand for the
//! crates' output given what was written to them.
use vstd::prelude::*;

use crate::text::views;

verus! {

/// A CSV writer of the `csv` crate, writing to memory. (Verus does not take the declaration
/// of `csv::Writer` itself, whose parameter is bound by `std::io::Write`.)
#[verifier::external_body]
pub struct CsvWriter {
    writer: csv::Writer<Vec<u8>>,
}

#[verifier::external_type_specification]
#[verifier::external_body]
#[verifier::reject_recursive_types(W)]
pub struct ExTabWriter<W>(tabwriter::TabWriter<W>);

/// When fields are quoted.
#[derive(Clone, Copy, Debug, PartialEq, Eq, Structural)]
pub enum Quoting {
    /// Only where a field needs it (the crate's default)
    Necessary,
    /// Never
    Never,
}

/// The records written to a CSV writer so far, each a list of fields.
pub uninterp spec fn csv_records(w: CsvWriter) -> Seq<Seq<Seq<char>>>;

/// The delimiter and the quoting that a CSV writer was made with.
pub uninterp spec fn csv_layout(w: CsvWriter) -> (u8, Quoting);

/// The text that the `csv` crate writes for records with a delimiter and a quoting.
pub uninterp spec fn csv_text_spec(delimiter: u8, quoting: Quoting, records: Seq<Seq<Seq<char>>>) -> Seq<char>;

/// `csv::WriterBuilder::new()` with the delimiter and the quoting, writing to a `Vec<u8>`:
/// a writer with nothing written to it.
#[verifier::external_body]
pub(crate) fn csv_writer(delimiter: u8, quoting: Quoting) -> (w: CsvWriter)
    ensures
        csv_records(w) == Seq::<Seq<Seq<char>>>::empty(),
        csv_layout(w) == (delimiter, quoting),
{
    let style = match quoting {
        Quoting::Necessary => csv::QuoteStyle::Necessary,
        Quoting::Never => csv::QuoteStyle::Never,
    };
    CsvWriter { writer: csv::WriterBuilder::new().delimiter(delimiter).quote_style(style).from_writer(vec![]) }
}

/// `Writer::write_record`: appends a record. The writer refuses a record whose length
/// differs from the first one's; `requires` leaves that out.
#[verifier::external_body]
pub(crate) fn csv_write_record(w: &mut CsvWriter, record: &Vec<String>)
    requires
        csv_records(*old(w)).len() > 0 ==> record@.len() == csv_records(*old(w))[0].len(),
    ensures
        csv_records(*final(w)) == csv_records(*old(w)).push(views(record@)),
        csv_layout(*final(w)) == csv_layout(*old(w)),
{
    w.writer.write_record(record).unwrap()
}

/// `Writer::into_inner`, read as UTF-8: the text of the records written. An ASCII
/// delimiter keeps the text valid UTF-8.
#[verifier::external_body]
pub(crate) fn csv_into_text(w: CsvWriter) -> (r: String)
    requires
        csv_layout(w).0 < 128,
    ensures
        r@ == csv_text_spec(csv_layout(w).0, csv_layout(w).1, csv_records(w)),
{
    String::from_utf8(w.writer.into_inner().unwrap()).unwrap()
}

/// The text written to a tab writer so far.
pub uninterp spec fn tab_written(w: tabwriter::TabWriter<Vec<u8>>) -> Seq<char>;

/// The text that `tabwriter` makes of a text: its cells, separated by tabs, aligned in
/// columns by elastic tabstops.
pub uninterp spec fn tab_aligned_spec(text: Seq<char>) -> Seq<char>;

/// `TabWriter::new(vec![])`: a tab writer with nothing written to it.
#[verifier::external_body]
pub(crate) fn tab_writer() -> (w: tabwriter::TabWriter<Vec<u8>>)
    ensures
        tab_written(w) == Seq::<char>::empty(),
{
    tabwriter::TabWriter::new(vec![])
}

/// `TabWriter::write_all`: appends a text. Writing to memory does not fail.
#[verifier::external_body]
pub(crate) fn tab_write(w: &mut tabwriter::TabWriter<Vec<u8>>, text: &str)
    ensures
        tab_written(*final(w)) == tab_written(*old(w)) + text@,
{
    std::io::Write::write_all(w, text.as_bytes()).unwrap()
}

/// `TabWriter::into_inner`, read as UTF-8: the aligned text of all that was written.
#[verifier::external_body]
pub(crate) fn tab_into_text(w: tabwriter::TabWriter<Vec<u8>>) -> (r: String)
    ensures
        r@ == tab_aligned_spec(tab_written(w)),
{
    String::from_utf8(w.into_inner().unwrap()).unwrap()
}

} // verus!
