//! The range of rows that a result set holds.
use vstd::prelude::*;

use crate::text::{nat_text, owned, push_u64};

verus! {

/// Which rows of how many a result set holds.
#[derive(Clone, Copy, Debug, Default, PartialEq, Eq, Structural)]
pub struct Range {
    pub count: usize,
    pub total: u64,
    pub start: u64,
    pub end: u64,
}

/// The description of a range: `Rows start-end of total`.
pub open spec fn range_text(r: Range) -> Seq<char> {
    "Rows "@ + nat_text(r.start as nat) + "-"@ + nat_text(r.end as nat) + " of "@ + nat_text(r.total as nat)
}

impl Range {
    /// The description of the range: `Rows start-end of total`.
    pub fn to_string(&self) -> (r: String)
        ensures
            r@ == range_text(*self),
    {
        let mut s = owned("Rows ");
        push_u64(&mut s, self.start);
        s.append("-");
        push_u64(&mut s, self.end);
        s.append(" of ");
        push_u64(&mut s, self.total);
        s
    }
}

} // verus!

verus! {

/// The pattern of a column's `printf` format; its group is the conversion character.
pub const FORMAT_PATTERN: &'static str = r#"^%.*([\w%])$"#;

/// How a cell's text is formatted for the console.
#[derive(Clone, Copy, Debug, PartialEq, Eq, Structural)]
pub enum CellConversion {
    /// The text is shown as it is
    Keep,
    /// The text is read as a signed integer and formatted (`d`, `i`, `c`)
    Signed,
    /// The text is read as an unsigned integer and formatted (`o`, `u`, `x`)
    Unsigned,
    /// The text is read as a floating-point number and formatted (`e`, `f`, `g`, `a`)
    Float,
    /// The text is formatted as a string (`s`)
    Text,
}

/// The conversion character of a format, lower-cased; `s` when the format does not match
/// [FORMAT_PATTERN].
pub open spec fn conversion_spec(format: Seq<char>) -> Seq<char> {
    if !crate::pattern::regex_valid(FORMAT_PATTERN@) {
        "s"@
    } else {
        match crate::pattern::regex_captures_spec(FORMAT_PATTERN@, format) {
            Some(g) => crate::text::lowercase_spec(crate::sql::group_or_empty(g, 1)),
            None => "s"@,
        }
    }
}

/// The conversion that a conversion character calls for.
pub open spec fn conversion_of(c: Seq<char>) -> CellConversion {
    if c == "d"@ || c == "i"@ || c == "c"@ {
        CellConversion::Signed
    } else if c == "o"@ || c == "u"@ || c == "x"@ {
        CellConversion::Unsigned
    } else if c == "e"@ || c == "f"@ || c == "g"@ || c == "a"@ {
        CellConversion::Float
    } else if c == "s"@ {
        CellConversion::Text
    } else {
        CellConversion::Keep
    }
}

/// How the console formats a cell's text with the column's format: an empty text is kept;
/// otherwise as the format's conversion character asks.
pub open spec fn cell_conversion_spec(format: Seq<char>, cell: Seq<char>) -> CellConversion {
    if cell.len() == 0 {
        CellConversion::Keep
    } else {
        conversion_of(conversion_spec(format))
    }
}

/// How the console formats a cell's text with the column's format (see
/// [cell_conversion_spec]).
pub fn cell_conversion(column_format: &str, cell: &str) -> (r: CellConversion)
    ensures
        r == cell_conversion_spec(column_format@, cell@),
{
    if crate::text::is_empty_str(cell) {
        return CellConversion::Keep;
    }
    let spec = match crate::pattern::regex_captures(FORMAT_PATTERN, column_format) {
        Ok(Some(g)) => crate::text::to_lowercase(crate::sql::group_text(&g, 1).as_str()),
        _ => owned("s"),
    };
    let c = spec.as_str();
    if crate::text::str_eq(c, "d") || crate::text::str_eq(c, "i") || crate::text::str_eq(c, "c") {
        CellConversion::Signed
    } else if crate::text::str_eq(c, "o") || crate::text::str_eq(c, "u") || crate::text::str_eq(c, "x") {
        CellConversion::Unsigned
    } else if crate::text::str_eq(c, "e") || crate::text::str_eq(c, "f") || crate::text::str_eq(c, "g")
        || crate::text::str_eq(c, "a") {
        CellConversion::Float
    } else if crate::text::str_eq(c, "s") {
        CellConversion::Text
    } else {
        CellConversion::Keep
    }
}

/// The format of a column for the console: its datatype's format, or `%s` where the
/// datatype is not found or has none.
pub open spec fn column_format_spec(datatype: Seq<char>, datatypes: Seq<crate::datatype::DatatypeView>) -> Seq<char> {
    if exists|i: int| 0 <= i < datatypes.len() && #[trigger] datatypes[i].datatype == datatype {
        let i = choose|i: int| 0 <= i < datatypes.len() && datatypes[i].datatype == datatype
            && forall|j: int| 0 <= j < i ==> datatypes[j].datatype != datatype;
        if datatypes[i].format.len() == 0 { "%s"@ } else { datatypes[i].format }
    } else {
        "%s"@
    }
}

/// The console format of a column of the given datatype (see [column_format_spec]).
pub fn column_format(datatype: &str, datatypes: &Vec<crate::datatype::Datatype>) -> (r: String)
    ensures
        r@ == column_format_spec(datatype@, datatypes@.map_values(|d: crate::datatype::Datatype| d@)),
{
    let ghost dv = datatypes@.map_values(|d: crate::datatype::Datatype| d@);
    let mut i: usize = 0;
    while i < datatypes.len()
        invariant
            i <= datatypes.len(),
            dv == datatypes@.map_values(|d: crate::datatype::Datatype| d@),
            forall|j: int| 0 <= j < i ==> dv[j].datatype != datatype@,
        decreases datatypes.len() - i,
    {
        assert(dv[i as int] == datatypes@[i as int]@);
        if crate::text::str_eq(datatypes[i].datatype.as_str(), datatype) {
            proof {
                let k = choose|k: int| 0 <= k < dv.len() && dv[k].datatype == datatype@
                    && forall|j: int| 0 <= j < k ==> dv[j].datatype != datatype@;
                assert(dv[i as int].datatype == datatype@);
                if k < i {
                    assert(dv[k].datatype != datatype@);
                }
                if k > i {
                    assert(dv[i as int].datatype != datatype@);
                }
            }
            if crate::text::is_empty_str(datatypes[i].format.as_str()) {
                return owned("%s");
            }
            return datatypes[i].format.clone();
        }
        i = i + 1;
    }
    owned("%s")
}

} // verus!

verus! {

/// A value handed to a `printf` format: a signed or an unsigned integer, or a text.
#[derive(Clone, Debug)]
pub enum PrintfArg {
    Signed(isize),
    Unsigned(usize),
    Text(String),
}

/// The value of a [PrintfArg].
pub enum PrintfValue {
    Signed(int),
    Unsigned(int),
    Text(Seq<char>),
}

impl PrintfArg {
    /// The value the argument carries.
    pub open spec fn value(&self) -> PrintfValue {
        match self {
            PrintfArg::Signed(n) => PrintfValue::Signed(*n as int),
            PrintfArg::Unsigned(n) => PrintfValue::Unsigned(*n as int),
            PrintfArg::Text(s) => PrintfValue::Text(s@),
        }
    }
}

/// True for an ASCII digit.
pub open spec fn is_ascii_digit(c: char) -> bool {
    '0' <= c <= '9'
}

/// True when the text holds no ten digits in a row. `sprintf` reads the width and the
/// precision of a format into an `i32`, which overflows on ten digits or more.
pub open spec fn short_numbers(s: Seq<char>) -> bool {
    forall|i: int| 0 <= i && i + 10 <= s.len() ==> #[trigger] window_broken(s, i)
}

/// True when one of the ten characters from `i` on is not a digit.
pub open spec fn window_broken(s: Seq<char>, i: int) -> bool {
    exists|k: int| i <= k < i + 10 && !is_ascii_digit(#[trigger] s[k])
}

/// Whether the text holds no ten digits in a row (see [short_numbers]).
pub fn has_short_numbers(s: &str) -> (r: bool)
    ensures
        r == short_numbers(s@),
{
    let v = crate::text::chars_of(s);
    let mut run: usize = 0;
    let mut i: usize = 0;
    while i < v.len()
        invariant
            v@ == s@,
            i <= v.len(),
            run <= 9,
            run <= i,
            forall|k: int| i - run <= k < i ==> is_ascii_digit(#[trigger] v@[k]),
            run < i ==> !is_ascii_digit(v@[i - run - 1]),
            forall|j: int| 0 <= j && j + 10 <= i ==> #[trigger] window_broken(v@, j),
        decreases v.len() - i,
    {
        if '0' <= v[i] && v[i] <= '9' {
            if run == 9 {
                proof {
                    let j = i - 9;
                    assert forall|k: int| j <= k < j + 10 implies is_ascii_digit(#[trigger] s@[k]) by {
                        if k < i { assert(is_ascii_digit(v@[k])); }
                    }
                    if short_numbers(s@) {
                        assert(0 <= j && j + 10 <= s@.len());
                        assert(window_broken(s@, j));
                        let k = choose|k: int| j <= k < j + 10 && !is_ascii_digit(#[trigger] s@[k]);
                        assert(false);
                    }
                }
                return false;
            }
            proof {
                assert forall|j: int| 0 <= j && j + 10 <= i + 1 implies #[trigger] window_broken(v@, j) by {
                    if j + 10 == i + 1 {
                        let k = i - run - 1;
                        assert(!is_ascii_digit(v@[k]));
                    }
                }
            }
            run = run + 1;
        } else {
            proof {
                assert forall|j: int| 0 <= j && j + 10 <= i + 1 implies #[trigger] window_broken(v@, j) by {
                    if j + 10 == i + 1 {
                        assert(!is_ascii_digit(v@[i as int]));
                    }
                }
            }
            run = 0;
        }
        i = i + 1;
    }
    true
}

/// True when the conversion of a cell calls `sprintf`.
pub open spec fn calls_sprintf(c: CellConversion) -> bool {
    c == CellConversion::Signed || c == CellConversion::Unsigned || c == CellConversion::Text
}

/// What `sprintf::vsprintf` makes of a format and one argument; `None` where it reports
/// an error.
pub uninterp spec fn sprintf_spec(format: Seq<char>, arg: PrintfValue) -> Option<Seq<char>>;

/// `sprintf::vsprintf(format, [arg])`: the formatted text, or `None` where the crate
/// reports an error. The result is named by [sprintf_spec], not restated.
#[verifier::external_body]
fn sprintf_one(format: &str, arg: &PrintfArg) -> (r: Option<String>)
    requires
        short_numbers(format@),
    ensures
        match r {
            Some(s) => sprintf_spec(format@, arg.value()) == Some(s@),
            None => sprintf_spec(format@, arg.value()) is None,
        },
{
    let result = match arg {
        PrintfArg::Signed(n) => sprintf::vsprintf(format, &[n as &dyn sprintf::Printf]),
        PrintfArg::Unsigned(n) => sprintf::vsprintf(format, &[n as &dyn sprintf::Printf]),
        PrintfArg::Text(s) => sprintf::vsprintf(format, &[&s.as_str() as &dyn sprintf::Printf]),
    };
    result.ok()
}

/// The signed integer whose bits the unsigned text `out` of a signed conversion spells:
/// `sprintf` writes a signed integer's bits as an unsigned one.
pub open spec fn signed_of(out: Seq<char>) -> int {
    ((crate::text::parse_nat_spec(out)->0) as usize) as isize as int
}

/// True when `v` fits in an `isize`.
pub open spec fn fits_isize(v: int) -> bool {
    isize::MIN <= v <= isize::MAX
}

/// True when the formatting of a cell is defined: it does not call for a floating-point
/// conversion; where `sprintf` is called, the format holds no ten digits in a row (see
/// [short_numbers]); and where a signed conversion formats the cell, what `sprintf` wrote
/// reads back as an unsigned integer.
pub open spec fn cell_format_defined(format: Seq<char>, cell: Seq<char>) -> bool {
    &&& cell_conversion_spec(format, cell) != CellConversion::Float
    &&& calls_sprintf(cell_conversion_spec(format, cell)) ==> short_numbers(format)
    &&& cell_conversion_spec(format, cell) == CellConversion::Signed
        ==> match crate::text::parse_int_spec(cell) {
            Some(v) => fits_isize(v) ==> match sprintf_spec(format, PrintfValue::Signed(v)) {
                Some(out) => crate::text::parse_nat_spec(out) is Some
                    && crate::text::parse_nat_spec(out)->0 <= usize::MAX,
                None => true,
            },
            None => true,
        }
}

/// The text that the console shows for a cell with its column's format: a signed
/// conversion reads the cell as an `isize`, an unsigned one as a `usize`, and formats the
/// number (the number alone where `sprintf` fails); the cell as it is where it does not
/// read as such a number; a text conversion formats the cell itself; otherwise the cell
/// is kept.
pub open spec fn formatted_cell(format: Seq<char>, cell: Seq<char>) -> Seq<char> {
    match cell_conversion_spec(format, cell) {
        CellConversion::Signed => match crate::text::parse_int_spec(cell) {
            Some(v) => if fits_isize(v) {
                match sprintf_spec(format, PrintfValue::Signed(v)) {
                    Some(out) => crate::text::int_text(signed_of(out)),
                    None => crate::text::int_text(v),
                }
            } else {
                cell
            },
            None => cell,
        },
        CellConversion::Unsigned => match crate::text::parse_nat_spec(cell) {
            Some(v) => if v <= usize::MAX {
                match sprintf_spec(format, PrintfValue::Unsigned(v)) {
                    Some(out) => out,
                    None => nat_text(v as nat),
                }
            } else {
                cell
            },
            None => cell,
        },
        CellConversion::Text => match sprintf_spec(format, PrintfValue::Text(cell)) {
            Some(out) => out,
            None => cell,
        },
        _ => cell,
    }
}

/// An empty cell is shown as it is, whatever the column's format.
pub proof fn lemma_empty_cell_kept(format: Seq<char>)
    ensures
        cell_format_defined(format, Seq::empty()),
        formatted_cell(format, Seq::empty()) == Seq::<char>::empty(),
{
}

/// Reads `cell` as an `isize`, as `str::parse::<isize>` does.
fn parse_isize(cell: &str) -> (r: Option<isize>)
    ensures
        match r {
            Some(n) => crate::text::parse_int_spec(cell@) == Some(n as int),
            None => !(crate::text::parse_int_spec(cell@) matches Some(v) && fits_isize(v)),
        },
{
    match crate::text::parse_i64(cell) {
        Some(n) => {
            if (isize::MIN as i64) <= n && n <= (isize::MAX as i64) {
                Some(n as isize)
            } else {
                None
            }
        },
        None => None,
    }
}

/// The text that the console shows for a cell with its column's format (see
/// [formatted_cell]); defined where [cell_format_defined] holds.
pub fn format_cell_text_value(column_format: &str, cell: &str) -> (r: String)
    requires
        cell_format_defined(column_format@, cell@),
    ensures
        r@ == formatted_cell(column_format@, cell@),
{
    match cell_conversion(column_format, cell) {
        CellConversion::Signed => match parse_isize(cell) {
            Some(n) => match sprintf_one(column_format, &PrintfArg::Signed(n)) {
                Some(out) => match crate::text::parse_usize(out.as_str()) {
                    Some(m) => crate::text::i64_text((m as isize) as i64),
                    // What a signed conversion writes reads back as a `usize` (requires).
                    None => out,
                },
                None => crate::text::i64_text(n as i64),
            },
            None => owned(cell),
        },
        CellConversion::Unsigned => match crate::text::parse_usize(cell) {
            Some(n) => match sprintf_one(column_format, &PrintfArg::Unsigned(n)) {
                Some(out) => out,
                None => crate::text::u64_text(n as u64),
            },
            None => owned(cell),
        },
        CellConversion::Text => match sprintf_one(column_format, &PrintfArg::Text(owned(cell))) {
            Some(out) => out,
            None => owned(cell),
        },
        _ => owned(cell),
    }
}

/// The text that the console shows for a cell with its column's format, where
/// [cell_format_defined] holds; `None` where it does not: a floating-point conversion,
/// which the console does by itself, or a signed conversion whose output does not read
/// back as an unsigned integer.
pub fn format_cell_text(column_format: &str, cell: &str) -> (r: Option<String>)
    ensures
        r is Some <==> cell_format_defined(column_format@, cell@),
        r matches Some(s) ==> s@ == formatted_cell(column_format@, cell@),
{
    let conversion = cell_conversion(column_format, cell);
    if conversion == CellConversion::Float {
        return None;
    }
    if (conversion == CellConversion::Signed || conversion == CellConversion::Unsigned
        || conversion == CellConversion::Text) && !has_short_numbers(column_format) {
        return None;
    }
    if conversion == CellConversion::Signed {
        if let Some(n) = parse_isize(cell) {
            if let Some(out) = sprintf_one(column_format, &PrintfArg::Signed(n)) {
                if crate::text::parse_usize(out.as_str()).is_none() {
                    return None;
                }
            }
        }
    }
    Some(format_cell_text_value(column_format, cell))
}

} // verus!

verus! {

/// The rows that a query gave, with what they were read with.
#[derive(Debug)]
pub struct ResultSet {
    pub select: crate::select::Select,
    pub statement: String,
    pub parameters: Vec<crate::json::JsonValue>,
    pub range: Range,
    pub table: crate::table::Table,
    /// The columns (and only the columns) used in the Select statement
    pub columns: Vec<crate::column::Column>,
    /// The datatypes used in the Select statement
    pub datatypes: Vec<crate::datatype::Datatype>,
    pub rows: Vec<crate::row::Row>,
}

/// The names of the columns, in order.
pub open spec fn header_spec(columns: Seq<crate::column::Column>) -> Seq<Seq<char>> {
    columns.map_values(|c: crate::column::Column| c@.column)
}

/// The texts of a row's cells, in order.
pub open spec fn row_texts(row: crate::row::Row) -> Seq<Seq<char>> {
    row@.cells.map_values(|e: (Seq<char>, crate::row::CellView)| e.1.text)
}

/// The records of a result set in delimited text: the header, then each row's texts.
pub open spec fn xsv_records(columns: Seq<crate::column::Column>, rows: Seq<crate::row::Row>) -> Seq<Seq<Seq<char>>> {
    seq![header_spec(columns)] + rows.map_values(|r: crate::row::Row| row_texts(r))
}

/// True when every row has as many cells as there are columns.
pub open spec fn rows_aligned(columns: Seq<crate::column::Column>, rows: Seq<crate::row::Row>) -> bool {
    forall|i: int| 0 <= i < rows.len() ==> (#[trigger] rows[i])@.cells.len() == columns.len()
}

/// The lines of the rows, each the texts of its cells joined by tabs and ended by a newline.
pub open spec fn rows_text(rows: Seq<crate::row::Row>) -> Seq<char>
    decreases rows.len(),
{
    if rows.len() == 0 {
        Seq::empty()
    } else {
        rows_text(rows.drop_last()) + crate::text::seq_join(row_texts(rows.last()), "\t"@) + "\n"@
    }
}

/// The text of a result set before alignment: its range, its header and its rows, a line each.
pub open spec fn result_set_lines(rs: ResultSet) -> Seq<char> {
    range_text(rs.range) + "\n"@ + crate::text::seq_join(header_spec(rs.columns@), "\t"@) + "\n"@
        + rows_text(rs.rows@)
}

impl ResultSet {
    /// The names of the columns.
    fn header(&self) -> (r: Vec<String>)
        ensures
            crate::text::views(r@) == header_spec(self.columns@),
    {
        let mut header: Vec<String> = Vec::new();
        let mut i: usize = 0;
        while i < self.columns.len()
            invariant
                i <= self.columns.len(),
                crate::text::views(header@) == header_spec(self.columns@).take(i as int),
            decreases self.columns.len() - i,
        {
            let ghost before = header@;
            header.push(self.columns[i].column.clone());
            assert(crate::text::views(header@) == crate::text::views(before).push(self.columns@[i as int]@.column));
            assert(header_spec(self.columns@).take(i + 1) == header_spec(self.columns@).take(i as int).push(
                self.columns@[i as int]@.column));
            i = i + 1;
        }
        assert(header_spec(self.columns@).take(i as int) == header_spec(self.columns@));
        header
    }

    /// The result set as delimited text: the header, then the rows, as the `csv` crate
    /// writes them with the delimiter and the quoting. The crate refuses rows of another
    /// length than the header's.
    pub fn to_xsv(&self, delimiter: u8, quoting: crate::writers::Quoting) -> (r: String)
        requires
            delimiter < 128,
            rows_aligned(self.columns@, self.rows@),
        ensures
            r@ == crate::writers::csv_text_spec(delimiter, quoting, xsv_records(self.columns@, self.rows@)),
    {
        let ghost records = xsv_records(self.columns@, self.rows@);
        let mut w = crate::writers::csv_writer(delimiter, quoting);
        let header = self.header();
        crate::writers::csv_write_record(&mut w, &header);
        let mut i: usize = 0;
        while i < self.rows.len()
            invariant
                i <= self.rows.len(),
                rows_aligned(self.columns@, self.rows@),
                records == xsv_records(self.columns@, self.rows@),
                crate::writers::csv_records(w) == records.take(i + 1),
                crate::writers::csv_layout(w) == (delimiter, quoting),
            decreases self.rows.len() - i,
        {
            let record = self.rows[i].to_strings();
            assert(records[0] == header_spec(self.columns@));
            assert(crate::writers::csv_records(w)[0] == records[0]);
            assert(self.rows@[i as int]@.cells.len() == self.columns@.len());
            assert(records[i + 1] == row_texts(self.rows@[i as int]));
            crate::writers::csv_write_record(&mut w, &record);
            assert(records.take(i + 2) == records.take(i + 1).push(records[i + 1]));
            i = i + 1;
        }
        assert(records.take(i + 1) == records);
        crate::writers::csv_into_text(w)
    }

    /// The result set as comma-separated values, quoted where a field needs it.
    pub fn to_csv(&self) -> (r: String)
        requires
            rows_aligned(self.columns@, self.rows@),
        ensures
            r@ == crate::writers::csv_text_spec(44, crate::writers::Quoting::Necessary,
                xsv_records(self.columns@, self.rows@)),
    {
        self.to_xsv(44, crate::writers::Quoting::Necessary)
    }

    /// The result set as tab-separated values, never quoted.
    pub fn to_tsv(&self) -> (r: String)
        requires
            rows_aligned(self.columns@, self.rows@),
        ensures
            r@ == crate::writers::csv_text_spec(9, crate::writers::Quoting::Never,
                xsv_records(self.columns@, self.rows@)),
    {
        self.to_xsv(9, crate::writers::Quoting::Never)
    }

    /// The result set as text: its range, its header and its rows, aligned in columns.
    pub fn to_string(&self) -> (r: String)
        ensures
            r@ == crate::writers::tab_aligned_spec(result_set_lines(*self)),
    {
        let mut tw = crate::writers::tab_writer();
        let range = self.range.to_string();
        crate::writers::tab_write(&mut tw, range.as_str());
        crate::writers::tab_write(&mut tw, "\n");
        let header = crate::text::join(&self.header(), "\t");
        crate::writers::tab_write(&mut tw, header.as_str());
        crate::writers::tab_write(&mut tw, "\n");
        let ghost start = crate::writers::tab_written(tw);
        let mut i: usize = 0;
        while i < self.rows.len()
            invariant
                i <= self.rows.len(),
                crate::writers::tab_written(tw) == start + rows_text(self.rows@.take(i as int)),
            decreases self.rows.len() - i,
        {
            let line = crate::text::join(&self.rows[i].to_strings(), "\t");
            crate::writers::tab_write(&mut tw, line.as_str());
            crate::writers::tab_write(&mut tw, "\n");
            assert(self.rows@.take(i + 1).drop_last() == self.rows@.take(i as int));
            assert(row_texts(self.rows@[i as int]) == self.rows@[i as int]@.cells.map_values(
                |e: (Seq<char>, crate::row::CellView)| e.1.text));
            i = i + 1;
        }
        assert(self.rows@.take(i as int) == self.rows@);
        crate::writers::tab_into_text(tw)
    }
}

} // verus!
