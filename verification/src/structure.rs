//! Column structures: `from(table.column)` and `from(column)`.
use vstd::prelude::*;

use crate::error::RelatableError;
use crate::pattern::{group, regex_captures, regex_captures_spec, regex_valid};
use crate::text::{cat, push_char, seq_join, starts_with, trim, trim_spec};

verus! {

/// A column's structure: the column takes its values from another column,
/// `From(table, column)`; with no table, the column is in the same table.
#[derive(Debug, PartialEq, Eq, Hash)]
pub enum Structure {
    From(Option<String>, String),
}

/// The model of a structure.
pub type StructureView = (Option<Seq<char>>, Seq<char>);

impl View for Structure {
    type V = StructureView;

    open spec fn view(&self) -> StructureView {
        match self {
            Structure::From(t, c) => (
                match t {
                    Some(t) => Some(t@),
                    None => None,
                },
                c@,
            ),
        }
    }
}

impl Clone for Structure {
    fn clone(&self) -> (r: Self)
        ensures
            r@ == self@,
    {
        match self {
            Structure::From(t, c) => Structure::From(
                match t {
                    Some(t) => Some(t.clone()),
                    None => None,
                },
                c.clone(),
            ),
        }
    }
}

/// The pattern of a `from()` structure.
pub const FROM_PATTERN: &'static str = r"from\(((.+?)\.)?(.+?)\)";

/// The pattern of a quoted name.
pub const UNQUOTED_PATTERN: &'static str = r#"^['"](?P<unquoted>.*)['"]$"#;

/// A name with the quotes that surround it removed, as the unquoting pattern finds them.
pub open spec fn unquote_spec(name: Seq<char>) -> Seq<char> {
    match regex_captures_spec(UNQUOTED_PATTERN@, name) {
        Some(groups) => if groups.len() > 1 && groups[1] is Some { groups[1]->0 } else { name },
        None => name,
    }
}

/// The structure written as text.
pub open spec fn structure_text(s: StructureView) -> Seq<char> {
    match s.0 {
        None => "from("@ + s.1 + ")"@,
        Some(t) => "from("@ + t + seq!['.'] + s.1 + ")"@,
    }
}

/// What [Structure::from_str] reads from a text: `Some` of the structure, or `None`
/// when the text is no valid `from()` structure.
pub open spec fn parse_structure(text: Seq<char>) -> Option<StructureView> {
    if !"from("@.is_prefix_of(text) {
        None
    } else {
        match regex_captures_spec(FROM_PATTERN@, text) {
            None => None,
            Some(groups) => Some((
                if groups.len() > 2 && groups[2] is Some { Some(unquote_spec(groups[2]->0)) } else { None },
                unquote_spec(if groups.len() > 3 && groups[3] is Some { groups[3]->0 } else { Seq::empty() }),
            )),
        }
    }
}

/// The name with surrounding quotes removed.
pub(crate) fn unquote_name(name: &str) -> (r: Result<String, RelatableError>)
    ensures
        match r {
            Ok(s) => regex_valid(UNQUOTED_PATTERN@) && s@ == unquote_spec(name@),
            Err(e) => !regex_valid(UNQUOTED_PATTERN@) && e is ConfigError,
        },
{
    match regex_captures(UNQUOTED_PATTERN, name) {
        Ok(Some(groups)) => match group(&groups, 1) {
            Some(s) => Ok(s),
            None => Ok(String::from_str(name)),
        },
        Ok(None) => Ok(String::from_str(name)),
        Err(_) => Err(RelatableError::ConfigError(String::from_str("invalid pattern for quoted names"))),
    }
}

impl Structure {
    /// The empty `from()` structure.
    pub fn default() -> (r: Self)
        ensures
            r@ == (None::<Seq<char>>, Seq::<char>::empty()),
    {
        Structure::From(None, String::new())
    }

    /// Read a structure from text such as `from(table.column)` or `from(column)`.
    /// Quotes around the table and the column are removed. Text that does not start
    /// with `from(`, or that the `from()` pattern does not match, is an input error.
    pub fn from_str(structure: &str) -> (r: Result<Structure, RelatableError>)
        ensures
            regex_valid(FROM_PATTERN@) && regex_valid(UNQUOTED_PATTERN@) ==> match r {
                Ok(s) => parse_structure(structure@) == Some(s@),
                Err(e) => parse_structure(structure@) is None && e is InputError,
            },
    {
        if starts_with(structure, "from(") {
            match regex_captures(FROM_PATTERN, structure) {
                Ok(Some(groups)) => {
                    let table = match group(&groups, 2) {
                        Some(t) => match unquote_name(t.as_str()) {
                            Ok(t) => Some(t),
                            Err(e) => return Err(e),
                        },
                        None => None,
                    };
                    let column = match group(&groups, 3) {
                        Some(c) => c,
                        None => String::new(),
                    };
                    let column = match unquote_name(column.as_str()) {
                        Ok(c) => c,
                        Err(e) => return Err(e),
                    };
                    Ok(Structure::From(table, column))
                },
                Ok(None) => {
                    let mut m = String::from_str("Invalid from() structure: '");
                    m.append(structure);
                    m.append("'");
                    Err(RelatableError::InputError(m))
                },
                Err(_) => Err(RelatableError::ConfigError(String::from_str("invalid pattern for from() structures"))),
            }
        } else {
            let mut m = String::from_str("Invalid structure: '");
            m.append(structure);
            m.append("'");
            Err(RelatableError::InputError(m))
        }
    }

    /// The structure as text: `from(column)` or `from(table.column)`.
    pub fn to_string(&self) -> (r: String)
        ensures
            r@ == structure_text(self@),
    {
        match self {
            Structure::From(s_table, s_column) => match s_table {
                None => {
                    let mut s = cat("from(", s_column.as_str());
                    s.append(")");
                    s
                },
                Some(t) => {
                    let mut s = cat("from(", t.as_str());
                    push_char(&mut s, '.');
                    s.append(s_column.as_str());
                    s.append(")");
                    s
                },
            },
        }
    }
}

/// The condition of a `from()` structure: `"column" NOT IN (SELECT "s_column" FROM "s_table")`.
pub open spec fn from_condition(column: Seq<char>, s_table: Seq<char>, s_column: Seq<char>) -> Seq<char> {
    seq!['"'] + column + seq!['"'] + " NOT IN (\n                               SELECT \""@ + s_column + "\" FROM \""@ + s_table
        + "\"\n                           )"@
}

/// The statement that adds an error message for each value of the column (in the given rows,
/// or in all rows when none are given) that is missing from the column that the structure
/// names, and its parameters. With no table, the structure's column is in the column's own
/// table; quotes around the names are removed.
pub open spec fn structure_validation_spec(s: StructureView, table: Seq<char>, column: Seq<char>, rows: Seq<u64>, kind: crate::sql::DbKind) -> (Seq<char>, Seq<crate::json::Json>) {
    let s_table = unquote_spec(match s.0 { Some(t) => t, None => table });
    let s_column = unquote_spec(s.1);
    let quoted = seq!['"'] + column + seq!['"'];
    (
        crate::sql::message_insert_sql(
            crate::sql::placeholder(kind, 1), crate::sql::placeholder(kind, 2), quoted,
            crate::sql::placeholder(kind, 3), crate::sql::placeholder(kind, 4), table)
            + from_condition(column, s_table, s_column)
            + crate::sql::rows_clause(kind, crate::sql::advance(kind, 0, 4), rows.len())
            + crate::sql::RETURNING_SQL@,
        seq![
            crate::json::Json::Str(table),
            crate::json::Json::Str(column),
            crate::json::Json::Str("key:foreign"@),
            crate::json::Json::Str(column + " must be in "@ + s_table + "."@ + s_column),
        ] + rows.map_values(|r: u64| crate::json::Json::Int(r as int)),
    )
}

impl Structure {
    /// The statement that validates the given column against this structure (only the given
    /// rows, or all rows when none are given), with its parameters. It fails only when the
    /// pattern of quoted names cannot be compiled.
    pub fn validation_sql(&self, column: &crate::column::Column, rows: &Vec<u64>, kind: &crate::sql::DbKind) -> (r: Result<(String, Vec<crate::json::JsonValue>), RelatableError>)
        requires
            rows@.len() + 4 <= usize::MAX,
        ensures
            match r {
                Ok((sql, params)) => regex_valid(UNQUOTED_PATTERN@)
                    && (sql@, crate::json::json_views(params@))
                        == structure_validation_spec(self@, column@.table, column@.column, rows@, *kind),
                Err(e) => !regex_valid(UNQUOTED_PATTERN@) && e is ConfigError,
            },
    {
        let c_table = column.table.as_str();
        let c_column = column.column.as_str();
        let (s_table, s_column) = match self {
            Structure::From(t, c) => (
                match t {
                    Some(t) => t.as_str(),
                    None => c_table,
                },
                c.as_str(),
            ),
        };
        let s_table = match unquote_name(s_table) {
            Ok(t) => t,
            Err(e) => return Err(e),
        };
        let s_column = match unquote_name(s_column) {
            Ok(c) => c,
            Err(e) => return Err(e),
        };
        let quoted = crate::text::dquote(c_column);
        let mut gen = crate::sql::SqlParam::new(kind);
        let mut sql = crate::sql::message_insert(&mut gen, quoted.as_str(), c_table);
        sql.append(quoted.as_str());
        sql.append(" NOT IN (\n                               SELECT \"");
        sql.append(s_column.as_str());
        sql.append("\" FROM \"");
        sql.append(s_table.as_str());
        sql.append("\"\n                           )");
        let mut message = cat(c_column, " must be in ");
        message.append(s_table.as_str());
        message.append(".");
        message.append(s_column.as_str());
        let mut params = vec![
            crate::json::json_str(c_table),
            crate::json::json_str(c_column),
            crate::json::json_str("key:foreign"),
            crate::json::JsonValue::String(message),
        ];
        let ghost sql0 = sql@;
        let ghost k = gen.kind;
        let ghost idx = gen.index;
        assert(idx == crate::sql::advance(*kind, 0, 4));
        crate::sql::finish_message_insert(&mut sql, &mut params, rows, &mut gen);
        let ghost spec = structure_validation_spec(self@, column@.table, column@.column, rows@, *kind);
        assert(sql0 =~= crate::sql::message_insert_sql(
            crate::sql::placeholder(*kind, 1), crate::sql::placeholder(*kind, 2), quoted@,
            crate::sql::placeholder(*kind, 3), crate::sql::placeholder(*kind, 4), c_table@)
            + from_condition(c_column@, s_table@, s_column@));
        assert(sql@ =~= spec.0);
        assert(crate::json::json_views(params@) =~= spec.1);
        Ok((sql, params))
    }
}

/// A column's list of structures.
#[derive(Debug, PartialEq, Eq, Hash)]
pub struct Structures {
    list: Vec<Structure>,
}

impl View for Structures {
    type V = Seq<StructureView>;

    closed spec fn view(&self) -> Seq<StructureView> {
        self.list@.map_values(|s: Structure| s@)
    }
}

impl Clone for Structures {
    fn clone(&self) -> (r: Self)
        ensures
            r@ == self@,
    {
        let mut list: Vec<Structure> = Vec::new();
        let mut i: usize = 0;
        while i < self.list.len()
            invariant
                i <= self.list.len(),
                list@.len() == i,
                forall|j: int| 0 <= j < i ==> #[trigger] list@[j]@ == self.list@[j]@,
            decreases self.list.len() - i,
        {
            let c = self.list[i].clone();
            list.push(c);
            i = i + 1;
        }
        assert(list@.map_values(|s: Structure| s@) =~= self.list@.map_values(|s: Structure| s@));
        Structures { list }
    }
}

/// The text of a list of structures: each structure's text, separated by spaces.
pub open spec fn structures_text(list: Seq<StructureView>) -> Seq<char> {
    seq_join(list.map_values(|s: StructureView| structure_text(s)), " "@)
}

/// What [Structures::from_str] reads: no structures for blank text, else one structure.
pub open spec fn parse_structures(text: Seq<char>) -> Option<Seq<StructureView>> {
    if trim_spec(text).len() == 0 {
        Some(Seq::empty())
    } else {
        match parse_structure(text) {
            Some(s) => Some(seq![s]),
            None => None,
        }
    }
}

impl Structures {
    /// The given structures.
    pub fn new(list: Vec<Structure>) -> (r: Self)
        ensures
            r@ == list@.map_values(|s: Structure| s@),
    {
        Structures { list }
    }

    /// No structures.
    pub fn default() -> (r: Self)
        ensures
            r@ == Seq::<StructureView>::empty(),
    {
        Structures { list: Vec::new() }
    }

    /// The structures, in order.
    pub fn list(&self) -> (r: &Vec<Structure>)
        ensures
            r@.map_values(|s: Structure| s@) == self@,
    {
        &self.list
    }

    /// Read structures from text: blank text gives none; otherwise the text is one structure.
    pub fn from_str(structure: &str) -> (r: Result<Structures, RelatableError>)
        ensures
            regex_valid(FROM_PATTERN@) && regex_valid(UNQUOTED_PATTERN@) ==> match r {
                Ok(s) => parse_structures(structure@) == Some(s@),
                Err(e) => parse_structures(structure@) is None && e is InputError,
            },
    {
        let trimmed = trim(structure);
        if trimmed.as_str().unicode_len() == 0 {
            let r = Structures::default();
            return Ok(r);
        }
        match Structure::from_str(structure) {
            Ok(s) => {
                let mut list = Vec::new();
                list.push(s);
                let r = Structures { list };
                assert(r@ =~= seq![r.list@[0]@]);
                Ok(r)
            },
            Err(e) => Err(e),
        }
    }

    /// The structures read from the text, or none when it cannot be read.
    pub fn from(value: &str) -> (r: Self)
        ensures
            regex_valid(FROM_PATTERN@) && regex_valid(UNQUOTED_PATTERN@) ==> r@ == match parse_structures(value@) {
                Some(list) => list,
                None => Seq::empty(),
            },
    {
        match Structures::from_str(value) {
            Ok(s) => s,
            Err(_) => Structures::default(),
        }
    }

    /// The structures as text, separated by spaces.
    pub fn to_string(&self) -> (r: String)
        ensures
            r@ == structures_text(self@),
    {
        let mut texts: Vec<String> = Vec::new();
        let mut i: usize = 0;
        while i < self.list.len()
            invariant
                i <= self.list.len(),
                crate::text::views(texts@) == self@.take(i as int).map_values(|s: StructureView| structure_text(s)),
            decreases self.list.len() - i,
        {
            let t = self.list[i].to_string();
            proof {
                crate::text::lemma_views_push(texts@, t);
            }
            texts.push(t);
            i = i + 1;
            assert(crate::text::views(texts@) =~= self@.take(i as int).map_values(|s: StructureView| structure_text(s)));
        }
        assert(self@.take(i as int) == self@);
        crate::text::join(&texts, " ")
    }
}

} // verus!
