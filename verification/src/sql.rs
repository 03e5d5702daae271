//! SQL text for the two supported database kinds: placeholders, clauses, casts,
//! parameter interpolation, and the conversion of `sprintf` formats.
use vstd::prelude::*;

use crate::error::RelatableError;
use crate::json::{json_debug_spec, json_debug_text, number_text, number_to_text, Json, JsonValue};
use crate::pattern::{group, regex_captures, regex_captures_spec, regex_find_all, regex_find_all_spec, regex_split, regex_split_spec, regex_valid};
use crate::text::{cat, cat3, chars_of, dquote, is_empty_str, nat_text, owned, parse_nat_spec, parse_usize, push_char, push_u64, seq_join, str_eq, string_of, u64_text, views};

verus! {

/// The kinds of database that SQL is written for.
#[derive(Clone, Copy, Debug, PartialEq, Eq, Structural)]
pub enum DbKind {
    SQLite,
    PostgreSQL,
}

/// A 'simple' database name.
pub const DB_OBJECT_MATCH_STR: &'static str = r"^[\w_]+$";

/// Maximum number of database connections.
pub const MAX_DB_CONNECTIONS: u32 = 5;

/// The maximum number of parameters that can be bound to a SQLite query.
pub const MAX_PARAMS_SQLITE: usize = 32766;

/// The maximum number of parameters bound to a PostgreSQL query.
pub const MAX_PARAMS_POSTGRES: usize = 32766;

// ---------------------------------------------------------------------------
// Placeholders
// ---------------------------------------------------------------------------

/// The placeholder text for the parameter numbered `n` (counting from 1).
pub open spec fn placeholder(kind: DbKind, n: nat) -> Seq<char> {
    match kind {
        DbKind::PostgreSQL => seq!['$'] + nat_text(n),
        DbKind::SQLite => seq!['?'],
    }
}

/// The index after `amount` more placeholders have been made.
pub open spec fn advance(kind: DbKind, index: nat, amount: nat) -> nat {
    match kind {
        DbKind::PostgreSQL => index + amount,
        DbKind::SQLite => index,
    }
}

/// The placeholders made by `amount` calls of [SqlParam::next] from `index`.
pub open spec fn placeholders(kind: DbKind, index: nat, amount: nat) -> Seq<Seq<char>> {
    Seq::new(amount, |i: int| placeholder(kind, (index + i + 1) as nat))
}

/// Generates database-specific placeholder strings for parameters bound to SQL statements.
#[derive(Clone, Copy, Debug)]
pub struct SqlParam {
    /// The kind of database the parameters are generated for
    pub kind: DbKind,
    /// The current parameter index, if applicable
    pub index: usize,
}

impl SqlParam {
    /// A generator for the given kind of database, starting at index 0.
    pub fn new(kind: &DbKind) -> (r: Self)
        ensures
            r.kind == *kind,
            r.index == 0,
    {
        SqlParam { kind: *kind, index: 0 }
    }

    /// Generate one placeholder. PostgreSQL placeholders are numbered: the index goes up by one.
    pub fn next(&mut self) -> (r: String)
        requires
            old(self).kind == DbKind::PostgreSQL ==> old(self).index < usize::MAX,
        ensures
            final(self).kind == old(self).kind,
            final(self).index == advance(old(self).kind, old(self).index as nat, 1),
            r@ == placeholder(old(self).kind, old(self).index as nat + 1),
    {
        match self.kind {
            DbKind::PostgreSQL => {
                self.index = self.index + 1;
                let mut s = String::new();
                push_char(&mut s, '$');
                push_u64(&mut s, self.index as u64);
                s
            },
            DbKind::SQLite => {
                let mut s = String::new();
                push_char(&mut s, '?');
                s
            },
        }
    }

    /// Generate `amount` placeholders, advancing the index accordingly.
    pub fn get(&mut self, amount: usize) -> (r: Vec<String>)
        requires
            old(self).kind == DbKind::PostgreSQL ==> old(self).index + amount <= usize::MAX,
        ensures
            final(self).kind == old(self).kind,
            final(self).index == advance(old(self).kind, old(self).index as nat, amount as nat),
            views(r@) == placeholders(old(self).kind, old(self).index as nat, amount as nat),
    {
        let ghost start = self.index as nat;
        let mut params: Vec<String> = Vec::new();
        let mut made: usize = 0;
        while made < amount
            invariant
                self.kind == old(self).kind,
                made <= amount,
                self.index == advance(self.kind, start, made as nat),
                start == old(self).index,
                self.kind == DbKind::PostgreSQL ==> start + amount <= usize::MAX,
                views(params@) == placeholders(self.kind, start, made as nat),
            decreases amount - made,
        {
            let ghost before = params@;
            let p = self.next();
            assert(p@ == placeholder(self.kind, (start + made + 1) as nat));
            params.push(p);
            proof {
                crate::text::lemma_views_push(before, p);
                assert(placeholders(self.kind, start, (made + 1) as nat)
                    =~= placeholders(self.kind, start, made as nat).push(placeholder(self.kind, (start + made + 1) as nat)));
            }
            made = made + 1;
        }
        params
    }

    /// Generate `amount` placeholders as one comma-separated string.
    pub fn get_as_list(&mut self, amount: usize) -> (r: String)
        requires
            old(self).kind == DbKind::PostgreSQL ==> old(self).index + amount <= usize::MAX,
        ensures
            final(self).kind == old(self).kind,
            final(self).index == advance(old(self).kind, old(self).index as nat, amount as nat),
            r@ == seq_join(placeholders(old(self).kind, old(self).index as nat, amount as nat), ", "@),
    {
        let params = self.get(amount);
        crate::text::join(&params, ", ")
    }

    /// Reset the index.
    pub fn reset(&mut self)
        ensures
            final(self).kind == old(self).kind,
            final(self).index == 0,
    {
        self.index = 0;
    }
}

// ---------------------------------------------------------------------------
// Names and clauses
// ---------------------------------------------------------------------------

/// The part of a name before its first `.` (the whole name when it has none).
pub open spec fn name_root(name: Seq<char>) -> Seq<char>
    decreases name.len(),
{
    if name.len() == 0 || name[0] == '.' {
        Seq::empty()
    } else {
        seq![name[0]] + name_root(name.skip(1))
    }
}

proof fn lemma_name_root_split(name: Seq<char>, i: int)
    requires
        0 <= i <= name.len(),
        forall|j: int| 0 <= j < i ==> name[j] != '.',
    ensures
        name_root(name) == name.take(i) + name_root(name.skip(i)),
    decreases i,
{
    if i > 0 {
        assert forall|j: int| 0 <= j < i - 1 implies name.skip(1)[j] != '.' by {
            assert(name.skip(1)[j] == name[j + 1]);
        }
        lemma_name_root_split(name.skip(1), i - 1);
        assert(name.skip(1).skip(i - 1) == name.skip(i));
        assert(seq![name[0]] + name.skip(1).take(i - 1) == name.take(i));
        assert(name[0] != '.');
        assert(name_root(name) == seq![name[0]] + name_root(name.skip(1)));
        assert(seq![name[0]] + (name.skip(1).take(i - 1) + name_root(name.skip(i)))
            =~= (seq![name[0]] + name.skip(1).take(i - 1)) + name_root(name.skip(i)));
    } else {
        assert(name.skip(0) =~= name);
        assert(name.take(0) + name_root(name.skip(0)) =~= name_root(name));
    }
}

/// The message of the error that [is_simple] reports.
pub open spec fn not_simple_message(name: Seq<char>) -> Seq<char> {
    "Illegal database object name: '"@ + name_root(name) + "' in '"@ + name + "'. Does not match: /"@
        + DB_OBJECT_MATCH_STR@ + "/"@
}

/// True when the pattern of simple names matches.
pub open spec fn simple_matches(text: Seq<char>) -> bool {
    regex_captures_spec(DB_OBJECT_MATCH_STR@, text) is Some
}

/// The part of a name before its first `.`.
pub fn root_of(name: &str) -> (r: String)
    ensures
        r@ == name_root(name@),
{
    let v = chars_of(name);
    let mut i: usize = 0;
    while i < v.len()
        invariant
            v@ == name@,
            i <= v.len(),
            forall|j: int| 0 <= j < i ==> v@[j] != '.',
        decreases v.len() - i,
    {
        if v[i] == '.' {
            proof {
                lemma_name_root_split(name@, i as int);
                assert(name_root(name@.skip(i as int)) == Seq::<char>::empty());
                assert(name@.take(i as int) == v@.subrange(0, i as int));
            }
            return string_of(&v, 0, i);
        }
        i = i + 1;
    }
    proof {
        lemma_name_root_split(name@, i as int);
        assert(name_root(name@.skip(i as int)) == Seq::<char>::empty());
    }
    assert(v@.subrange(0, v.len() as int) == v@);
    string_of(&v, 0, v.len())
}

/// Whether the given name is 'simple': its part before the first `.` matches
/// [DB_OBJECT_MATCH_STR].
pub fn is_simple(db_object_name: &str) -> (r: Result<(), String>)
    ensures
        match r {
            Ok(()) => regex_valid(DB_OBJECT_MATCH_STR@) && simple_matches(name_root(db_object_name@)),
            Err(m) => regex_valid(DB_OBJECT_MATCH_STR@) ==> !simple_matches(name_root(db_object_name@))
                && m@ == not_simple_message(db_object_name@),
        },
{
    let root = root_of(db_object_name);
    let matched = match regex_captures(DB_OBJECT_MATCH_STR, root.as_str()) {
        Ok(Some(_)) => true,
        _ => false,
    };
    if !matched {
        let mut m = String::from_str("Illegal database object name: '");
        m.append(root.as_str());
        m.append("' in '");
        m.append(db_object_name);
        m.append("'. Does not match: /");
        m.append(DB_OBJECT_MATCH_STR);
        m.append("/");
        Err(m)
    } else {
        Ok(())
    }
}

/// The "IS" syntax of the given kind of database.
pub open spec fn is_clause_spec(kind: DbKind) -> Seq<char> {
    match kind {
        DbKind::SQLite => "IS"@,
        DbKind::PostgreSQL => "IS NOT DISTINCT FROM"@,
    }
}

/// The "IS NOT" syntax of the given kind of database.
pub open spec fn is_not_clause_spec(kind: DbKind) -> Seq<char> {
    match kind {
        DbKind::SQLite => "IS NOT"@,
        DbKind::PostgreSQL => "IS DISTINCT FROM"@,
    }
}

/// The "IS" syntax of the given kind of database.
pub fn is_clause(db_kind: &DbKind) -> (r: String)
    ensures
        r@ == is_clause_spec(*db_kind),
{
    match db_kind {
        DbKind::SQLite => String::from_str("IS"),
        DbKind::PostgreSQL => String::from_str("IS NOT DISTINCT FROM"),
    }
}

/// The "IS NOT" syntax of the given kind of database.
pub fn is_not_clause(db_kind: &DbKind) -> (r: String)
    ensures
        r@ == is_not_clause_spec(*db_kind),
{
    match db_kind {
        DbKind::SQLite => String::from_str("IS NOT"),
        DbKind::PostgreSQL => String::from_str("IS DISTINCT FROM"),
    }
}

/// A column cast to text.
pub open spec fn cast_text_spec(column: Seq<char>, kind: DbKind) -> Seq<char> {
    match kind {
        DbKind::SQLite => "CAST(\""@ + column + "\" AS TEXT)"@,
        DbKind::PostgreSQL => "\""@ + column + "\"::TEXT"@,
    }
}

/// A clause that casts the column to text, in the syntax of the given kind of database.
pub fn cast_column_as_text(column: &str, db_kind: &DbKind) -> (r: String)
    ensures
        r@ == cast_text_spec(column@, *db_kind),
{
    match db_kind {
        DbKind::SQLite => cat3("CAST(\"", column, "\" AS TEXT)"),
        DbKind::PostgreSQL => cat3("\"", column, "\"::TEXT"),
    }
}

/// A regular-expression match (`matched`) or mismatch on the column, with one placeholder.
pub open spec fn regexp_spec(column: Seq<char>, kind: DbKind, param: Seq<char>, matched: bool) -> Seq<char> {
    match kind {
        DbKind::SQLite => "regexp("@ + param + ", "@ + cast_text_spec(column, kind)
            + (if matched { ") = 1"@ } else { ") = 0"@ }),
        DbKind::PostgreSQL => cast_text_spec(column, kind) + (if matched { " ~ "@ } else { " !~ "@ })
            + param,
    }
}

fn regexp_clause(column: &str, sql_param: &mut SqlParam, matched: bool) -> (r: String)
    requires
        old(sql_param).kind == DbKind::PostgreSQL ==> old(sql_param).index < usize::MAX,
    ensures
        final(sql_param).kind == old(sql_param).kind,
        final(sql_param).index == advance(old(sql_param).kind, old(sql_param).index as nat, 1),
        r@ == regexp_spec(column@, old(sql_param).kind,
            placeholder(old(sql_param).kind, old(sql_param).index as nat + 1), matched),
{
    let casted_column = cast_column_as_text(column, &sql_param.kind);
    match sql_param.kind {
        DbKind::SQLite => {
            let p = sql_param.next();
            let mut s = cat("regexp(", p.as_str());
            s.append(", ");
            s.append(casted_column.as_str());
            s.append(if matched { ") = 1" } else { ") = 0" });
            s
        },
        DbKind::PostgreSQL => {
            let p = sql_param.next();
            let mut s = casted_column;
            s.append(if matched { " ~ " } else { " !~ " });
            s.append(p.as_str());
            s
        },
    }
}

/// A clause for a regular-expression match on the given column.
pub fn regexp_match(column: &str, sql_param: &mut SqlParam) -> (r: String)
    requires
        old(sql_param).kind == DbKind::PostgreSQL ==> old(sql_param).index < usize::MAX,
    ensures
        final(sql_param).kind == old(sql_param).kind,
        final(sql_param).index == advance(old(sql_param).kind, old(sql_param).index as nat, 1),
        r@ == regexp_spec(column@, old(sql_param).kind,
            placeholder(old(sql_param).kind, old(sql_param).index as nat + 1), true),
{
    regexp_clause(column, sql_param, true)
}

/// A clause for a regular-expression mismatch on the given column.
pub fn regexp_mismatch(column: &str, sql_param: &mut SqlParam) -> (r: String)
    requires
        old(sql_param).kind == DbKind::PostgreSQL ==> old(sql_param).index < usize::MAX,
    ensures
        final(sql_param).kind == old(sql_param).kind,
        final(sql_param).index == advance(old(sql_param).kind, old(sql_param).index as nat, 1),
        r@ == regexp_spec(column@, old(sql_param).kind,
            placeholder(old(sql_param).kind, old(sql_param).index as nat + 1), false),
{
    regexp_clause(column, sql_param, false)
}

// ---------------------------------------------------------------------------
// JSON values as text and numbers
// ---------------------------------------------------------------------------

/// The text of a JSON value, as [json_to_string] gives it.
pub open spec fn json_string_spec(j: Json) -> Seq<char> {
    match j {
        Json::Null => Seq::empty(),
        Json::Bool(b) => crate::json::bool_text(b),
        Json::Int(_) => number_text(j),
        Json::Float(_) => number_text(j),
        Json::Str(s) => s,
        _ => json_debug_spec(j),
    }
}

/// Convert the given JSON value to a string: null is empty, strings are kept,
/// numbers and booleans are printed, arrays and objects get their `Debug` text.
pub fn json_to_string(value: &JsonValue) -> (r: String)
    ensures
        r@ == json_string_spec(value@),
{
    match value {
        JsonValue::Null => String::new(),
        JsonValue::Bool(b) => crate::json::bool_to_text(*b),
        JsonValue::Number(n) => number_to_text(n),
        JsonValue::String(s) => s.clone(),
        JsonValue::Array(_) => json_debug_text(value),
        JsonValue::Object(_) => json_debug_text(value),
    }
}

/// The unsigned integer that [json_to_unsigned] reads from a JSON value, if any.
pub open spec fn json_unsigned_spec(j: Json) -> Option<int> {
    match j {
        Json::Bool(b) => Some(if b { 1int } else { 0int }),
        Json::Int(n) => if 0 <= n <= u64::MAX { Some(n) } else { None },
        Json::Str(s) => match parse_nat_spec(s) {
            Some(n) => if n <= u64::MAX { Some(n) } else { None },
            None => None,
        },
        _ => None,
    }
}

/// The message of the input error for a value that is no unsigned integer: a number is
/// "not an unsigned integer", a string "could not be parsed" with the parse error, and
/// any other value "could not be parsed".
pub open spec fn json_unsigned_error(j: Json) -> Seq<char> {
    match j {
        Json::Int(_) => number_text(j) + " is not an unsigned integer"@,
        Json::Float(_) => number_text(j) + " is not an unsigned integer"@,
        Json::Str(s) => crate::json::json_display(j) + " could not be parsed as an unsigned integer: "@
            + parse_error_spec(s),
        _ => crate::json::json_display(j) + " could not be parsed as an unsigned integer"@,
    }
}

/// Convert the given JSON value to an unsigned integer: `true` is 1, `false` 0,
/// non-negative integers are themselves, and strings are parsed as `u64`.
/// Anything else is an input error (see [json_unsigned_error]).
pub fn json_to_unsigned(value: &JsonValue) -> (r: Result<u64, RelatableError>)
    ensures
        match r {
            Ok(n) => json_unsigned_spec(value@) == Some(n as int),
            Err(e) => json_unsigned_spec(value@) is None && e is InputError
                && e.message_view() == json_unsigned_error(value@),
        },
{
    match value {
        JsonValue::Bool(flag) => {
            assert(value@ == Json::Bool(*flag));
            if *flag { Ok(1) } else { Ok(0) }
        },
        JsonValue::Number(n) => match n {
            crate::json::JsonNumber::PosInt(u) => {
                assert(value@ == Json::Int(*u as int));
                Ok(*u)
            },
            crate::json::JsonNumber::NegInt(i) if *i >= 0 => {
                assert(value@ == Json::Int(*i as int));
                Ok(*i as u64)
            },
            _ => {
                let mut m = number_to_text(n);
                m.append(" is not an unsigned integer");
                Err(RelatableError::InputError(m))
            },
        },
        JsonValue::String(s) => match crate::text::parse_u64(s.as_str()) {
            Some(u) => {
                assert(value@ == Json::Str(s@));
                Ok(u)
            },
            None => {
                let mut m = crate::json::json_to_text(value);
                m.append(" could not be parsed as an unsigned integer: ");
                m.append(parse_error_text(s.as_str()).as_str());
                Err(RelatableError::InputError(m))
            },
        },
        _ => {
            let mut m = crate::json::json_to_text(value);
            m.append(" could not be parsed as an unsigned integer");
            Err(RelatableError::InputError(m))
        },
    }
}

/// True when every character is an ASCII digit.
pub open spec fn ascii_digits(s: Seq<char>) -> bool {
    forall|i: int| 0 <= i < s.len() ==> '0' <= #[trigger] s[i] <= '9'
}

/// The message of the error that `str::parse::<u64>` reports on a text it refuses: an
/// empty text; a text that, after an optional `+`, is empty or holds a character that is
/// not a digit; otherwise a number too large.
pub open spec fn parse_error_spec(s: Seq<char>) -> Seq<char> {
    if s.len() == 0 {
        "cannot parse integer from empty string"@
    } else {
        let rest = if s[0] == '+' { s.skip(1) } else { s };
        if rest.len() == 0 || !ascii_digits(rest) {
            "invalid digit found in string"@
        } else {
            "number too large to fit in target type"@
        }
    }
}

/// The text of the error that `str::parse::<u64>` reports on a text it refuses (see
/// [parse_error_spec]).
pub(crate) fn parse_error_text(s: &str) -> (r: String)
    ensures
        r@ == parse_error_spec(s@),
{
    let v = chars_of(s);
    if v.len() == 0 {
        return String::from_str("cannot parse integer from empty string");
    }
    let from: usize = if v[0] == '+' { 1 } else { 0 };
    if from == v.len() {
        return String::from_str("invalid digit found in string");
    }
    let ghost rest = if s@[0] == '+' { s@.skip(1) } else { s@ };
    assert(rest =~= v@.skip(from as int));
    let mut i = from;
    while i < v.len()
        invariant
            v@ == s@,
            s@.len() > 0,
            rest == (if s@[0] == '+' { s@.skip(1) } else { s@ }),
            from <= i <= v.len(),
            rest =~= v@.skip(from as int),
            forall|j: int| from <= j < i ==> '0' <= #[trigger] v@[j] <= '9',
        decreases v.len() - i,
    {
        if !('0' <= v[i] && v[i] <= '9') {
            assert(rest[i - from] == v@[i as int]);
            assert(!('0' <= rest[i - from] <= '9'));
            assert(!ascii_digits(rest));
            return String::from_str("invalid digit found in string");
        }
        i = i + 1;
    }
    assert forall|k: int| 0 <= k < rest.len() implies '0' <= #[trigger] rest[k] <= '9' by {
        assert(rest[k] == v@[k + from]);
    }
    String::from_str("number too large to fit in target type")
}

// ---------------------------------------------------------------------------
// Interpolation of parameters
// ---------------------------------------------------------------------------

/// The pattern that finds quoted strings and SQLite placeholders.
pub const SQLITE_PARAM_PATTERN: &'static str = r#"('[^'\\]*(?:\\.[^'\\]*)*'|"[^"\\]*(?:\\.[^"\\]*)*")|\B[?]\B"#;

/// The pattern that finds quoted strings and PostgreSQL placeholders.
pub const POSTGRES_PARAM_PATTERN: &'static str = r#"('[^'\\]*(?:\\.[^'\\]*)*'|"[^"\\]*(?:\\.[^"\\]*)*")|\B[$]\d+\b"#;

/// The pattern that [interpolate_sql] uses for the given kind of database.
pub open spec fn param_pattern(kind: DbKind) -> Seq<char> {
    match kind {
        DbKind::SQLite => SQLITE_PARAM_PATTERN@,
        DbKind::PostgreSQL => POSTGRES_PARAM_PATTERN@,
    }
}

/// True when a match is a quoted string rather than a placeholder.
pub open spec fn is_quoted(m: Seq<char>) -> bool {
    (m.len() > 0 && m[0] == '"' && m.last() == '"') || (m.len() > 0 && m[0] == '\'' && m.last() == '\'')
}

/// How a parameter value is written into SQL.
pub open spec fn param_text(j: Json) -> Seq<char> {
    match j {
        Json::Str(s) => seq!['\''] + s + seq!['\''],
        Json::Int(_) => number_text(j),
        Json::Float(_) => number_text(j),
        Json::Bool(b) => crate::json::bool_text(b),
        Json::Null => "NULL"@,
        _ => json_debug_spec(j),
    }
}

/// The parameters listed in the optional parameter value: the items of an array, else none.
pub open spec fn param_list(params: Option<Json>) -> Seq<Json> {
    match params {
        Some(Json::Arr(items)) => items,
        _ => Seq::empty(),
    }
}

/// The piece of the text before match `i`: the `i`th piece between matches, if there is one.
pub open spec fn gap(gaps: Seq<Seq<char>>, i: int) -> Seq<char> {
    if 0 <= i < gaps.len() { gaps[i] } else { Seq::empty() }
}

/// The text made from the first `n` matches: each gap before a match, then the match
/// itself when it is quoted, else the next parameter; `None` when a parameter is missing.
pub open spec fn interpolated_prefix(gaps: Seq<Seq<char>>, matches: Seq<Seq<char>>, params: Seq<Json>, n: nat) -> Option<(Seq<char>, nat)>
    decreases n,
{
    if n == 0 {
        Some((Seq::empty(), 0))
    } else {
        match interpolated_prefix(gaps, matches, params, (n - 1) as nat) {
            None => None,
            Some((text, used)) => {
                let m = matches[n - 1];
                let text = text + gap(gaps, n - 1);
                if is_quoted(m) {
                    Some((text + m, used))
                } else if used < params.len() {
                    Some((text + param_text(params[used as int]), used + 1))
                } else {
                    None
                }
            },
        }
    }
}

proof fn lemma_prefix_none_stays(gaps: Seq<Seq<char>>, matches: Seq<Seq<char>>, params: Seq<Json>, n: nat, m: nat)
    requires
        n <= m,
        interpolated_prefix(gaps, matches, params, n) is None,
    ensures
        interpolated_prefix(gaps, matches, params, m) is None,
    decreases m - n,
{
    if n < m {
        lemma_prefix_none_stays(gaps, matches, params, n + 1, m);
    }
}

/// The SQL with its placeholders replaced by the given parameters.
pub open spec fn interpolate_spec(sql: Seq<char>, params: Option<Json>, kind: DbKind) -> Option<Seq<char>> {
    let gaps = regex_split_spec(param_pattern(kind), sql);
    let matches = regex_find_all_spec(param_pattern(kind), sql);
    match interpolated_prefix(gaps, matches, param_list(params), matches.len()) {
        Some((text, _)) => Some(text + gap(gaps, matches.len() as int)),
        None => None,
    }
}

fn is_quoted_text(m: &str) -> (r: bool)
    ensures
        r == is_quoted(m@),
{
    let v = chars_of(m);
    v.len() > 0 && ((v[0] == '"' && v[v.len() - 1] == '"') || (v[0] == '\'' && v[v.len() - 1] == '\''))
}

fn push_param(s: &mut String, param: &JsonValue)
    ensures
        final(s)@ == old(s)@ + param_text(param@),
{
    match param {
        JsonValue::String(p) => {
            push_char(s, '\'');
            s.append(p.as_str());
            push_char(s, '\'');
        },
        JsonValue::Number(n) => s.append(number_to_text(n).as_str()),
        JsonValue::Bool(b) => s.append(crate::json::bool_to_text(*b).as_str()),
        JsonValue::Null => s.append("NULL"),
        _ => s.append(json_debug_text(param).as_str()),
    }
}

/// Combine a SQL string that may include placeholders with the parameter values (a JSON
/// array) into one interpolated string. Quoted strings in the SQL are kept as they are.
/// A placeholder with no parameter left is an input error.
pub fn interpolate_sql(sql: &str, params: Option<&JsonValue>, kind: &DbKind) -> (r: Result<String, RelatableError>)
    ensures
        match r {
            Ok(s) => regex_valid(param_pattern(*kind))
                && interpolate_spec(sql@, match params { Some(p) => Some(p@), None => None }, *kind) == Some(s@),
            Err(e) => !regex_valid(param_pattern(*kind))
                || (interpolate_spec(sql@, match params { Some(p) => Some(p@), None => None }, *kind) is None
                    && e is InputError),
        },
{
    let empty: Vec<JsonValue> = Vec::new();
    let list: &Vec<JsonValue> = match params {
        Some(JsonValue::Array(items)) => items,
        _ => &empty,
    };
    let ghost plist = param_list(match params { Some(p) => Some(p@), None => None });
    assert(crate::json::json_views(list@) == plist) by {
        if let Some(JsonValue::Array(items)) = params {
            assert(crate::json::json_views(list@) =~= plist);
        }
    }
    let pattern = match kind {
        DbKind::SQLite => SQLITE_PARAM_PATTERN,
        DbKind::PostgreSQL => POSTGRES_PARAM_PATTERN,
    };
    let matches = match regex_find_all(pattern, sql) {
        Ok(m) => m,
        Err(_) => return Err(RelatableError::ConfigError(String::from_str("invalid placeholder pattern"))),
    };
    let gaps = match regex_split(pattern, sql) {
        Ok(g) => g,
        Err(_) => return Err(RelatableError::ConfigError(String::from_str("invalid placeholder pattern"))),
    };
    let ghost mv = views(matches@);
    let ghost gv = views(gaps@);
    assert(pattern@ == param_pattern(*kind));
    let mut out = String::new();
    let mut used: usize = 0;
    let mut i: usize = 0;
    while i < matches.len()
        invariant
            i <= matches.len(),
            mv == views(matches@),
            gv == views(gaps@),
            crate::json::json_views(list@) == plist,
            interpolated_prefix(gv, mv, plist, i as nat) == Some((out@, used as nat)),
            used <= i,
            mv.len() == matches.len(),
            gv.len() == gaps.len(),
            regex_valid(param_pattern(*kind)),
            plist == param_list(match params { Some(p) => Some(p@), None => None }),
            mv == regex_find_all_spec(param_pattern(*kind), sql@),
            gv == regex_split_spec(param_pattern(*kind), sql@),
        decreases matches.len() - i,
    {
        if i < gaps.len() {
            out.append(gaps[i].as_str());
        }
        let m = &matches[i];
        assert(mv[i as int] == m@);
        assert(plist.len() == list.len());
        if is_quoted_text(m.as_str()) {
            out.append(m.as_str());
        } else {
            if used >= list.len() {
                proof {
                    assert(interpolated_prefix(gv, mv, plist, (i + 1) as nat) is None);
                    lemma_prefix_none_stays(gv, mv, plist, (i + 1) as nat, mv.len());
                }
                let mut msg = String::from_str("No parameter at index ");
                msg.append(u64_text(used as u64).as_str());
                return Err(RelatableError::InputError(msg));
            }
            push_param(&mut out, &list[used]);
            used = used + 1;
        }
        i = i + 1;
    }
    if i < gaps.len() {
        out.append(gaps[i].as_str());
    }
    Ok(out)
}

// ---------------------------------------------------------------------------
// sprintf formats
// ---------------------------------------------------------------------------

/// The digits of a `to_char()` format, before they are reversed: position `i` (from 1)
/// holds `9`, followed by `,` at every third position except the last when commas are asked for.
pub open spec fn pg_digits_forward(width: nat, comma_sep: bool, i: nat) -> Seq<char>
    decreases i,
{
    if i == 0 {
        Seq::empty()
    } else {
        pg_digits_forward(width, comma_sep, (i - 1) as nat) + seq!['9']
            + (if comma_sep && i != width && i % 3 == 0 { seq![','] } else { Seq::empty() })
    }
}

/// `n` nines.
pub open spec fn nines(n: nat) -> Seq<char> {
    Seq::new(n, |i: int| '9')
}

/// A numeric option read as `usize`, or the default when it is empty or does not parse.
pub open spec fn option_or(text: Seq<char>, default: nat) -> nat {
    if text.len() == 0 {
        default
    } else {
        match parse_nat_spec(text) {
            Some(n) => if n <= usize::MAX { n as nat } else { default },
            None => default,
        }
    }
}

/// The PostgreSQL `to_char()` format for the components of an `sprintf` format.
pub open spec fn pg_char_spec(flag: Seq<char>, width: Seq<char>, precision: Seq<char>, format_type: Seq<char>) -> Seq<char> {
    if format_type == "s"@ {
        Seq::empty()
    } else {
        let w = option_or(width, 99);
        let p = option_or(precision, 6);
        let prefix = if flag == "0"@ { "0"@ } else if flag == "+"@ { "SG"@ } else { Seq::empty() };
        prefix + pg_digits_forward(w, flag == ","@, w).reverse()
            + (if p > 0 { seq!['.'] + nines(p) } else { Seq::empty() })
    }
}

fn option_value(text: &str, default: usize) -> (r: usize)
    ensures
        r == option_or(text@, default as nat),
{
    if is_empty_str(text) {
        default
    } else {
        match parse_usize(text) {
            Some(n) => n,
            None => default,
        }
    }
}

/// The PostgreSQL `to_char()` format
/// (<https://www.postgresql.org/docs/9.0/functions-formatting.html>) for the given components
/// of a numeric `sprintf` format (<https://sqlite.org/printf.html>): empty for `s`; otherwise
/// an optional `0` or `SG` prefix, `width` nines (99 by default) with a comma every third when
/// the flag is `,`, then `.` and `precision` nines (6 by default) when the precision is not 0.
pub fn sprintf_to_pg_char(flag_opt: &str, width_opt: &str, precision_opt: &str, format_type: &str) -> (r: String)
    ensures
        r@ == pg_char_spec(flag_opt@, width_opt@, precision_opt@, format_type@),
{
    if str_eq(format_type, "s") {
        return String::new();
    }
    let zero_pad = str_eq(flag_opt, "0");
    let pm_sign = str_eq(flag_opt, "+");
    let comma_sep = str_eq(flag_opt, ",");
    let width = option_value(width_opt, 99);
    let precision = option_value(precision_opt, 6);

    let mut to_char_format = String::new();
    if zero_pad {
        to_char_format.append("0");
    } else if pm_sign {
        to_char_format.append("SG");
    }
    assert(to_char_format@ == (if flag_opt@ == "0"@ { "0"@ } else if flag_opt@ == "+"@ { "SG"@ } else { Seq::<char>::empty() }));

    let mut digits: Vec<char> = Vec::new();
    let mut i: usize = 0;
    while i < width
        invariant
            i <= width,
            digits@ == pg_digits_forward(width as nat, comma_sep, i as nat),
        decreases width - i,
    {
        digits.push('9');
        let k = i + 1;
        if comma_sep && k != width {
            if k % 3 == 0 {
                digits.push(',');
            }
        }
        i = i + 1;
    }
    let ghost fwd = digits@;
    let ghost prefix = to_char_format@;
    let mut j: usize = digits.len();
    while j > 0
        invariant
            j <= digits.len(),
            digits@ == fwd,
            to_char_format@ == prefix + fwd.reverse().take((digits.len() - j) as int),
        decreases j,
    {
        j = j - 1;
        push_char(&mut to_char_format, digits[j]);
        assert(fwd.reverse().take((digits.len() - j) as int)
            == fwd.reverse().take((digits.len() - j - 1) as int).push(digits@[j as int]));
    }
    assert(fwd.reverse().take(digits.len() as int) == fwd.reverse());
    assert(fwd == pg_digits_forward(width as nat, flag_opt@ == ","@, width as nat));
    assert(width as nat == option_or(width_opt@, 99));
    assert(precision as nat == option_or(precision_opt@, 6));

    let ghost digits_part = to_char_format@;
    assert(digits_part == (if flag_opt@ == "0"@ { "0"@ } else if flag_opt@ == "+"@ { "SG"@ } else { Seq::<char>::empty() })
        + pg_digits_forward(option_or(width_opt@, 99), flag_opt@ == ","@, option_or(width_opt@, 99)).reverse());
    if precision > 0 {
        push_char(&mut to_char_format, '.');
        let ghost before = to_char_format@;
        let mut n: usize = 0;
        while n < precision
            invariant
                n <= precision,
                to_char_format@ == before + nines(n as nat),
            decreases precision - n,
        {
            push_char(&mut to_char_format, '9');
            n = n + 1;
            assert(nines(n as nat) =~= nines((n - 1) as nat).push('9'));
        }
        assert(to_char_format@ =~= digits_part + (seq!['.'] + nines(precision as nat)));
    } else {
        assert(to_char_format@ =~= digits_part + Seq::<char>::empty());
    }
    to_char_format
}

/// The pattern of the `sprintf` formats that are understood.
pub const SPRINTF_PATTERN: &'static str = r#"^%([\-+ 0#,!])?([1-9][0-9]*)?((.)([0-9]+))?(\w)$"#;

/// The conversion types that are recognized.
pub open spec fn valid_format_type(t: Seq<char>) -> bool {
    t == "d"@ || t == "i"@ || t == "c"@ || t == "o"@ || t == "u"@ || t == "x"@ || t == "e"@ || t == "f"@
        || t == "g"@ || t == "a"@ || t == "s"@
}

/// A capture group's text, or empty.
pub open spec fn group_or_empty(groups: Seq<Option<Seq<char>>>, i: int) -> Seq<char> {
    if 0 <= i < groups.len() {
        match groups[i] {
            Some(t) => t,
            None => Seq::empty(),
        }
    } else {
        Seq::empty()
    }
}

/// The flag, width, precision and conversion type of an `sprintf` format.
pub open spec fn split_sprintf_spec(format: Seq<char>) -> (Seq<char>, Seq<char>, Seq<char>, Seq<char>) {
    let plain = (Seq::<char>::empty(), Seq::<char>::empty(), Seq::<char>::empty(), "s"@);
    if format.len() == 0 || !regex_valid(SPRINTF_PATTERN@) {
        plain
    } else {
        match regex_captures_spec(SPRINTF_PATTERN@, format) {
            None => plain,
            Some(groups) => {
                let t = group_or_empty(groups, 6);
                (group_or_empty(groups, 1), group_or_empty(groups, 2), group_or_empty(groups, 5),
                    if valid_format_type(t) { t } else { "s"@ })
            },
        }
    }
}

pub(crate) fn group_text(groups: &Vec<Option<String>>, i: usize) -> (r: String)
    ensures
        r@ == group_or_empty(crate::pattern::opt_views(groups@), i as int),
{
    match group(groups, i) {
        Some(s) => s,
        None => String::new(),
    }
}

fn is_valid_format_type(t: &str) -> (r: bool)
    ensures
        r == valid_format_type(t@),
{
    str_eq(t, "d") || str_eq(t, "i") || str_eq(t, "c") || str_eq(t, "o") || str_eq(t, "u") || str_eq(t, "x")
        || str_eq(t, "e") || str_eq(t, "f") || str_eq(t, "g") || str_eq(t, "a") || str_eq(t, "s")
}

/// Split an `sprintf` format (<https://sqlite.org/printf.html>) into its optional flag,
/// width, precision and its conversion type. An empty or unrecognized format is
/// `("", "", "", "s")`; an unknown conversion type becomes `s`.
pub fn split_sprintf_format(sprintf_format: &str) -> (r: (String, String, String, String))
    ensures
        (r.0@, r.1@, r.2@, r.3@) == split_sprintf_spec(sprintf_format@),
{
    if is_empty_str(sprintf_format) {
        return (String::new(), String::new(), String::new(), String::from_str("s"));
    }
    match regex_captures(SPRINTF_PATTERN, sprintf_format) {
        Ok(Some(groups)) => {
            let flag_opt = group_text(&groups, 1);
            let width_opt = group_text(&groups, 2);
            let precision_opt = group_text(&groups, 5);
            let mut format_type = group_text(&groups, 6);
            if !is_valid_format_type(format_type.as_str()) {
                format_type = String::from_str("s");
            }
            (flag_opt, width_opt, precision_opt, format_type)
        },
        _ => (String::new(), String::new(), String::new(), String::from_str("s")),
    }
}


// ---------------------------------------------------------------------------
// Statements that add validation messages
// ---------------------------------------------------------------------------

/// A piece of the statement that adds validation messages.
pub const MESSAGE_SQL_0: &'static str = "INSERT INTO \"message\"\n                             (\"added_by\", \"table\", \"row\", \"column\", \"value\", \"level\", \"rule\",\n                              \"message\")\n                           SELECT\n                             'rltbl' AS \"added_by\",\n                             ";
/// A piece of the statement that adds validation messages.
pub const MESSAGE_SQL_1: &'static str = " AS \"table\",\n                             \"_id\" AS \"row\",\n                             ";
/// A piece of the statement that adds validation messages.
pub const MESSAGE_SQL_2: &'static str = " AS \"column\",\n                             ";
/// A piece of the statement that adds validation messages.
pub const MESSAGE_SQL_3: &'static str = " AS \"value\",\n                             'error' AS \"level\",\n                             ";
/// A piece of the statement that adds validation messages.
pub const MESSAGE_SQL_4: &'static str = " AS \"rule\",\n                             ";
/// A piece of the statement that adds validation messages.
pub const MESSAGE_SQL_5: &'static str = " AS \"message\"\n                           FROM \"";
/// A piece of the statement that adds validation messages.
pub const MESSAGE_SQL_6: &'static str = "\"\n                           WHERE ";

/// The start of a statement that adds an error message about each row of `table` that its
/// WHERE clause (which follows) finds: the placeholders of the message's table, column,
/// rule and text, and the expression of the value.
pub open spec fn message_insert_sql(p1: Seq<char>, p2: Seq<char>, value: Seq<char>, p3: Seq<char>, p4: Seq<char>, table: Seq<char>) -> Seq<char> {
    MESSAGE_SQL_0@ + p1 + MESSAGE_SQL_1@ + p2 + MESSAGE_SQL_2@ + value + MESSAGE_SQL_3@ + p3 + MESSAGE_SQL_4@ + p4
        + MESSAGE_SQL_5@ + table + MESSAGE_SQL_6@
}

/// The start of a statement that adds validation messages, its first four placeholders
/// made by the generator.
pub fn message_insert(sql_param: &mut SqlParam, value: &str, table: &str) -> (r: String)
    requires
        old(sql_param).kind == DbKind::PostgreSQL ==> old(sql_param).index + 4 <= usize::MAX,
    ensures
        final(sql_param).kind == old(sql_param).kind,
        final(sql_param).index == advance(old(sql_param).kind, old(sql_param).index as nat, 4),
        r@ == message_insert_sql(
            placeholder(old(sql_param).kind, old(sql_param).index as nat + 1),
            placeholder(old(sql_param).kind, old(sql_param).index as nat + 2),
            value@,
            placeholder(old(sql_param).kind, old(sql_param).index as nat + 3),
            placeholder(old(sql_param).kind, old(sql_param).index as nat + 4),
            table@,
        ),
{
    let mut s = owned(MESSAGE_SQL_0);
    s.append(sql_param.next().as_str());
    s.append(MESSAGE_SQL_1);
    s.append(sql_param.next().as_str());
    s.append(MESSAGE_SQL_2);
    s.append(value);
    s.append(MESSAGE_SQL_3);
    s.append(sql_param.next().as_str());
    s.append(MESSAGE_SQL_4);
    s.append(sql_param.next().as_str());
    s.append(MESSAGE_SQL_5);
    s.append(table);
    s.append(MESSAGE_SQL_6);
    s
}

/// ` AND "_id" IN(` and the rows' placeholders `)`, or nothing for no rows.
pub open spec fn rows_clause(kind: DbKind, index: nat, rows: nat) -> Seq<char> {
    if rows == 0 {
        Seq::empty()
    } else {
        " AND \"_id\" IN("@ + seq_join(placeholders(kind, index, rows), ", "@) + ")"@
    }
}

/// The end of a statement that adds validation messages.
pub const RETURNING_SQL: &'static str = " RETURNING 1 AS \"inserted\"";

/// Appends the clause that limits the statement to the given rows, and the RETURNING clause;
/// the rows' identifiers are added to the parameters.
pub fn finish_message_insert(sql: &mut String, params: &mut Vec<JsonValue>, rows: &Vec<u64>, sql_param: &mut SqlParam)
    requires
        old(sql_param).kind == DbKind::PostgreSQL ==> old(sql_param).index + rows@.len() <= usize::MAX,
    ensures
        final(sql_param).kind == old(sql_param).kind,
        final(sql)@ == old(sql)@ + rows_clause(old(sql_param).kind, old(sql_param).index as nat, rows@.len())
            + RETURNING_SQL@,
        crate::json::json_views(final(params)@) == crate::json::json_views(old(params)@)
            + rows@.map_values(|r: u64| Json::Int(r as int)),
{
    let ghost p0 = crate::json::json_views(params@);
    let ghost s0 = sql@;
    if rows.len() > 0 {
        sql.append(" AND \"_id\" IN(");
        sql.append(sql_param.get_as_list(rows.len()).as_str());
        sql.append(")");
    }
    assert(sql@ =~= s0 + rows_clause(old(sql_param).kind, old(sql_param).index as nat, rows@.len()));
    let mut i: usize = 0;
    while i < rows.len()
        invariant
            i <= rows.len(),
            crate::json::json_views(params@) == p0 + rows@.take(i as int).map_values(|r: u64| Json::Int(r as int)),
        decreases rows.len() - i,
    {
        let ghost before = params@;
        let v = crate::json::json_u64(rows[i]);
        params.push(v);
        assert(crate::json::json_views(params@) =~= crate::json::json_views(before).push(v@));
        assert(rows@.take(i + 1).map_values(|r: u64| Json::Int(r as int))
            =~= rows@.take(i as int).map_values(|r: u64| Json::Int(r as int)).push(Json::Int(rows@[i as int] as int)));
        i = i + 1;
        assert(crate::json::json_views(params@) =~= p0 + rows@.take(i as int).map_values(|r: u64| Json::Int(r as int)));
    }
    assert(rows@.take(i as int) =~= rows@);
    sql.append(RETURNING_SQL);
}

} // verus!

verus! {

// ---------------------------------------------------------------------------
// DDL for tables
// ---------------------------------------------------------------------------

/// True for a column that a table with the meta columns `_id` and `_order` cannot have:
/// one of those names, or a primary key.
pub open spec fn meta_conflict(c: crate::column::ColumnView) -> bool {
    c.column == "_id"@ || c.column == "_order"@ || c.primary_key
}

/// The message about a column that conflicts with the meta columns.
pub open spec fn meta_conflict_message(c: crate::column::ColumnView) -> Seq<char> {
    if c.column == "_id"@ || c.column == "_order"@ {
        "column "@ + c.column + " conflicts with has_meta == true"@
    } else {
        "Primary key on column "@ + c.column + " conflicts with has_meta == true"@
    }
}

/// The first column, among the first `n`, that conflicts with the meta columns.
pub open spec fn first_meta_conflict(cols: Seq<crate::column::ColumnView>, n: nat) -> Option<crate::column::ColumnView>
    decreases n,
{
    if n == 0 {
        None
    } else {
        match first_meta_conflict(cols, (n - 1) as nat) {
            Some(c) => Some(c),
            None => if n <= cols.len() && meta_conflict(cols[n - 1]) { Some(cols[n - 1]) } else { None },
        }
    }
}

/// The first column, among the first `n`, whose table is not the given one.
pub open spec fn first_table_mismatch(cols: Seq<crate::column::ColumnView>, table: Seq<char>, n: nat) -> Option<crate::column::ColumnView>
    decreases n,
{
    if n == 0 {
        None
    } else {
        match first_table_mismatch(cols, table, (n - 1) as nat) {
            Some(c) => Some(c),
            None => if n <= cols.len() && cols[n - 1].table != table { Some(cols[n - 1]) } else { None },
        }
    }
}

/// The error that [generate_table_ddl] gives, if any: a column that conflicts with the
/// meta columns of a table that has them, else a column of another table.
pub open spec fn table_ddl_error(table: crate::table::TableView, cols: Seq<crate::column::ColumnView>) -> Option<Seq<char>> {
    let m = if table.has_meta { first_meta_conflict(cols, cols.len()) } else { None };
    match m {
        Some(c) => Some(meta_conflict_message(c)),
        None => match first_table_mismatch(cols, table.name, cols.len()) {
            Some(c) => Some("Table name mismatch: '"@ + c.table + "' != '"@ + table.name + "'"@),
            None => None,
        },
    }
}

/// The SQL type of a column, as [crate::column::Column::sql_type] finds it.
pub open spec fn column_type(c: crate::column::ColumnView, e: Seq<(Seq<char>, crate::datatype::DatatypeView)>) -> Seq<char> {
    match crate::column::column_sql_type(c, e) {
        Some(t) => t,
        None => Seq::empty(),
    }
}

/// True when [crate::column::Column::sql_type] can find the column's SQL type.
pub open spec fn sql_type_found(c: crate::column::ColumnView, e: Seq<(Seq<char>, crate::datatype::DatatypeView)>) -> bool {
    c.sql_type.len() == 0 ==> crate::maps::lookup(e, "text"@) is Some && crate::column::column_sql_type(c, e) is Some
}

/// A column's clause in `CREATE TABLE`: its quoted name, its SQL type and, for a unique
/// column, `UNIQUE`.
pub open spec fn column_clause(c: crate::column::ColumnView, e: Seq<(Seq<char>, crate::datatype::DatatypeView)>) -> Seq<char> {
    seq!['"'] + c.column + seq!['"'] + seq![' '] + column_type(c, e) + if c.unique { " UNIQUE"@ } else { Seq::empty() }
}

/// The statement that drops a table, with `CASCADE` for PostgreSQL.
pub open spec fn drop_table_sql(name: Seq<char>, kind: DbKind) -> Seq<char> {
    match kind {
        DbKind::PostgreSQL => "DROP TABLE IF EXISTS \""@ + name + "\" CASCADE"@,
        DbKind::SQLite => "DROP TABLE IF EXISTS \""@ + name + seq!['"'],
    }
}

/// The statements that [generate_table_ddl] gives when there is no error: the drop
/// statement when forced, then the statement that creates the table with the meta
/// columns' DDL (when it has them) and each column's clause.
pub open spec fn table_ddl_spec(
    table: crate::table::TableView,
    cols: Seq<crate::column::ColumnView>,
    e: Seq<(Seq<char>, crate::datatype::DatatypeView)>,
    force: bool,
    kind: DbKind,
    meta_ddl: Seq<char>,
) -> Seq<Seq<char>> {
    let create = "CREATE TABLE \""@ + table.name + "\" ( "@
        + (if table.has_meta { meta_ddl + ","@ } else { Seq::empty() })
        + seq![' '] + seq_join(cols.map_values(|c: crate::column::ColumnView| column_clause(c, e)), ", "@) + ")"@;
    if force { seq![drop_table_sql(table.name, kind), create] } else { seq![create] }
}

proof fn lemma_first_meta_conflict_stays(cols: Seq<crate::column::ColumnView>, n: nat, m: nat)
    requires
        n <= m,
        first_meta_conflict(cols, n) is Some,
    ensures
        first_meta_conflict(cols, m) == first_meta_conflict(cols, n),
    decreases m - n,
{
    if n < m {
        lemma_first_meta_conflict_stays(cols, n, (m - 1) as nat);
    }
}

proof fn lemma_first_table_mismatch_stays(cols: Seq<crate::column::ColumnView>, table: Seq<char>, n: nat, m: nat)
    requires
        n <= m,
        first_table_mismatch(cols, table, n) is Some,
    ensures
        first_table_mismatch(cols, table, m) == first_table_mismatch(cols, table, n),
    decreases m - n,
{
    if n < m {
        lemma_first_table_mismatch_stays(cols, table, n, (m - 1) as nat);
    }
}

fn meta_conflict_text(col: &crate::column::Column) -> (r: Option<String>)
    ensures
        match r {
            Some(m) => meta_conflict(col@) && m@ == meta_conflict_message(col@),
            None => !meta_conflict(col@),
        },
{
    if str_eq(col.column.as_str(), "_id") || str_eq(col.column.as_str(), "_order") {
        let mut m = cat("column ", col.column.as_str());
        m.append(" conflicts with has_meta == true");
        Some(m)
    } else if col.primary_key {
        let mut m = cat("Primary key on column ", col.column.as_str());
        m.append(" conflicts with has_meta == true");
        Some(m)
    } else {
        None
    }
}

/// The statements that create the given table with the given columns: the SQL type of each
/// column comes from the datatypes, `meta_ddl` declares the meta columns `_id` and `_order`
/// for a table that has them, and `force` drops the table first. A column that conflicts
/// with the meta columns of such a table, or a column of another table, is an input error.
pub fn generate_table_ddl(
    table: &crate::table::Table,
    columns: &Vec<crate::column::Column>,
    datatypes: &crate::datatype::Datatypes,
    force: bool,
    db_kind: &DbKind,
    meta_ddl: &str,
) -> (r: Result<Vec<String>, RelatableError>)
    requires
        forall|i: int| 0 <= i < columns@.len()
            && (table.has_meta ==> first_meta_conflict(columns@.map_values(|c: crate::column::Column| c@), columns@.len()) is None)
            && first_table_mismatch(columns@.map_values(|c: crate::column::Column| c@), table.name@, (i + 1) as nat) is None
            ==> sql_type_found(#[trigger] columns@[i]@, datatypes@),
    ensures
        match r {
            Ok(ddl) => table_ddl_error(table@, columns@.map_values(|c: crate::column::Column| c@)) is None
                && views(ddl@) == table_ddl_spec(table@, columns@.map_values(|c: crate::column::Column| c@),
                    datatypes@, force, *db_kind, meta_ddl@),
            Err(e) => e is InputError
                && table_ddl_error(table@, columns@.map_values(|c: crate::column::Column| c@)) == Some(e->InputError_0@),
        },
{
    let ghost cols = columns@.map_values(|c: crate::column::Column| c@);
    if table.has_meta {
        let mut i: usize = 0;
        while i < columns.len()
            invariant
                i <= columns.len(),
                table.has_meta,
                cols == columns@.map_values(|c: crate::column::Column| c@),
                first_meta_conflict(cols, i as nat) is None,
            decreases columns.len() - i,
        {
            match meta_conflict_text(&columns[i]) {
                Some(m) => {
                    assert(cols[i as int] == columns@[i as int]@);
                    assert(first_meta_conflict(cols, (i + 1) as nat) == Some(cols[i as int]));
                    proof { lemma_first_meta_conflict_stays(cols, (i + 1) as nat, cols.len()); }
                    assert(table_ddl_error(table@, cols) == Some(m@));
                    return Err(RelatableError::InputError(m));
                },
                None => {},
            }
            i = i + 1;
        }
    }
    let mut clauses: Vec<String> = Vec::new();
    let mut i: usize = 0;
    while i < columns.len()
        invariant
            i <= columns.len(),
            cols == columns@.map_values(|c: crate::column::Column| c@),
            table.has_meta ==> first_meta_conflict(cols, cols.len()) is None,
            first_table_mismatch(cols, table@.name, i as nat) is None,
            forall|k: int| 0 <= k < columns@.len()
                && (table.has_meta ==> first_meta_conflict(cols, columns@.len()) is None)
                && first_table_mismatch(cols, table.name@, (k + 1) as nat) is None
                ==> sql_type_found(#[trigger] columns@[k]@, datatypes@),
            views(clauses@) == cols.take(i as int).map_values(|c: crate::column::ColumnView| column_clause(c, datatypes@)),
        decreases columns.len() - i,
    {
        let col = &columns[i];
        if !str_eq(col.table.as_str(), table.name.as_str()) {
            assert(first_table_mismatch(cols, table@.name, (i + 1) as nat) == Some(cols[i as int]));
            proof { lemma_first_table_mismatch_stays(cols, table@.name, (i + 1) as nat, cols.len()); }
            let mut m = cat("Table name mismatch: '", col.table.as_str());
            m.append("' != '");
            m.append(table.name.as_str());
            m.append("'");
            return Err(RelatableError::InputError(m));
        }
        assert(first_table_mismatch(cols, table@.name, (i + 1) as nat) is None);
        assert(sql_type_found(columns@[i as int]@, datatypes@));
        let sql_type = col.sql_type(datatypes);
        let mut clause = dquote(col.column.as_str());
        push_char(&mut clause, ' ');
        clause.append(sql_type.as_str());
        if col.unique {
            clause.append(" UNIQUE");
        }
        assert(cols[i as int] == columns@[i as int]@);
        assert(clause@ == column_clause(cols[i as int], datatypes@));
        proof { crate::text::lemma_views_push(clauses@, clause); }
        clauses.push(clause);
        i = i + 1;
        assert(views(clauses@) =~= cols.take(i as int).map_values(|c: crate::column::ColumnView| column_clause(c, datatypes@)));
    }
    assert(cols.take(i as int) =~= cols);
    let mut ddl: Vec<String> = Vec::new();
    if force {
        let mut d = cat("DROP TABLE IF EXISTS \"", table.name.as_str());
        match db_kind {
            DbKind::PostgreSQL => d.append("\" CASCADE"),
            DbKind::SQLite => push_char(&mut d, '"'),
        }
        assert(d@ =~= drop_table_sql(table@.name, *db_kind));
        assert(views(ddl@) =~= Seq::<Seq<char>>::empty());
        proof { crate::text::lemma_views_push(ddl@, d); }
        ddl.push(d);
        assert(views(ddl@) =~= seq![drop_table_sql(table@.name, *db_kind)]);
    }
    assert(views(ddl@) =~= if force { seq![drop_table_sql(table@.name, *db_kind)] } else { Seq::<Seq<char>>::empty() });
    let mut sql = cat("CREATE TABLE \"", table.name.as_str());
    sql.append("\" ( ");
    if table.has_meta {
        sql.append(meta_ddl);
        sql.append(",");
    }
    push_char(&mut sql, ' ');
    let joined = crate::text::join(&clauses, ", ");
    sql.append(joined.as_str());
    sql.append(")");
    let ghost spec = table_ddl_spec(table@, cols, datatypes@, force, *db_kind, meta_ddl@);
    assert(joined@ == seq_join(cols.map_values(|c: crate::column::ColumnView| column_clause(c, datatypes@)), ", "@));
    assert(sql@ =~= spec.last());
    proof { crate::text::lemma_views_push(ddl@, sql); }
    ddl.push(sql);
    assert(views(ddl@) =~= table_ddl_spec(table@, cols, datatypes@, force, *db_kind, meta_ddl@));
    Ok(ddl)
}


// ---------------------------------------------------------------------------
// DDL for views
// ---------------------------------------------------------------------------

/// A piece of the statement that creates the default view.
pub const SQLITE_DEFAULT_VIEW_0: &'static str = "CREATE VIEW \"";
/// A piece of the statement that creates the default view.
pub const SQLITE_DEFAULT_VIEW_1: &'static str = "\" AS\n                     SELECT\n                       ";
/// A piece of the statement that creates the default view.
pub const SQLITE_DEFAULT_VIEW_2: &'static str = " AS _id,\n                       ";
/// A piece of the statement that creates the default view.
pub const SQLITE_DEFAULT_VIEW_3: &'static str = " AS _order,\n                       (SELECT \"change_id\"\n                        FROM \"history\"\n                        WHERE \"table\" = '";
/// A piece of the statement that creates the default view.
pub const SQLITE_DEFAULT_VIEW_4: &'static str = "'\n                        AND \"row\" = ";
/// A piece of the statement that creates the default view.
pub const SQLITE_DEFAULT_VIEW_5: &'static str = "\n                        ORDER BY \"change_id\" DESC\n                        LIMIT 1\n                       ) AS _change_id,\n                       (SELECT '[' || GROUP_CONCAT(\"after\") || ']'\n                          FROM (\n                            SELECT \"after\"\n                            FROM \"history\"\n                            WHERE \"table\" = '";
/// A piece of the statement that creates the default view.
pub const SQLITE_DEFAULT_VIEW_6: &'static str = "'\n                            AND \"after\" IS NOT NULL\n                            AND \"row\" = ";
/// A piece of the statement that creates the default view.
pub const SQLITE_DEFAULT_VIEW_7: &'static str = "\n                            ORDER BY \"history_id\"\n                         )\n                       ) AS \"_history\",\n                       (SELECT NULLIF(\n                          JSON_GROUP_ARRAY(\n                            JSON_OBJECT(\n                              'column', \"column\",\n                              'value', \"value\",\n                              'level', \"level\",\n                              'rule', \"rule\",\n                              'message', \"message\"\n                            )\n                          ),\n                          '[]'\n                        ) AS \"_message\"\n                          FROM \"message\"\n                          WHERE \"table\" = '";
/// A piece of the statement that creates the default view.
pub const SQLITE_DEFAULT_VIEW_8: &'static str = "'\n                          AND \"row\" = ";
/// A piece of the statement that creates the default view.
pub const SQLITE_DEFAULT_VIEW_9: &'static str = "\n                          ORDER BY \"column\", \"message_id\"\n                       ) AS \"_message\",\n                       ";
/// A piece of the statement that creates the default view.
pub const SQLITE_DEFAULT_VIEW_10: &'static str = "\n                     FROM \"";
/// A piece of the statement that creates the default view.
pub const SQLITE_DEFAULT_VIEW_11: &'static str = "\"";
/// A piece of the statement that creates the default view.
pub const PG_DEFAULT_VIEW_0: &'static str = "CREATE OR REPLACE VIEW \"";
/// A piece of the statement that creates the default view.
pub const PG_DEFAULT_VIEW_1: &'static str = "\" AS\n                 SELECT\n                   \"";
/// A piece of the statement that creates the default view.
pub const PG_DEFAULT_VIEW_2: &'static str = "\" AS _id,\n                   \"";
/// A piece of the statement that creates the default view.
pub const PG_DEFAULT_VIEW_3: &'static str = "\" AS _order,\n                   (\n                     SELECT \"change_id\"\n                     FROM \"history\"\n                     WHERE \"table\" = '";
/// A piece of the statement that creates the default view.
pub const PG_DEFAULT_VIEW_4: &'static str = "'\n                     AND \"row\" = ";
/// A piece of the statement that creates the default view.
pub const PG_DEFAULT_VIEW_5: &'static str = "\n                     ORDER BY \"change_id\" DESC\n                     LIMIT 1\n                   ) AS _change_id,\n                   (\n                     SELECT ('['::TEXT || string_agg(h.after, ','::TEXT)) || ']'::TEXT\n                     FROM ( SELECT \"history\".\"after\"\n                            FROM \"history\"\n                            WHERE \"history\".\"table\" = '";
/// A piece of the statement that creates the default view.
pub const PG_DEFAULT_VIEW_6: &'static str = "'\n                            AND \"after\" IS DISTINCT FROM NULL\n                            AND \"row\" = \"";
/// A piece of the statement that creates the default view.
pub const PG_DEFAULT_VIEW_7: &'static str = "\"\n                            ORDER BY \"history_id\" ) h\n                   ) AS \"_history\",\n                   (\n                     SELECT json_agg(m.*)::TEXT AS json_agg\n                     FROM ( SELECT \"message\".\"column\",\n                                   \"message\".\"value\",\n                                   \"message\".\"level\",\n                                   \"message\".\"rule\",\n                                   \"message\".\"message\"\n                            FROM \"message\"\n                     WHERE \"message\".\"table\" = '";
/// A piece of the statement that creates the default view.
pub const PG_DEFAULT_VIEW_8: &'static str = "' AND \"message\".\"row\" = \"";
/// A piece of the statement that creates the default view.
pub const PG_DEFAULT_VIEW_9: &'static str = "\"\n                     ORDER BY \"message\".\"column\", \"message\".\"message_id\") m\n                   ) AS \"_message\",\n                   ";
/// A piece of the statement that creates the default view.
pub const PG_DEFAULT_VIEW_10: &'static str = "\n                     FROM \"";
/// A piece of the statement that creates the default view.
pub const PG_DEFAULT_VIEW_11: &'static str = "\"";

/// The quoted names of the columns, separated by commas.
pub open spec fn quoted_column_list(columns: Seq<crate::column::ColumnView>) -> Seq<char> {
    seq_join(columns.map_values(|c: crate::column::ColumnView| seq!['"'] + c.column + seq!['"']), ", "@)
}

/// The statements that create the default view of a table for each kind of database:
/// the view `table_default_view` shows the rows of the table with their identifier and
/// order (from `id_col` and `order_col`), the last change of each row, its history and
/// its messages, and the given columns. SQLite drops the view first; PostgreSQL
/// replaces it.
pub open spec fn default_view_spec(table: Seq<char>, id_col: Seq<char>, order_col: Seq<char>, columns: Seq<crate::column::ColumnView>, kind: DbKind) -> Seq<Seq<char>> {
    let view = table + "_default_view"@;
    let columns = quoted_column_list(columns);
    match kind {
        DbKind::SQLite => seq![
            "DROP VIEW IF EXISTS \""@ + view + seq!['"'],
            SQLITE_DEFAULT_VIEW_0@ + view + SQLITE_DEFAULT_VIEW_1@ + id_col + SQLITE_DEFAULT_VIEW_2@ + order_col + SQLITE_DEFAULT_VIEW_3@ + table + SQLITE_DEFAULT_VIEW_4@ + id_col + SQLITE_DEFAULT_VIEW_5@ + table + SQLITE_DEFAULT_VIEW_6@ + id_col + SQLITE_DEFAULT_VIEW_7@ + table + SQLITE_DEFAULT_VIEW_8@ + id_col + SQLITE_DEFAULT_VIEW_9@ + columns + SQLITE_DEFAULT_VIEW_10@ + table + SQLITE_DEFAULT_VIEW_11@,
        ],
        DbKind::PostgreSQL => seq![
            PG_DEFAULT_VIEW_0@ + view + PG_DEFAULT_VIEW_1@ + id_col + PG_DEFAULT_VIEW_2@ + order_col + PG_DEFAULT_VIEW_3@ + table + PG_DEFAULT_VIEW_4@ + id_col + PG_DEFAULT_VIEW_5@ + table + PG_DEFAULT_VIEW_6@ + id_col + PG_DEFAULT_VIEW_7@ + table + PG_DEFAULT_VIEW_8@ + id_col + PG_DEFAULT_VIEW_9@ + columns + PG_DEFAULT_VIEW_10@ + table + PG_DEFAULT_VIEW_11@,
        ],
    }
}

fn quoted_columns(columns: &Vec<crate::column::Column>) -> (r: String)
    ensures
        r@ == quoted_column_list(columns@.map_values(|c: crate::column::Column| c@)),
{
    let mut names: Vec<String> = Vec::new();
    let mut i: usize = 0;
    while i < columns.len()
        invariant
            i <= columns.len(),
            views(names@) == columns@.take(i as int).map_values(|c: crate::column::Column| seq!['"'] + c@.column + seq!['"']),
        decreases columns.len() - i,
    {
        let q = dquote(columns[i].column.as_str());
        proof { crate::text::lemma_views_push(names@, q); }
        names.push(q);
        i = i + 1;
        assert(views(names@) =~= columns@.take(i as int).map_values(|c: crate::column::Column| seq!['"'] + c@.column + seq!['"']));
    }
    assert(columns@.take(i as int) =~= columns@);
    assert(columns@.map_values(|c: crate::column::Column| seq!['"'] + c@.column + seq!['"'])
        =~= columns@.map_values(|c: crate::column::Column| c@).map_values(|c: crate::column::ColumnView| seq!['"'] + c.column + seq!['"']));
    crate::text::join(&names, ", ")
}

/// The statements that create the default view of the table (see [default_view_spec]).
/// Placeholders are not allowed in views, so the names are written into the text.
pub fn generate_default_view_ddl(
    table_name: &str,
    id_col: &str,
    order_col: &str,
    columns: &Vec<crate::column::Column>,
    kind: &DbKind,
) -> (r: Vec<String>)
    ensures
        views(r@) == default_view_spec(table_name@, id_col@, order_col@, columns@.map_values(|c: crate::column::Column| c@), *kind),
{
    let view = cat(table_name, "_default_view");
    let cols = quoted_columns(columns);
    let mut r: Vec<String> = Vec::new();
    assert(views(r@) =~= Seq::<Seq<char>>::empty());
    let ghost spec = default_view_spec(table_name@, id_col@, order_col@, columns@.map_values(|c: crate::column::Column| c@), *kind);
    match kind {
        DbKind::SQLite => {
            let mut d = cat("DROP VIEW IF EXISTS \"", view.as_str());
            push_char(&mut d, '"');
            let mut s = String::new();
        s.append(SQLITE_DEFAULT_VIEW_0);
        s.append(view.as_str());
        s.append(SQLITE_DEFAULT_VIEW_1);
        s.append(id_col);
        s.append(SQLITE_DEFAULT_VIEW_2);
        s.append(order_col);
        s.append(SQLITE_DEFAULT_VIEW_3);
        s.append(table_name);
        s.append(SQLITE_DEFAULT_VIEW_4);
        s.append(id_col);
        s.append(SQLITE_DEFAULT_VIEW_5);
        s.append(table_name);
        s.append(SQLITE_DEFAULT_VIEW_6);
        s.append(id_col);
        s.append(SQLITE_DEFAULT_VIEW_7);
        s.append(table_name);
        s.append(SQLITE_DEFAULT_VIEW_8);
        s.append(id_col);
        s.append(SQLITE_DEFAULT_VIEW_9);
        s.append(cols.as_str());
        s.append(SQLITE_DEFAULT_VIEW_10);
        s.append(table_name);
        s.append(SQLITE_DEFAULT_VIEW_11);
            assert(d@ =~= spec[0]);
            assert(s@ =~= spec[1]);
            proof { crate::text::lemma_views_push(r@, d); }
            r.push(d);
            proof { crate::text::lemma_views_push(r@, s); }
            r.push(s);
        },
        DbKind::PostgreSQL => {
            let mut s = String::new();
        s.append(PG_DEFAULT_VIEW_0);
        s.append(view.as_str());
        s.append(PG_DEFAULT_VIEW_1);
        s.append(id_col);
        s.append(PG_DEFAULT_VIEW_2);
        s.append(order_col);
        s.append(PG_DEFAULT_VIEW_3);
        s.append(table_name);
        s.append(PG_DEFAULT_VIEW_4);
        s.append(id_col);
        s.append(PG_DEFAULT_VIEW_5);
        s.append(table_name);
        s.append(PG_DEFAULT_VIEW_6);
        s.append(id_col);
        s.append(PG_DEFAULT_VIEW_7);
        s.append(table_name);
        s.append(PG_DEFAULT_VIEW_8);
        s.append(id_col);
        s.append(PG_DEFAULT_VIEW_9);
        s.append(cols.as_str());
        s.append(PG_DEFAULT_VIEW_10);
        s.append(table_name);
        s.append(PG_DEFAULT_VIEW_11);
            assert(s@ =~= spec[0]);
            proof { crate::text::lemma_views_push(r@, s); }
            r.push(s);
        },
    }
    assert(views(r@) =~= spec);
    r
}


/// A piece of a column's clause in the text view.
pub const TEXT_VIEW_CASE_0: &'static str = "CASE\n                     WHEN \"";
/// A piece of a column's clause in the text view.
pub const TEXT_VIEW_CASE_1: &'static str = "\" ";
/// A piece of a column's clause in the text view.
pub const TEXT_VIEW_CASE_2: &'static str = " NULL THEN (\n                       SELECT \"value\"\n                       FROM \"message\"\n                       WHERE \"row\" = \"_id\"\n                         AND \"column\" = '";
/// A piece of a column's clause in the text view.
pub const TEXT_VIEW_CASE_3: &'static str = "'\n                         AND \"table\" = '";
/// A piece of a column's clause in the text view.
pub const TEXT_VIEW_CASE_4: &'static str = "'\n                       ORDER BY \"message_id\" DESC\n                       LIMIT 1\n                     )\n                     ELSE ";
/// A piece of a column's clause in the text view.
pub const TEXT_VIEW_CASE_5: &'static str = "\n                   END AS \"";
/// A piece of a column's clause in the text view.
pub const TEXT_VIEW_CASE_6: &'static str = "\"";
/// A piece of the statement that creates the text view.
pub const TEXT_VIEW_0: &'static str = "CREATE VIEW \"";
/// A piece of the statement that creates the text view.
pub const TEXT_VIEW_1: &'static str = "\" AS\n           SELECT ";
/// A piece of the statement that creates the text view.
pub const TEXT_VIEW_2: &'static str = "\n           FROM (\n               SELECT ";
/// A piece of the statement that creates the text view.
pub const TEXT_VIEW_3: &'static str = "\n               FROM \"";
/// A piece of the statement that creates the text view.
pub const TEXT_VIEW_4: &'static str = "_default_view\"\n           ) t";

/// How the text view shows a column's value, for the given parts of its datatype's
/// `sprintf` format: SQLite's `FORMAT()`; for PostgreSQL, `TO_CHAR()` with the equivalent
/// format, or a cast to text where there is none.
pub open spec fn column_cast_spec(column: Seq<char>, format: Seq<char>, kind: DbKind) -> Seq<char> {
    let (flag, width, precision, format_type) = split_sprintf_spec(format);
    let quoted = seq!['"'] + column + seq!['"'];
    match kind {
        DbKind::SQLite => {
            let p = if precision.len() == 0 { Seq::empty() } else { seq!['.'] + precision };
            "FORMAT('"@ + (seq!['%'] + flag + width + p + format_type) + "', "@ + quoted + seq![')']
        },
        DbKind::PostgreSQL => {
            let pg = pg_char_spec(flag, width, precision, format_type);
            if pg.len() == 0 {
                quoted + "::TEXT"@
            } else {
                "LTRIM(TO_CHAR("@ + quoted + ", '"@ + pg + "'), ' ')"@
            }
        },
    }
}

/// The format of a column's datatype, or empty when the datatype is not found.
pub open spec fn column_format(c: crate::column::ColumnView, e: Seq<(Seq<char>, crate::datatype::DatatypeView)>) -> Seq<char> {
    match crate::maps::lookup(e, c.datatype) {
        Some(d) => d.format,
        None => Seq::empty(),
    }
}

/// A column's clause in the text view: where the value is null, the value of the row's
/// most recent message about the column; else the formatted value.
pub open spec fn text_view_case(c: crate::column::ColumnView, table: Seq<char>, e: Seq<(Seq<char>, crate::datatype::DatatypeView)>, kind: DbKind) -> Seq<char> {
    TEXT_VIEW_CASE_0@ + c.column + TEXT_VIEW_CASE_1@ + is_clause_spec(kind) + TEXT_VIEW_CASE_2@ + c.column
        + TEXT_VIEW_CASE_3@ + table + TEXT_VIEW_CASE_4@ + column_cast_spec(c.column, column_format(c, e), kind)
        + TEXT_VIEW_CASE_5@ + c.column + TEXT_VIEW_CASE_6@
}

/// The statements that create the text view of a table, `table_text_view`: it drops the
/// view, then selects from the default view the meta columns and each column's clause.
pub open spec fn text_view_spec(e: Seq<(Seq<char>, crate::datatype::DatatypeView)>, table: Seq<char>, columns: Seq<crate::column::ColumnView>, kind: DbKind) -> Seq<Seq<char>> {
    let view = table + "_text_view"@;
    let inner = seq!["_id"@, "_order"@, "_message"@, "_history"@]
        + columns.map_values(|c: crate::column::ColumnView| text_view_case(c, table, e, kind));
    let outer = seq!["t._id"@, "t._order"@, "t._message"@, "t._history"@]
        + columns.map_values(|c: crate::column::ColumnView| "t."@ + seq!['"'] + c.column + seq!['"']);
    seq![
        "DROP VIEW IF EXISTS \""@ + view + seq!['"'],
        TEXT_VIEW_0@ + view + TEXT_VIEW_1@ + seq_join(outer, ", "@) + TEXT_VIEW_2@ + seq_join(inner, ", "@)
            + TEXT_VIEW_3@ + table + TEXT_VIEW_4@,
    ]
}

fn column_cast(column: &str, format: &str, kind: &DbKind) -> (r: String)
    ensures
        r@ == column_cast_spec(column@, format@, *kind),
{
    let (flag_opt, width_opt, precision_opt, format_type) = split_sprintf_format(format);
    let quoted = dquote(column);
    match kind {
        DbKind::SQLite => {
            let mut f = String::new();
            push_char(&mut f, '%');
            f.append(flag_opt.as_str());
            f.append(width_opt.as_str());
            if !is_empty_str(precision_opt.as_str()) {
                push_char(&mut f, '.');
                f.append(precision_opt.as_str());
            }
            f.append(format_type.as_str());
            let mut r = cat("FORMAT('", f.as_str());
            r.append("', ");
            r.append(quoted.as_str());
            push_char(&mut r, ')');
            let ghost p = if precision_opt@.len() == 0 { Seq::<char>::empty() } else { seq!['.'] + precision_opt@ };
            assert(f@ =~= seq!['%'] + flag_opt@ + width_opt@ + p + format_type@);
            assert(r@ =~= column_cast_spec(column@, format@, *kind));
            r
        },
        DbKind::PostgreSQL => {
            let pg = sprintf_to_pg_char(flag_opt.as_str(), width_opt.as_str(), precision_opt.as_str(), format_type.as_str());
            if is_empty_str(pg.as_str()) {
                let r = cat(quoted.as_str(), "::TEXT");
                r
            } else {
                let mut r = cat("LTRIM(TO_CHAR(", quoted.as_str());
                r.append(", '");
                r.append(pg.as_str());
                r.append("'), ' ')");
                r
            }
        },
    }
}

fn text_view_case_of(column: &crate::column::Column, table_name: &str, datatypes: &crate::datatype::Datatypes, kind: &DbKind) -> (r: String)
    ensures
        r@ == text_view_case(column@, table_name@, datatypes@, *kind),
{
    let format = match datatypes.get(column.datatype.as_str()) {
        Some(d) => d.format.clone(),
        None => String::new(),
    };
    let cast = column_cast(column.column.as_str(), format.as_str(), kind);
    let name = column.column.as_str();
    let mut s = owned(TEXT_VIEW_CASE_0);
    s.append(name);
    s.append(TEXT_VIEW_CASE_1);
    s.append(is_clause(kind).as_str());
    s.append(TEXT_VIEW_CASE_2);
    s.append(name);
    s.append(TEXT_VIEW_CASE_3);
    s.append(table_name);
    s.append(TEXT_VIEW_CASE_4);
    s.append(cast.as_str());
    s.append(TEXT_VIEW_CASE_5);
    s.append(name);
    s.append(TEXT_VIEW_CASE_6);
    s
}

/// The statements that create the text view of the table (see [text_view_spec]), in which
/// each column's value is formatted as its datatype's format asks. Placeholders are not
/// allowed in views, so the names are written into the text.
pub fn generate_text_view_ddl(
    datatypes: &crate::datatype::Datatypes,
    table_name: &str,
    columns: &Vec<crate::column::Column>,
    kind: &DbKind,
) -> (r: Vec<String>)
    ensures
        views(r@) == text_view_spec(datatypes@, table_name@, columns@.map_values(|c: crate::column::Column| c@), *kind),
{
    let ghost cols = columns@.map_values(|c: crate::column::Column| c@);
    let view = cat(table_name, "_text_view");
    let mut inner: Vec<String> = vec![owned("_id"), owned("_order"), owned("_message"), owned("_history")];
    let mut outer: Vec<String> = vec![owned("t._id"), owned("t._order"), owned("t._message"), owned("t._history")];
    let ghost inner0 = views(inner@);
    let ghost outer0 = views(outer@);
    assert(inner0 =~= seq!["_id"@, "_order"@, "_message"@, "_history"@]);
    assert(outer0 =~= seq!["t._id"@, "t._order"@, "t._message"@, "t._history"@]);
    let mut i: usize = 0;
    while i < columns.len()
        invariant
            i <= columns.len(),
            cols == columns@.map_values(|c: crate::column::Column| c@),
            views(inner@) == inner0 + cols.take(i as int).map_values(|c: crate::column::ColumnView| text_view_case(c, table_name@, datatypes@, *kind)),
            views(outer@) == outer0 + cols.take(i as int).map_values(|c: crate::column::ColumnView| "t."@ + seq!['"'] + c.column + seq!['"']),
        decreases columns.len() - i,
    {
        let case = text_view_case_of(&columns[i], table_name, datatypes, kind);
        let mut o = owned("t.");
        o.append(dquote(columns[i].column.as_str()).as_str());
        assert(cols[i as int] == columns@[i as int]@);
        assert(o@ =~= "t."@ + seq!['"'] + cols[i as int].column + seq!['"']);
        proof {
            crate::text::lemma_views_push(inner@, case);
            crate::text::lemma_views_push(outer@, o);
        }
        inner.push(case);
        outer.push(o);
        i = i + 1;
        assert(views(inner@) =~= inner0 + cols.take(i as int).map_values(|c: crate::column::ColumnView| text_view_case(c, table_name@, datatypes@, *kind)));
        assert(views(outer@) =~= outer0 + cols.take(i as int).map_values(|c: crate::column::ColumnView| "t."@ + seq!['"'] + c.column + seq!['"']));
    }
    assert(cols.take(i as int) =~= cols);
    let mut drop = cat("DROP VIEW IF EXISTS \"", view.as_str());
    push_char(&mut drop, '"');
    let mut create = owned(TEXT_VIEW_0);
    create.append(view.as_str());
    create.append(TEXT_VIEW_1);
    create.append(crate::text::join(&outer, ", ").as_str());
    create.append(TEXT_VIEW_2);
    create.append(crate::text::join(&inner, ", ").as_str());
    create.append(TEXT_VIEW_3);
    create.append(table_name);
    create.append(TEXT_VIEW_4);
    let r = vec![drop, create];
    let ghost spec = text_view_spec(datatypes@, table_name@, cols, *kind);
    assert(r@[0]@ =~= spec[0]);
    assert(r@[1]@ =~= spec[1]);
    assert(views(r@) =~= spec);
    r
}

} // verus!

verus! {

/// True when `Into` from `S` to `D` follows its specification.
pub open spec fn into_ok<S: Into<D>, D>() -> bool {
    <S as vstd::std_specs::convert::IntoSpec<D>>::obeys_into_spec()
}

/// The value that `Into` makes of `s`.
pub open spec fn into_value<S: Into<D>, D>(s: S) -> D {
    <S as vstd::std_specs::convert::IntoSpec<D>>::into_spec(s)
}

/// Converts each item of a vector, in order.
pub trait VecInto<D>: Sized {
    fn vec_into(self) -> Vec<D>;
}

impl<S: Into<D>, D> VecInto<D> for Vec<S> {
    fn vec_into(self) -> (r: Vec<D>)
        ensures
            r@.len() == self@.len(),
            forall|i: int| 0 <= i < r@.len() ==> into_ok::<S, D>() ==> #[trigger] r@[i] == into_value::<S, D>(self@[i]),
    {
        let ghost items = self@;
        let mut rest = self;
        let mut reversed: Vec<D> = Vec::new();
        while rest.len() > 0
            invariant
                rest@.len() + reversed@.len() == items.len(),
                rest@ == items.take(rest@.len() as int),
                forall|k: int| 0 <= k < reversed@.len() ==>
                    into_ok::<S, D>() ==> #[trigger] reversed@[k] == into_value::<S, D>(items[items.len() - 1 - k]),
            decreases rest@.len(),
        {
            let ghost n = rest@.len();
            let x = match rest.pop() {
                Some(x) => x,
                None => {
                    assert(false);
                    return Vec::new();
                },
            };
            assert(x == items[n - 1]);
            assert(rest@ =~= items.take(n - 1));
            let d: D = x.into();
            reversed.push(d);
        }
        let mut out: Vec<D> = Vec::new();
        while reversed.len() > 0
            invariant
                out@.len() + reversed@.len() == items.len(),
                forall|k: int| 0 <= k < reversed@.len() ==>
                    into_ok::<S, D>() ==> #[trigger] reversed@[k] == into_value::<S, D>(items[items.len() - 1 - k]),
                forall|k: int| 0 <= k < out@.len() ==> into_ok::<S, D>() ==> #[trigger] out@[k] == into_value::<S, D>(items[k]),
            decreases reversed@.len(),
        {
            let ghost m = reversed@.len();
            let y = match reversed.pop() {
                Some(y) => y,
                None => {
                    assert(false);
                    return Vec::new();
                },
            };
            assert(into_ok::<S, D>() ==> y == into_value::<S, D>(items[items.len() - 1 - (m - 1)]));
            out.push(y);
        }
        out
    }
}

} // verus!
