//! SELECT statements: their fields, joins, filters and order, and the SQL, URLs and
//! query parameters made from them.
use vstd::prelude::*;

use crate::json::{json_debug_spec, json_debug_text, json_str, json_u64, number_text, number_to_text, Json, JsonNumber, JsonValue};
use crate::sql::{advance, is_clause, is_clause_spec, is_not_clause, is_not_clause_spec, placeholder, DbKind, SqlParam};
use crate::text::{cat, cat3, dquote, is_empty_str, nat_text, owned, push_char, push_u64, seq_join, str_eq, u64_text, views};

verus! {

broadcast use vstd::std_specs::vec::group_vec_axioms;

/// The number of rows a query returns unless told otherwise.
pub const DEFAULT_LIMIT: usize = 100;

/// The direction of an ORDER BY clause.
#[derive(Clone, Copy, Debug, PartialEq, Eq, Structural)]
pub enum Order {
    ASC,
    DESC,
}

impl Order {
    /// Ascending, the default order.
    pub fn default() -> (r: Self)
        ensures
            r == Order::ASC,
    {
        Order::ASC
    }
}

/// The text of an order: `ASC` or `DESC`.
pub open spec fn order_text(o: Order) -> Seq<char> {
    match o {
        Order::ASC => "ASC"@,
        Order::DESC => "DESC"@,
    }
}

/// `ASC` or `DESC`.
pub fn order_to_text(o: Order) -> (r: String)
    ensures
        r@ == order_text(o),
{
    match o {
        Order::ASC => String::from_str("ASC"),
        Order::DESC => String::from_str("DESC"),
    }
}

/// A field in a [Select] clause.
#[derive(Debug, PartialEq)]
pub enum SelectField {
    Column { table: String, column: String, alias: String },
    Expression { expression: String, alias: String },
}

/// The model of a field.
pub enum FieldView {
    Column(Seq<char>, Seq<char>, Seq<char>),
    Expression(Seq<char>, Seq<char>),
}

impl View for SelectField {
    type V = FieldView;

    open spec fn view(&self) -> FieldView {
        match self {
            SelectField::Column { table, column, alias } => FieldView::Column(table@, column@, alias@),
            SelectField::Expression { expression, alias } => FieldView::Expression(expression@, alias@),
        }
    }
}

impl Clone for SelectField {
    fn clone(&self) -> (r: Self)
        ensures
            r@ == self@,
    {
        match self {
            SelectField::Column { table, column, alias } => SelectField::Column {
                table: table.clone(),
                column: column.clone(),
                alias: alias.clone(),
            },
            SelectField::Expression { expression, alias } => SelectField::Expression {
                expression: expression.clone(),
                alias: alias.clone(),
            },
        }
    }
}

/// ` AS "alias"`, or nothing for an empty alias.
pub open spec fn alias_sql(alias: Seq<char>) -> Seq<char> {
    if alias.len() == 0 { Seq::empty() } else { " AS \""@ + alias + seq!['"'] }
}

/// The SQL of a field: `"table"."column" AS "alias"` (table and alias when given), or
/// the expression and its alias.
pub open spec fn field_sql(f: FieldView) -> Seq<char> {
    match f {
        FieldView::Column(t, c, a) => (if t.len() == 0 { Seq::empty() } else { seq!['"'] + t + seq!['"', '.'] })
            + seq!['"'] + c + seq!['"'] + alias_sql(a),
        FieldView::Expression(e, a) => e + alias_sql(a),
    }
}

/// The URL form of a column field: `table.column`, or just the column.
pub open spec fn field_url(f: FieldView) -> Seq<char> {
    match f {
        FieldView::Column(t, c, _) => (if t.len() == 0 { Seq::empty() } else { t + seq!['.'] }) + c,
        FieldView::Expression(_, _) => Seq::empty(),
    }
}

fn push_alias(s: &mut String, alias: &str)
    ensures
        final(s)@ == old(s)@ + alias_sql(alias@),
{
    if !is_empty_str(alias) {
        s.append(" AS \"");
        s.append(alias);
        push_char(s, '"');
    }
    assert(final(s)@ =~= old(s)@ + alias_sql(alias@));
}

impl SelectField {
    /// The field as SQL.
    pub fn to_sql(&self) -> (r: String)
        ensures
            r@ == field_sql(self@),
    {
        match self {
            SelectField::Column { table, column, alias } => {
                let mut s = String::new();
                if !is_empty_str(table.as_str()) {
                    s = dquote(table.as_str());
                    push_char(&mut s, '.');
                }
                let ghost prefix = s@;
                assert(prefix =~= (if table@.len() == 0 { Seq::empty() } else { seq!['"'] + table@ + seq!['"', '.'] }));
                s.append(dquote(column.as_str()).as_str());
                push_alias(&mut s, alias.as_str());
                assert(s@ =~= field_sql(self@));
                s
            },
            SelectField::Expression { expression, alias } => {
                let mut s = expression.clone();
                push_alias(&mut s, alias.as_str());
                assert(s@ =~= field_sql(self@));
                s
            },
        }
    }

    /// The field as it is written in a URL: `table.column` or `column`. Only column
    /// fields can be written so; their aliases are left out.
    pub fn to_url(&self) -> (r: String)
        requires
            self is Column,
        ensures
            r@ == field_url(self@),
    {
        match self {
            SelectField::Column { table, column, .. } => {
                let mut s = String::new();
                if !is_empty_str(table.as_str()) {
                    s = table.clone();
                    push_char(&mut s, '.');
                }
                s.append(column.as_str());
                s
            },
            SelectField::Expression { .. } => String::new(),
        }
    }
}

/// A database join.
#[derive(Debug)]
pub enum Join {
    LeftJoin { left_table: String, left_column: String, right_table: String, right_column: String },
}

/// The model of a join: left table, left column, right table, right column.
pub enum JoinView {
    LeftJoin(Seq<char>, Seq<char>, Seq<char>, Seq<char>),
}

impl View for Join {
    type V = JoinView;

    open spec fn view(&self) -> JoinView {
        match self {
            Join::LeftJoin { left_table, left_column, right_table, right_column } => JoinView::LeftJoin(
                left_table@,
                left_column@,
                right_table@,
                right_column@,
            ),
        }
    }
}

impl Clone for Join {
    fn clone(&self) -> (r: Self)
        ensures
            r@ == self@,
    {
        match self {
            Join::LeftJoin { left_table, left_column, right_table, right_column } => Join::LeftJoin {
                left_table: left_table.clone(),
                left_column: left_column.clone(),
                right_table: right_table.clone(),
                right_column: right_column.clone(),
            },
        }
    }
}

/// `"table"."column"`.
pub open spec fn qualified(t: Seq<char>, c: Seq<char>) -> Seq<char> {
    seq!['"'] + t + "\".\""@ + c + seq!['"']
}

/// `LEFT JOIN "right_table" ON "left_table"."left_column" = "right_table"."right_column"`.
pub open spec fn join_sql(j: JoinView) -> Seq<char> {
    match j {
        JoinView::LeftJoin(lt, lc, rt, rc) => "LEFT JOIN "@ + seq!['"'] + rt + "\" ON "@ + qualified(lt, lc) + " = "@
            + qualified(rt, rc),
    }
}

fn push_qualified(s: &mut String, t: &str, c: &str)
    ensures
        final(s)@ == old(s)@ + qualified(t@, c@),
{
    push_char(s, '"');
    s.append(t);
    s.append("\".\"");
    s.append(c);
    push_char(s, '"');
}

impl Join {
    /// The join as SQL.
    pub fn to_sql(&self) -> (r: String)
        ensures
            r@ == join_sql(self@),
    {
        match self {
            Join::LeftJoin { left_table, left_column, right_table, right_column } => {
                let mut s = String::from_str("LEFT JOIN ");
                push_char(&mut s, '"');
                s.append(right_table.as_str());
                s.append("\" ON ");
                push_qualified(&mut s, left_table.as_str(), left_column.as_str());
                s.append(" = ");
                push_qualified(&mut s, right_table.as_str(), right_column.as_str());
                s
            },
        }
    }
}

/// The output formats of a query, by the extension of its path.
#[derive(Clone, Copy, Debug, PartialEq, Eq, Structural)]
pub enum Format {
    Html,
    Csv,
    Tsv,
    Json,
    ValueJson,
    PrettyJson,
    Default,
}

/// The extension of a format.
pub open spec fn format_text(f: Format) -> Seq<char> {
    match f {
        Format::Html => ".html"@,
        Format::Csv => ".csv"@,
        Format::Tsv => ".tsv"@,
        Format::Json => ".json"@,
        Format::ValueJson => ".value.json"@,
        Format::PrettyJson => ".pretty.json"@,
        Format::Default => ""@,
    }
}


/// A condition on the rows that a [Select] returns.
#[derive(Debug)]
pub enum Filter {
    Like { table: String, column: String, value: JsonValue },
    Equal { table: String, column: String, value: JsonValue },
    NotEqual { table: String, column: String, value: JsonValue },
    GreaterThan { table: String, column: String, value: JsonValue },
    GreaterThanOrEqual { table: String, column: String, value: JsonValue },
    LessThan { table: String, column: String, value: JsonValue },
    LessThanOrEqual { table: String, column: String, value: JsonValue },
    Is { table: String, column: String, value: JsonValue },
    IsNot { table: String, column: String, value: JsonValue },
    In { table: String, column: String, value: JsonValue },
    NotIn { table: String, column: String, value: JsonValue },
    InSubquery { table: String, column: String, subquery: Select },
    NotInSubquery { table: String, column: String, subquery: Select },
}

/// The comparison a filter on a value makes.
#[derive(Clone, Copy, Debug, PartialEq, Eq, Structural)]
pub enum FilterOp {
    Like,
    Equal,
    NotEqual,
    GreaterThan,
    GreaterThanOrEqual,
    LessThan,
    LessThanOrEqual,
    Is,
    IsNot,
    In,
    NotIn,
}

/// The model of a filter: a comparison with a value, or (not) being among the rows of a subquery.
pub enum FilterView {
    Value(FilterOp, Seq<char>, Seq<char>, Json),
    Subquery(bool, Seq<char>, Seq<char>, SelectView),
}

/// A SELECT statement.
#[derive(Debug)]
pub struct Select {
    pub table_name: String,
    pub view_name: String,
    pub select: Vec<SelectField>,
    pub joins: Vec<Join>,
    pub limit: usize,
    pub offset: usize,
    pub filters: Vec<Filter>,
    pub order_by: Vec<(String, Order)>,
}

/// The model of a SELECT statement.
pub struct SelectView {
    pub table_name: Seq<char>,
    pub view_name: Seq<char>,
    pub select: Seq<FieldView>,
    pub joins: Seq<JoinView>,
    pub limit: nat,
    pub offset: nat,
    pub filters: Seq<FilterView>,
    pub order_by: Seq<(Seq<char>, Order)>,
}

impl Filter {
    pub open spec fn model(&self) -> FilterView
        decreases self,
    {
        match self {
            Filter::Like { table, column, value } => FilterView::Value(FilterOp::Like, table@, column@, value@),
            Filter::Equal { table, column, value } => FilterView::Value(FilterOp::Equal, table@, column@, value@),
            Filter::NotEqual { table, column, value } => FilterView::Value(FilterOp::NotEqual, table@, column@, value@),
            Filter::GreaterThan { table, column, value } => FilterView::Value(FilterOp::GreaterThan, table@, column@, value@),
            Filter::GreaterThanOrEqual { table, column, value } => FilterView::Value(FilterOp::GreaterThanOrEqual, table@, column@, value@),
            Filter::LessThan { table, column, value } => FilterView::Value(FilterOp::LessThan, table@, column@, value@),
            Filter::LessThanOrEqual { table, column, value } => FilterView::Value(FilterOp::LessThanOrEqual, table@, column@, value@),
            Filter::Is { table, column, value } => FilterView::Value(FilterOp::Is, table@, column@, value@),
            Filter::IsNot { table, column, value } => FilterView::Value(FilterOp::IsNot, table@, column@, value@),
            Filter::In { table, column, value } => FilterView::Value(FilterOp::In, table@, column@, value@),
            Filter::NotIn { table, column, value } => FilterView::Value(FilterOp::NotIn, table@, column@, value@),
            Filter::InSubquery { table, column, subquery } => FilterView::Subquery(false, table@, column@, subquery.model()),
            Filter::NotInSubquery { table, column, subquery } => FilterView::Subquery(true, table@, column@, subquery.model()),
        }
    }
}

impl Select {
    pub open spec fn model(&self) -> SelectView
        decreases self,
    {
        SelectView {
            table_name: self.table_name@,
            view_name: self.view_name@,
            select: self.select@.map_values(|f: SelectField| f@),
            joins: self.joins@.map_values(|j: Join| j@),
            limit: self.limit as nat,
            offset: self.offset as nat,
            filters: Seq::new(
                self.filters@.len(),
                |i: int| if 0 <= i < self.filters@.len() {
                    self.filters@[i].model()
                } else {
                    FilterView::Value(FilterOp::Like, Seq::empty(), Seq::empty(), Json::Null)
                },
            ),
            order_by: self.order_by@.map_values(|p: (String, Order)| (p.0@, p.1)),
        }
    }
}

impl View for Filter {
    type V = FilterView;

    open spec fn view(&self) -> FilterView {
        self.model()
    }
}

impl View for Select {
    type V = SelectView;

    open spec fn view(&self) -> SelectView {
        self.model()
    }
}

/// The table of a filter.
pub open spec fn filter_table(f: FilterView) -> Seq<char> {
    match f {
        FilterView::Value(_, t, _, _) => t,
        FilterView::Subquery(_, t, _, _) => t,
    }
}

/// The column of a filter.
pub open spec fn filter_column(f: FilterView) -> Seq<char> {
    match f {
        FilterView::Value(_, _, c, _) => c,
        FilterView::Subquery(_, _, c, _) => c,
    }
}

/// The filter with its table replaced.
pub open spec fn with_table(f: FilterView, t: Seq<char>) -> FilterView {
    match f {
        FilterView::Value(op, _, c, v) => FilterView::Value(op, t, c, v),
        FilterView::Subquery(n, _, c, s) => FilterView::Subquery(n, t, c, s),
    }
}

/// The filter with its column replaced.
pub open spec fn with_column(f: FilterView, c: Seq<char>) -> FilterView {
    match f {
        FilterView::Value(op, t, _, v) => FilterView::Value(op, t, c, v),
        FilterView::Subquery(n, t, _, s) => FilterView::Subquery(n, t, c, s),
    }
}

impl Clone for Filter {
    fn clone(&self) -> (r: Self)
        ensures
            r@ == self@,
        decreases self,
    {
        match self {
            Filter::Like { table, column, value } => Filter::Like { table: table.clone(), column: column.clone(), value: value.clone() },
            Filter::Equal { table, column, value } => Filter::Equal { table: table.clone(), column: column.clone(), value: value.clone() },
            Filter::NotEqual { table, column, value } => Filter::NotEqual { table: table.clone(), column: column.clone(), value: value.clone() },
            Filter::GreaterThan { table, column, value } => Filter::GreaterThan { table: table.clone(), column: column.clone(), value: value.clone() },
            Filter::GreaterThanOrEqual { table, column, value } => Filter::GreaterThanOrEqual { table: table.clone(), column: column.clone(), value: value.clone() },
            Filter::LessThan { table, column, value } => Filter::LessThan { table: table.clone(), column: column.clone(), value: value.clone() },
            Filter::LessThanOrEqual { table, column, value } => Filter::LessThanOrEqual { table: table.clone(), column: column.clone(), value: value.clone() },
            Filter::Is { table, column, value } => Filter::Is { table: table.clone(), column: column.clone(), value: value.clone() },
            Filter::IsNot { table, column, value } => Filter::IsNot { table: table.clone(), column: column.clone(), value: value.clone() },
            Filter::In { table, column, value } => Filter::In { table: table.clone(), column: column.clone(), value: value.clone() },
            Filter::NotIn { table, column, value } => Filter::NotIn { table: table.clone(), column: column.clone(), value: value.clone() },
            Filter::InSubquery { table, column, subquery } => Filter::InSubquery {
                table: table.clone(),
                column: column.clone(),
                subquery: subquery.clone(),
            },
            Filter::NotInSubquery { table, column, subquery } => Filter::NotInSubquery {
                table: table.clone(),
                column: column.clone(),
                subquery: subquery.clone(),
            },
        }
    }
}

impl Clone for Select {
    fn clone(&self) -> (r: Self)
        ensures
            r@ == self@,
        decreases self,
    {
        let mut select: Vec<SelectField> = Vec::new();
        let mut i: usize = 0;
        while i < self.select.len()
            invariant
                i <= self.select.len(),
                select@.len() == i,
                forall|j: int| 0 <= j < i ==> #[trigger] select@[j]@ == self.select@[j]@,
            decreases self.select.len() - i,
        {
            select.push(self.select[i].clone());
            i = i + 1;
        }
        let mut joins: Vec<Join> = Vec::new();
        let mut i: usize = 0;
        while i < self.joins.len()
            invariant
                i <= self.joins.len(),
                joins@.len() == i,
                forall|j: int| 0 <= j < i ==> #[trigger] joins@[j]@ == self.joins@[j]@,
            decreases self.joins.len() - i,
        {
            joins.push(self.joins[i].clone());
            i = i + 1;
        }
        let mut filters: Vec<Filter> = Vec::new();
        let mut i: usize = 0;
        while i < self.filters.len()
            invariant
                i <= self.filters.len(),
                filters@.len() == i,
                forall|j: int| 0 <= j < i ==> #[trigger] filters@[j]@ == self.filters@[j]@,
            decreases self.filters.len() - i,
        {
            proof {
                assert(decreases_to!(self => self.filters@[i as int]));
            }
            filters.push(self.filters[i].clone());
            i = i + 1;
        }
        let mut order_by: Vec<(String, Order)> = Vec::new();
        let mut i: usize = 0;
        while i < self.order_by.len()
            invariant
                i <= self.order_by.len(),
                order_by@.len() == i,
                forall|j: int| 0 <= j < i ==> #[trigger] order_by@[j].0@ == self.order_by@[j].0@
                    && order_by@[j].1 == self.order_by@[j].1,
            decreases self.order_by.len() - i,
        {
            order_by.push((self.order_by[i].0.clone(), self.order_by[i].1));
            i = i + 1;
        }
        let ghost fv = filters@;
        let r = Select {
            table_name: self.table_name.clone(),
            view_name: self.view_name.clone(),
            select,
            joins,
            limit: self.limit,
            offset: self.offset,
            filters,
            order_by,
        };
        assert(r@.select =~= self@.select);
        assert(r@.joins =~= self@.joins);
        assert forall|j: int| 0 <= j < self@.filters.len() implies r@.filters[j] == self@.filters[j] by {
            assert(r.filters@[j] == fv[j]);
            assert(fv[j]@ == self.filters@[j]@);
        }
        assert(r@.filters =~= self@.filters);
        assert(r@.order_by =~= self@.order_by);
        r
    }
}


// ---------------------------------------------------------------------------
// Selects as JSON
// ---------------------------------------------------------------------------

/// A JSON object with the given fields.
pub open spec fn obj(fields: Seq<(Seq<char>, Json)>) -> Json {
    Json::Obj(fields)
}

/// The JSON of a field: `{"Column": {...}}` or `{"Expression": {...}}`, each object's keys in order.
pub open spec fn field_json(f: FieldView) -> Json {
    match f {
        FieldView::Column(t, c, a) => obj(seq![("Column"@, obj(seq![
            ("alias"@, Json::Str(a)), ("column"@, Json::Str(c)), ("table"@, Json::Str(t))]))]),
        FieldView::Expression(e, a) => obj(seq![("Expression"@, obj(seq![
            ("alias"@, Json::Str(a)), ("expression"@, Json::Str(e))]))]),
    }
}

/// The JSON of a join: `{"LeftJoin": {...}}`.
pub open spec fn join_json(j: JoinView) -> Json {
    match j {
        JoinView::LeftJoin(lt, lc, rt, rc) => obj(seq![("LeftJoin"@, obj(seq![
            ("left_column"@, Json::Str(lc)), ("left_table"@, Json::Str(lt)),
            ("right_column"@, Json::Str(rc)), ("right_table"@, Json::Str(rt))]))]),
    }
}

/// The name of a filter's variant.
pub open spec fn op_name(op: FilterOp) -> Seq<char> {
    match op {
        FilterOp::Like => "Like"@,
        FilterOp::Equal => "Equal"@,
        FilterOp::NotEqual => "NotEqual"@,
        FilterOp::GreaterThan => "GreaterThan"@,
        FilterOp::GreaterThanOrEqual => "GreaterThanOrEqual"@,
        FilterOp::LessThan => "LessThan"@,
        FilterOp::LessThanOrEqual => "LessThanOrEqual"@,
        FilterOp::Is => "Is"@,
        FilterOp::IsNot => "IsNot"@,
        FilterOp::In => "In"@,
        FilterOp::NotIn => "NotIn"@,
    }
}

/// The JSON of a filter: an object tagged by `type`.
pub open spec fn filter_json(f: FilterView) -> Json
    decreases f, 2int,
{
    match f {
        FilterView::Value(op, t, c, v) => obj(seq![
            ("column"@, Json::Str(c)), ("table"@, Json::Str(t)), ("type"@, Json::Str(op_name(op))), ("value"@, v)]),
        FilterView::Subquery(n, t, c, s) => obj(seq![
            ("column"@, Json::Str(c)), ("subquery"@, select_json(s)), ("table"@, Json::Str(t)),
            ("type"@, Json::Str(if n { "NotInSubquery"@ } else { "InSubquery"@ }))]),
    }
}

/// The JSON of a select: an object with its fields, keys in order.
pub open spec fn select_json(s: SelectView) -> Json
    decreases s, 1int,
{
    obj(seq![
        ("filters"@, Json::Arr(filters_json(s.filters))),
        ("joins"@, Json::Arr(joins_json(s.joins))),
        ("limit"@, Json::Int(s.limit as int)),
        ("offset"@, Json::Int(s.offset as int)),
        ("order_by"@, Json::Arr(order_by_json(s.order_by))),
        ("select"@, Json::Arr(fields_json(s.select))),
        ("table_name"@, Json::Str(s.table_name)),
        ("view_name"@, Json::Str(s.view_name)),
    ])
}

/// The JSON of a list of filters.
pub open spec fn filters_json(fs: Seq<FilterView>) -> Seq<Json>
    decreases fs, 0int,
{
    Seq::new(fs.len(), |i: int| if 0 <= i < fs.len() { filter_json(fs[i]) } else { Json::Null })
}

/// The JSON of a list of joins.
pub open spec fn joins_json(js: Seq<JoinView>) -> Seq<Json> {
    js.map_values(|j: JoinView| join_json(j))
}

/// The JSON of an ORDER BY list: `[column, order]` pairs.
pub open spec fn order_by_json(os: Seq<(Seq<char>, Order)>) -> Seq<Json> {
    os.map_values(|p: (Seq<char>, Order)| Json::Arr(seq![Json::Str(p.0), Json::Str(order_text(p.1))]))
}

/// The JSON of a list of fields.
pub open spec fn fields_json(fs: Seq<FieldView>) -> Seq<Json> {
    fs.map_values(|f: FieldView| field_json(f))
}

fn entry(key: &str, value: JsonValue) -> (r: (String, JsonValue))
    ensures
        r.0@ == key@,
        r.1@ == value@,
{
    (owned(key), value)
}

fn json_object(fields: Vec<(String, JsonValue)>) -> (r: JsonValue)
    ensures
        r@ == Json::Obj(Seq::new(fields@.len(), |i: int| (fields@[i].0@, fields@[i].1@))),
{
    let r = JsonValue::Object(fields);
    assert(r@ == Json::Obj(Seq::new(fields@.len(), |i: int| (fields@[i].0@, fields@[i].1@)))) by {
        if let Json::Obj(a) = r@ {
            assert(a =~= Seq::new(fields@.len(), |i: int| (fields@[i].0@, fields@[i].1@)));
        }
    }
    r
}

fn json_list(items: Vec<JsonValue>) -> (r: JsonValue)
    ensures
        r@ == Json::Arr(Seq::new(items@.len(), |i: int| items@[i]@)),
{
    let r = JsonValue::Array(items);
    assert(r@ == Json::Arr(Seq::new(items@.len(), |i: int| items@[i]@))) by {
        if let Json::Arr(a) = r@ {
            assert(a =~= Seq::new(items@.len(), |i: int| items@[i]@));
        }
    }
    r
}

impl SelectField {
    /// The field as JSON.
    pub fn to_json(&self) -> (r: JsonValue)
        ensures
            r@ == field_json(self@),
    {
        match self {
            SelectField::Column { table, column, alias } => {
                let inner = json_object(vec![
                    entry("alias", json_str(alias.as_str())),
                    entry("column", json_str(column.as_str())),
                    entry("table", json_str(table.as_str())),
                ]);
                let ghost want = seq![("alias"@, Json::Str(alias@)), ("column"@, Json::Str(column@)), ("table"@, Json::Str(table@))];
                assert(inner@ == obj(want)) by {
                    if let Json::Obj(a) = inner@ {
                        assert(a =~= want);
                    }
                }
                let r = json_object(vec![entry("Column", inner)]);
                assert(r@ == field_json(self@)) by {
                    if let Json::Obj(a) = r@ {
                        assert(a =~= seq![("Column"@, obj(want))]);
                    }
                }
                r
            },
            SelectField::Expression { expression, alias } => {
                let inner = json_object(vec![
                    entry("alias", json_str(alias.as_str())),
                    entry("expression", json_str(expression.as_str())),
                ]);
                let ghost want = seq![("alias"@, Json::Str(alias@)), ("expression"@, Json::Str(expression@))];
                assert(inner@ == obj(want)) by {
                    if let Json::Obj(a) = inner@ {
                        assert(a =~= want);
                    }
                }
                let r = json_object(vec![entry("Expression", inner)]);
                assert(r@ == field_json(self@)) by {
                    if let Json::Obj(a) = r@ {
                        assert(a =~= seq![("Expression"@, obj(want))]);
                    }
                }
                r
            },
        }
    }
}

impl Join {
    /// The join as JSON.
    pub fn to_json(&self) -> (r: JsonValue)
        ensures
            r@ == join_json(self@),
    {
        match self {
            Join::LeftJoin { left_table, left_column, right_table, right_column } => {
                let inner = json_object(vec![
                    entry("left_column", json_str(left_column.as_str())),
                    entry("left_table", json_str(left_table.as_str())),
                    entry("right_column", json_str(right_column.as_str())),
                    entry("right_table", json_str(right_table.as_str())),
                ]);
                let ghost want = seq![("left_column"@, Json::Str(left_column@)), ("left_table"@, Json::Str(left_table@)),
                    ("right_column"@, Json::Str(right_column@)), ("right_table"@, Json::Str(right_table@))];
                assert(inner@ == obj(want)) by {
                    if let Json::Obj(a) = inner@ {
                        assert(a =~= want);
                    }
                }
                let r = json_object(vec![entry("LeftJoin", inner)]);
                assert(r@ == join_json(self@)) by {
                    if let Json::Obj(a) = r@ {
                        assert(a =~= seq![("LeftJoin"@, obj(want))]);
                    }
                }
                r
            },
        }
    }
}

fn op_name_text(op: FilterOp) -> (r: String)
    ensures
        r@ == op_name(op),
{
    match op {
        FilterOp::Like => owned("Like"),
        FilterOp::Equal => owned("Equal"),
        FilterOp::NotEqual => owned("NotEqual"),
        FilterOp::GreaterThan => owned("GreaterThan"),
        FilterOp::GreaterThanOrEqual => owned("GreaterThanOrEqual"),
        FilterOp::LessThan => owned("LessThan"),
        FilterOp::LessThanOrEqual => owned("LessThanOrEqual"),
        FilterOp::Is => owned("Is"),
        FilterOp::IsNot => owned("IsNot"),
        FilterOp::In => owned("In"),
        FilterOp::NotIn => owned("NotIn"),
    }
}


fn value_filter_json(op: FilterOp, table: &String, column: &String, value: &JsonValue) -> (r: JsonValue)
    ensures
        r@ == filter_json(FilterView::Value(op, table@, column@, value@)),
{
    let r = json_object(vec![
        entry("column", json_str(column.as_str())),
        entry("table", json_str(table.as_str())),
        entry("type", JsonValue::String(op_name_text(op))),
        entry("value", value.clone()),
    ]);
    assert(r@ == filter_json(FilterView::Value(op, table@, column@, value@))) by {
        if let Json::Obj(a) = r@ {
            assert(a =~= seq![("column"@, Json::Str(column@)), ("table"@, Json::Str(table@)),
                ("type"@, Json::Str(op_name(op))), ("value"@, value@)]);
        }
    }
    r
}

impl Filter {
    /// The table of the filter.
    fn table_ref(&self) -> (r: &String)
        ensures
            r@ == filter_table(self@),
    {
        match self {
            Filter::Like { table, .. } | Filter::Equal { table, .. } | Filter::NotEqual { table, .. }
            | Filter::GreaterThan { table, .. } | Filter::GreaterThanOrEqual { table, .. }
            | Filter::LessThan { table, .. } | Filter::LessThanOrEqual { table, .. } | Filter::Is { table, .. }
            | Filter::IsNot { table, .. } | Filter::In { table, .. } | Filter::NotIn { table, .. }
            | Filter::InSubquery { table, .. } | Filter::NotInSubquery { table, .. } => table,
        }
    }

    /// The column of the filter.
    fn column_ref(&self) -> (r: &String)
        ensures
            r@ == filter_column(self@),
    {
        match self {
            Filter::Like { column, .. } | Filter::Equal { column, .. } | Filter::NotEqual { column, .. }
            | Filter::GreaterThan { column, .. } | Filter::GreaterThanOrEqual { column, .. }
            | Filter::LessThan { column, .. } | Filter::LessThanOrEqual { column, .. } | Filter::Is { column, .. }
            | Filter::IsNot { column, .. } | Filter::In { column, .. } | Filter::NotIn { column, .. }
            | Filter::InSubquery { column, .. } | Filter::NotInSubquery { column, .. } => column,
        }
    }

    /// The filter as JSON: an object tagged by `type`.
    pub fn to_json(&self) -> (r: JsonValue)
        ensures
            r@ == filter_json(self@),
        decreases self,
    {
        match self {
            Filter::Like { table, column, value } => value_filter_json(FilterOp::Like, table, column, value),
            Filter::Equal { table, column, value } => value_filter_json(FilterOp::Equal, table, column, value),
            Filter::NotEqual { table, column, value } => value_filter_json(FilterOp::NotEqual, table, column, value),
            Filter::GreaterThan { table, column, value } => value_filter_json(FilterOp::GreaterThan, table, column, value),
            Filter::GreaterThanOrEqual { table, column, value } => value_filter_json(FilterOp::GreaterThanOrEqual, table, column, value),
            Filter::LessThan { table, column, value } => value_filter_json(FilterOp::LessThan, table, column, value),
            Filter::LessThanOrEqual { table, column, value } => value_filter_json(FilterOp::LessThanOrEqual, table, column, value),
            Filter::Is { table, column, value } => value_filter_json(FilterOp::Is, table, column, value),
            Filter::IsNot { table, column, value } => value_filter_json(FilterOp::IsNot, table, column, value),
            Filter::In { table, column, value } => value_filter_json(FilterOp::In, table, column, value),
            Filter::NotIn { table, column, value } => value_filter_json(FilterOp::NotIn, table, column, value),
            Filter::InSubquery { table, column, subquery } => {
                let sub = subquery.to_json();
                let r = json_object(vec![
                    entry("column", json_str(column.as_str())),
                    entry("subquery", sub),
                    entry("table", json_str(table.as_str())),
                    entry("type", json_str("InSubquery")),
                ]);
                assert(r@ == filter_json(self@)) by {
                    if let Json::Obj(a) = r@ {
                        assert(a =~= seq![("column"@, Json::Str(column@)), ("subquery"@, select_json(subquery@)),
                            ("table"@, Json::Str(table@)), ("type"@, Json::Str("InSubquery"@))]);
                    }
                }
                r
            },
            Filter::NotInSubquery { table, column, subquery } => {
                let sub = subquery.to_json();
                let r = json_object(vec![
                    entry("column", json_str(column.as_str())),
                    entry("subquery", sub),
                    entry("table", json_str(table.as_str())),
                    entry("type", json_str("NotInSubquery")),
                ]);
                assert(r@ == filter_json(self@)) by {
                    if let Json::Obj(a) = r@ {
                        assert(a =~= seq![("column"@, Json::Str(column@)), ("subquery"@, select_json(subquery@)),
                            ("table"@, Json::Str(table@)), ("type"@, Json::Str("NotInSubquery"@))]);
                    }
                }
                r
            },
        }
    }
}

impl Select {
    /// The select as JSON: an object with its fields.
    pub fn to_json(&self) -> (r: JsonValue)
        ensures
            r@ == select_json(self@),
        decreases self,
    {
        let mut filters: Vec<JsonValue> = Vec::new();
        let mut i: usize = 0;
        while i < self.filters.len()
            invariant
                i <= self.filters.len(),
                filters@.len() == i,
                forall|j: int| 0 <= j < i ==> #[trigger] filters@[j]@ == filter_json(self.filters@[j]@),
            decreases self.filters.len() - i,
        {
            proof {
                assert(decreases_to!(self => self.filters@[i as int]));
            }
            filters.push(self.filters[i].to_json());
            i = i + 1;
        }
        let mut joins: Vec<JsonValue> = Vec::new();
        let mut i: usize = 0;
        while i < self.joins.len()
            invariant
                i <= self.joins.len(),
                joins@.len() == i,
                forall|j: int| 0 <= j < i ==> #[trigger] joins@[j]@ == join_json(self.joins@[j]@),
            decreases self.joins.len() - i,
        {
            joins.push(self.joins[i].to_json());
            i = i + 1;
        }
        let mut order_by: Vec<JsonValue> = Vec::new();
        let mut i: usize = 0;
        while i < self.order_by.len()
            invariant
                i <= self.order_by.len(),
                order_by@.len() == i,
                forall|j: int| 0 <= j < i ==> #[trigger] order_by@[j]@ == Json::Arr(seq![
                    Json::Str(self.order_by@[j].0@), Json::Str(order_text(self.order_by@[j].1))]),
            decreases self.order_by.len() - i,
        {
            let pair = json_list(vec![json_str(self.order_by[i].0.as_str()), JsonValue::String(order_to_text(self.order_by[i].1))]);
            assert(pair@ == Json::Arr(seq![Json::Str(self.order_by@[i as int].0@), Json::Str(order_text(self.order_by@[i as int].1))])) by {
                if let Json::Arr(a) = pair@ {
                    assert(a =~= seq![Json::Str(self.order_by@[i as int].0@), Json::Str(order_text(self.order_by@[i as int].1))]);
                }
            }
            order_by.push(pair);
            i = i + 1;
        }
        let mut select: Vec<JsonValue> = Vec::new();
        let mut i: usize = 0;
        while i < self.select.len()
            invariant
                i <= self.select.len(),
                select@.len() == i,
                forall|j: int| 0 <= j < i ==> #[trigger] select@[j]@ == field_json(self.select@[j]@),
            decreases self.select.len() - i,
        {
            select.push(self.select[i].to_json());
            i = i + 1;
        }
        let ghost (fv, jv, ov, sv) = (filters@, joins@, order_by@, select@);
        let fj = json_list(filters);
        let jj = json_list(joins);
        let oj = json_list(order_by);
        let sj = json_list(select);
        let ghost v = self@;
        assert(fj@ == Json::Arr(filters_json(v.filters))) by {
            if let Json::Arr(a) = fj@ {
                assert(a =~= filters_json(v.filters));
            }
        }
        assert(jj@ == Json::Arr(joins_json(v.joins))) by {
            if let Json::Arr(a) = jj@ {
                assert(a =~= joins_json(v.joins));
            }
        }
        assert(oj@ == Json::Arr(order_by_json(v.order_by))) by {
            if let Json::Arr(a) = oj@ {
                assert(a =~= order_by_json(v.order_by));
            }
        }
        assert(sj@ == Json::Arr(fields_json(v.select))) by {
            if let Json::Arr(a) = sj@ {
                assert(a =~= fields_json(v.select));
            }
        }
        let r = json_object(vec![
            entry("filters", fj),
            entry("joins", jj),
            entry("limit", json_u64(self.limit as u64)),
            entry("offset", json_u64(self.offset as u64)),
            entry("order_by", oj),
            entry("select", sj),
            entry("table_name", json_str(self.table_name.as_str())),
            entry("view_name", json_str(self.view_name.as_str())),
        ]);
        assert(r@ == select_json(self@)) by {
            if let Json::Obj(a) = r@ {
                if let Json::Obj(b) = select_json(self@) {
                    assert(a.len() == b.len());
                    assert(a[0] == b[0]);
                    assert(a[1] == b[1]);
                    assert(a[2] == b[2]);
                    assert(a[3] == b[3]);
                    assert(a[4] == b[4]);
                    assert(a[5] == b[5]);
                    assert(a[6] == b[6]);
                    assert(a[7] == b[7]);
                    assert(a =~= b);
                }
            }
        }
        r
    }
}


/// The operator name of a filter, as used in URLs.
pub open spec fn filter_operator(f: FilterView) -> Seq<char> {
    match f {
        FilterView::Value(op, _, _, _) => match op {
            FilterOp::Like => "like"@,
            FilterOp::Equal => "eq"@,
            FilterOp::NotEqual => "not_eq"@,
            FilterOp::GreaterThan => "gt"@,
            FilterOp::GreaterThanOrEqual => "gte"@,
            FilterOp::LessThan => "lt"@,
            FilterOp::LessThanOrEqual => "lte"@,
            FilterOp::Is => "is"@,
            FilterOp::IsNot => "is_not"@,
            FilterOp::In => "in"@,
            FilterOp::NotIn => "not_in"@,
        },
        FilterView::Subquery(n, _, _, _) => if n { "not_in"@ } else { "in"@ },
    }
}

/// The value of a filter: its value, or the JSON of its subquery.
pub open spec fn filter_value(f: FilterView) -> Json {
    match f {
        FilterView::Value(_, _, _, v) => v,
        FilterView::Subquery(_, _, _, s) => select_json(s),
    }
}

/// The table, column, operator and value of a filter.
pub open spec fn filter_parts(f: FilterView) -> (Seq<char>, Seq<char>, Seq<char>, Json) {
    (filter_table(f), filter_column(f), filter_operator(f), filter_value(f))
}

fn operator_text(f: &Filter) -> (r: String)
    ensures
        r@ == filter_operator(f@),
{
    match f {
        Filter::Like { .. } => owned("like"),
        Filter::Equal { .. } => owned("eq"),
        Filter::NotEqual { .. } => owned("not_eq"),
        Filter::GreaterThan { .. } => owned("gt"),
        Filter::GreaterThanOrEqual { .. } => owned("gte"),
        Filter::LessThan { .. } => owned("lt"),
        Filter::LessThanOrEqual { .. } => owned("lte"),
        Filter::Is { .. } => owned("is"),
        Filter::IsNot { .. } => owned("is_not"),
        Filter::In { .. } | Filter::InSubquery { .. } => owned("in"),
        Filter::NotIn { .. } | Filter::NotInSubquery { .. } => owned("not_in"),
    }
}

impl Filter {
    /// Set the table of the filter.
    pub fn set_table(&mut self, new_name: &str)
        ensures
            final(self)@ == with_table(old(self)@, new_name@),
    {
        match self {
            Filter::Like { table, .. } => *table = owned(new_name),
            Filter::Equal { table, .. } => *table = owned(new_name),
            Filter::NotEqual { table, .. } => *table = owned(new_name),
            Filter::GreaterThan { table, .. } => *table = owned(new_name),
            Filter::GreaterThanOrEqual { table, .. } => *table = owned(new_name),
            Filter::LessThan { table, .. } => *table = owned(new_name),
            Filter::LessThanOrEqual { table, .. } => *table = owned(new_name),
            Filter::Is { table, .. } => *table = owned(new_name),
            Filter::IsNot { table, .. } => *table = owned(new_name),
            Filter::In { table, .. } => *table = owned(new_name),
            Filter::NotIn { table, .. } => *table = owned(new_name),
            Filter::InSubquery { table, .. } => *table = owned(new_name),
            Filter::NotInSubquery { table, .. } => *table = owned(new_name),
        }
    }

    /// Set the column of the filter.
    pub fn set_column(&mut self, new_name: &str)
        ensures
            final(self)@ == with_column(old(self)@, new_name@),
    {
        match self {
            Filter::Like { column, .. } => *column = owned(new_name),
            Filter::Equal { column, .. } => *column = owned(new_name),
            Filter::NotEqual { column, .. } => *column = owned(new_name),
            Filter::GreaterThan { column, .. } => *column = owned(new_name),
            Filter::GreaterThanOrEqual { column, .. } => *column = owned(new_name),
            Filter::LessThan { column, .. } => *column = owned(new_name),
            Filter::LessThanOrEqual { column, .. } => *column = owned(new_name),
            Filter::Is { column, .. } => *column = owned(new_name),
            Filter::IsNot { column, .. } => *column = owned(new_name),
            Filter::In { column, .. } => *column = owned(new_name),
            Filter::NotIn { column, .. } => *column = owned(new_name),
            Filter::InSubquery { column, .. } => *column = owned(new_name),
            Filter::NotInSubquery { column, .. } => *column = owned(new_name),
        }
    }

    /// The table, column, operator and value of the filter; a subquery's value is its JSON.
    pub fn parts(&self) -> (r: (String, String, String, JsonValue))
        ensures
            (r.0@, r.1@, r.2@, r.3@) == filter_parts(self@),
    {
        let value = match self {
            Filter::Like { value, .. } | Filter::Equal { value, .. } | Filter::NotEqual { value, .. }
            | Filter::GreaterThan { value, .. } | Filter::GreaterThanOrEqual { value, .. }
            | Filter::LessThan { value, .. } | Filter::LessThanOrEqual { value, .. } | Filter::Is { value, .. }
            | Filter::IsNot { value, .. } | Filter::In { value, .. } | Filter::NotIn { value, .. } => value.clone(),
            Filter::InSubquery { subquery, .. } | Filter::NotInSubquery { subquery, .. } => subquery.to_json(),
        };
        (self.table_ref().clone(), self.column_ref().clone(), operator_text(self), value)
    }

    /// The table of the filter.
    pub fn get_table(&self) -> (r: String)
        ensures
            r@ == filter_table(self@),
    {
        self.table_ref().clone()
    }

    /// The column of the filter.
    pub fn get_column(&self) -> (r: String)
        ensures
            r@ == filter_column(self@),
    {
        self.column_ref().clone()
    }

    /// The operator of the filter.
    pub fn get_operator(&self) -> (r: String)
        ensures
            r@ == filter_operator(self@),
    {
        operator_text(self)
    }

    /// The value of the filter; a subquery's value is its JSON.
    pub fn get_value(&self) -> (r: JsonValue)
        ensures
            r@ == filter_value(self@),
    {
        self.parts().3
    }
}


// ---------------------------------------------------------------------------
// Lists of values as SQL
// ---------------------------------------------------------------------------

/// What `enquote::unquote` makes of a text: the text inside matching quotes (`"`, `'`
/// or a backquote) with its escapes decoded, or `None` where it reports an error.
pub uninterp spec fn unquote_spec(s: Seq<char>) -> Option<Seq<char>>;

/// `enquote::unquote`: the text without its quotes, escapes decoded; `None` on an error,
/// as for a text of fewer than two characters, one that does not start with a quote,
/// or one that does not end with the quote it starts with.
#[verifier::external_body]
fn unquote_text(s: &str) -> (r: Option<String>)
    ensures
        match r {
            Some(u) => unquote_spec(s@) == Some(u@),
            None => unquote_spec(s@) is None,
        },
        s@.len() < 2 ==> r is None,
        s@.len() >= 1 && s@[0] != '"' && s@[0] != '\'' && s@[0] != '`' ==> r is None,
        s@.len() >= 1 && s@.last() != s@[0] ==> r is None,
{
    enquote::unquote(s).ok()
}

/// True for a JSON number.
pub open spec fn is_number(j: Json) -> bool {
    j is Int || j is Float
}

/// A value as it is bound for a list: text unquoted where it is quoted, numbers as they are.
pub open spec fn rendered_value(j: Json) -> Json {
    match j {
        Json::Str(s) => Json::Str(match unquote_spec(s) {
            Some(u) => u,
            None => s,
        }),
        _ => j,
    }
}

/// The value at position `i` cannot be rendered: it is neither text nor a number, or it
/// is text while the first value is a number, or the other way round.
pub open spec fn bad_value(vs: Seq<Json>, i: int) -> bool {
    !(vs[i] is Str || is_number(vs[i])) || (i > 0 && ((vs[i] is Str) != (vs[0] is Str)))
}

/// The first position from `i` on whose value cannot be rendered.
pub open spec fn first_bad_from(vs: Seq<Json>, i: int) -> Option<int>
    decreases vs.len() - i,
{
    if i >= vs.len() || i < 0 {
        None
    } else if bad_value(vs, i) {
        Some(i)
    } else {
        first_bad_from(vs, i + 1)
    }
}

/// The message of the error that [render_values] reports.
pub open spec fn render_error_message(vs: Seq<Json>) -> Seq<char> {
    json_debug_spec(Json::Arr(vs)) + match first_bad_from(vs, 0) {
        Some(i) => if !(vs[i] is Str || is_number(vs[i])) {
            " is not an array of strings or numbers."@
        } else {
            " contains both text and numeric types."@
        },
        None => Seq::empty(),
    }
}

/// `(` + the placeholders separated by `, ` + `)`.
pub open spec fn placeholder_list(kind: DbKind, index: nat, amount: nat) -> Seq<char> {
    seq!['('] + seq_join(crate::sql::placeholders(kind, index, amount), ", "@) + seq![')']
}

proof fn lemma_first_bad(vs: Seq<Json>, k: int, i: int)
    requires
        0 <= k <= i < vs.len(),
        bad_value(vs, i),
        forall|j: int| 0 <= j < i ==> !bad_value(vs, j),
    ensures
        first_bad_from(vs, k) == Some(i),
    decreases i - k,
{
    if k < i {
        lemma_first_bad(vs, k + 1, i);
    }
}

/// With no bad value in the list, the search for one from any position finds none.
pub(crate) proof fn lemma_no_bad(vs: Seq<Json>, k: int)
    requires
        0 <= k <= vs.len(),
        forall|j: int| 0 <= j < vs.len() ==> !bad_value(vs, j),
    ensures
        first_bad_from(vs, k) is None,
    decreases vs.len() - k,
{
    if k < vs.len() {
        lemma_no_bad(vs, k + 1);
    }
}

/// The values as a parenthesized list of placeholders and the values to bind to them.
/// The values must all be text or all be numbers; text in quotes is unquoted. On an error
/// the counter has given a placeholder to each value before the first wrong one.
pub fn render_values(options: &Vec<JsonValue>, sql_param_gen: &mut SqlParam) -> (r: Result<(String, Vec<JsonValue>), crate::error::RelatableError>)
    requires
        old(sql_param_gen).kind == DbKind::PostgreSQL ==> old(sql_param_gen).index + options@.len() <= usize::MAX,
    ensures
        final(sql_param_gen).kind == old(sql_param_gen).kind,
        match r {
            Ok((text, values)) => first_bad_from(crate::json::json_views(options@), 0) is None
                && text@ == placeholder_list(old(sql_param_gen).kind, old(sql_param_gen).index as nat, options@.len())
                && crate::json::json_views(values@) == crate::json::json_views(options@).map_values(|j: Json| rendered_value(j))
                && final(sql_param_gen).index == advance(old(sql_param_gen).kind, old(sql_param_gen).index as nat, options@.len()),
            Err(e) => first_bad_from(crate::json::json_views(options@), 0) is Some && e is InputError
                && e.message_view() == render_error_message(crate::json::json_views(options@))
                && final(sql_param_gen).index == advance(old(sql_param_gen).kind, old(sql_param_gen).index as nat,
                    first_bad_from(crate::json::json_views(options@), 0)->0 as nat),
        },
{
    let ghost vs = crate::json::json_views(options@);
    let ghost kind = sql_param_gen.kind;
    let ghost start = sql_param_gen.index as nat;
    let mut sql_params: Vec<String> = Vec::new();
    let mut values: Vec<JsonValue> = Vec::new();
    let mut is_string_list = false;
    let mut i: usize = 0;
    while i < options.len()
        invariant
            vs == crate::json::json_views(options@),
            i <= options.len(),
            sql_param_gen.kind == kind,
            kind == old(sql_param_gen).kind,
            start == old(sql_param_gen).index,
            kind == DbKind::PostgreSQL ==> start + options@.len() <= usize::MAX,
            sql_param_gen.index == advance(kind, start, i as nat),
            views(sql_params@) == crate::sql::placeholders(kind, start, i as nat),
            values@.len() == i,
            forall|j: int| 0 <= j < i ==> #[trigger] values@[j]@ == rendered_value(vs[j]),
            forall|j: int| 0 <= j < i ==> !bad_value(vs, j),
            i > 0 ==> is_string_list == (vs[0] is Str),
        decreases options.len() - i,
    {
        let option = &options[i];
        assert(vs[i as int] == option@);
        let ok = match option {
            JsonValue::String(_) => i == 0 || is_string_list,
            JsonValue::Number(_) => i == 0 || !is_string_list,
            _ => false,
        };
        if !ok {
            proof {
                lemma_first_bad(vs, 0, i as int);
            }
            let mut m = json_debug_text(&crate::json::json_array(options));
            match option {
                JsonValue::String(_) | JsonValue::Number(_) => m.append(" contains both text and numeric types."),
                _ => m.append(" is not an array of strings or numbers."),
            }
            return Err(crate::error::RelatableError::InputError(m));
        }
        if i == 0 {
            is_string_list = match option {
                JsonValue::String(_) => true,
                _ => false,
            };
        }
        let ghost before = sql_params@;
        let p = sql_param_gen.next();
        sql_params.push(p);
        proof {
            crate::text::lemma_views_push(before, p);
            assert(crate::sql::placeholders(kind, start, (i + 1) as nat)
                =~= crate::sql::placeholders(kind, start, i as nat).push(placeholder(kind, (start + i + 1) as nat)));
        }
        match option {
            JsonValue::String(str_opt) => {
                let value = match unquote_text(str_opt.as_str()) {
                    Some(u) => u,
                    None => str_opt.clone(),
                };
                values.push(JsonValue::String(value));
            },
            _ => {
                values.push(option.clone());
            },
        }
        i = i + 1;
    }
    proof {
        lemma_no_bad(vs, 0);
    }
    let list = crate::text::join(&sql_params, ", ");
    let mut text = String::new();
    push_char(&mut text, '(');
    text.append(list.as_str());
    push_char(&mut text, ')');
    assert(crate::json::json_views(values@) =~= vs.map_values(|j: Json| rendered_value(j)));
    Ok((text, values))
}


// ---------------------------------------------------------------------------
// Filters and selects as SQL
// ---------------------------------------------------------------------------

/// What SQL generation gives: the SQL and its parameters, or the kind of error.
pub type SqlSpec = Result<(Seq<char>, Seq<Json>), crate::error::ErrorKind>;

/// The outcome of an SQL generator, as a [SqlSpec].
pub open spec fn sql_outcome(r: Result<(String, Vec<JsonValue>), crate::error::RelatableError>) -> SqlSpec {
    match r {
        Ok((sql, params)) => Ok((sql@, crate::json::json_views(params@))),
        Err(e) => Err(e.kind()),
    }
}

/// `"column"`, or `"table"."column"` when there is a table.
pub open spec fn lhs_sql(t: Seq<char>, c: Seq<char>) -> Seq<char> {
    if t.len() == 0 { seq!['"'] + c + seq!['"'] } else { qualified(t, c) }
}

/// The text that a LIKE filter compares with: the value as text, `*` replaced by `%`.
pub open spec fn like_text(v: Json) -> Seq<char> {
    crate::text::replace_spec(match v {
        Json::Bool(b) => crate::json::bool_text(b),
        Json::Int(_) => number_text(v),
        Json::Float(_) => number_text(v),
        Json::Str(t) => t,
        Json::Null => "NULL"@,
        _ => json_debug_spec(v),
    }, "*"@, "%"@)
}

/// The SQL operator of a filter on a single value.
pub open spec fn comparison_sql(op: FilterOp, kind: DbKind) -> Seq<char> {
    match op {
        FilterOp::Like => "LIKE"@,
        FilterOp::Equal => "="@,
        FilterOp::NotEqual => "<>"@,
        FilterOp::GreaterThan => ">"@,
        FilterOp::GreaterThanOrEqual => ">="@,
        FilterOp::LessThan => "<"@,
        FilterOp::LessThanOrEqual => "<="@,
        FilterOp::Is => is_clause_spec(kind),
        FilterOp::IsNot => is_not_clause_spec(kind),
        FilterOp::In => "IN"@,
        FilterOp::NotIn => "NOT IN"@,
    }
}

/// The number of placeholders a filter takes from the statement's generator.
pub open spec fn filter_width(f: FilterView) -> nat {
    match f {
        FilterView::Value(op, _, _, v) => if op == FilterOp::In || op == FilterOp::NotIn {
            match v {
                Json::Arr(vs) => vs.len(),
                _ => 0,
            }
        } else {
            1
        },
        FilterView::Subquery(_, _, _, _) => 0,
    }
}

/// The placeholders taken by the first `n` filters.
pub open spec fn filters_width(fs: Seq<FilterView>, n: nat) -> nat
    decreases n,
{
    if n == 0 || n > fs.len() { 0 } else { filters_width(fs, (n - 1) as nat) + filter_width(fs[n - 1]) }
}

/// True when the filter's column is `_change_id`.
pub open spec fn is_change_filter(f: FilterView) -> bool {
    filter_column(f) == "_change_id"@
}

/// The number of `_change_id` filters among the first `n`.
pub open spec fn change_count(fs: Seq<FilterView>, n: nat) -> nat
    decreases n,
{
    if n == 0 || n > fs.len() {
        0
    } else {
        change_count(fs, (n - 1) as nat) + if is_change_filter(fs[n - 1]) { 1nat } else { 0nat }
    }
}

/// The table a select reads: its view when it has one, else its table.
pub open spec fn target_of(s: SelectView) -> Seq<char> {
    if s.view_name.len() == 0 { s.table_name } else { s.view_name }
}

/// The subquery that finds the last change of a row.
pub open spec fn change_sql(target: Seq<char>, ph: Seq<char>) -> Seq<char> {
    "(SELECT MAX(change_id) FROM history\n                    WHERE \"table\" = "@ + ph
        + "\n                      AND \"row\" = \""@ + target + "\"._id\n                   ) AS _change_id"@
}

/// The lines that select the last change, one for each `_change_id` filter among the first `n`.
pub open spec fn change_lines(s: SelectView, kind: DbKind, n: nat) -> Seq<Seq<char>>
    decreases n,
{
    if n == 0 || n > s.filters.len() {
        Seq::empty()
    } else {
        let prev = change_lines(s, kind, (n - 1) as nat);
        if is_change_filter(s.filters[n - 1]) {
            prev.push((if s.select.len() == 0 { ", "@ } else { Seq::empty() })
                + change_sql(target_of(s), placeholder(kind, change_count(s.filters, (n - 1) as nat) + 1)))
        } else {
            prev
        }
    }
}

/// The parameters of the lines that select the last change: the table's name, once per line.
pub open spec fn change_params(s: SelectView) -> Seq<Json> {
    Seq::new(change_count(s.filters, s.filters.len()), |i: int| Json::Str(s.table_name))
}

/// A field's line in the SELECT clause, with a comma unless it equals the last field.
pub open spec fn field_line(s: SelectView, i: int) -> Seq<char> {
    "  "@ + field_sql(s.select[i]) + (if s.select[i] == s.select.last() { Seq::empty() } else { seq![','] })
}

/// The SELECT clause; an input error when a field's SQL is empty.
pub open spec fn header_lines(s: SelectView, kind: DbKind) -> Result<Seq<Seq<char>>, crate::error::ErrorKind> {
    let changes = change_lines(s, kind, s.filters.len());
    if s.select.len() == 0 {
        Ok(seq![if s.joins.len() > 0 { "SELECT \""@ + target_of(s) + "\".*,"@ } else { "SELECT *"@ }] + changes)
    } else if exists|i: int| 0 <= i < s.select.len() && #[trigger] field_sql(s.select[i]).len() == 0 {
        Err(crate::error::ErrorKind::Input)
    } else {
        Ok(seq!["SELECT"@] + changes + Seq::new(s.select.len(), |i: int| field_line(s, i)))
    }
}

/// The FROM clause and the joins.
pub open spec fn from_lines(s: SelectView) -> Seq<Seq<char>> {
    seq!["FROM \""@ + target_of(s) + seq!['"']] + s.joins.map_values(|j: JoinView| join_sql(j))
}

/// The table a filter is written against: the select's view instead of its table.
pub open spec fn effective_table(s: SelectView, f: FilterView) -> Seq<char> {
    if s.view_name.len() > 0 && filter_table(f) == s.table_name { s.view_name } else { filter_table(f) }
}

/// The ORDER BY, LIMIT and OFFSET lines.
pub open spec fn tail_lines(s: SelectView) -> Seq<Seq<char>> {
    (if s.order_by.len() == 0 && s.joins.len() == 0 {
        seq!["ORDER BY \""@ + target_of(s) + "\"._order ASC"@]
    } else {
        Seq::empty()
    }) + s.order_by.map_values(|p: (Seq<char>, Order)| "ORDER BY \""@ + p.0 + "\" "@ + order_text(p.1))
        + (if s.limit > 0 { seq!["LIMIT "@ + nat_text(s.limit)] } else { Seq::empty() })
        + (if s.offset > 0 { seq!["OFFSET "@ + nat_text(s.offset)] } else { Seq::empty() })
}

/// The SQL of a filter written against `table`, its placeholders numbered after `index`.
pub open spec fn filter_sql(f: FilterView, table: Seq<char>, kind: DbKind, index: nat) -> SqlSpec
    decreases f, 0int, 0int,
{
    match f {
        FilterView::Value(op, _, c, v) => {
            let lhs = lhs_sql(table, c);
            if op == FilterOp::In || op == FilterOp::NotIn {
                match v {
                    Json::Arr(vs) => if first_bad_from(vs, 0) is None {
                        Ok((lhs + (if op == FilterOp::In { " IN "@ } else { " NOT IN "@ }) + placeholder_list(kind, index, vs.len()),
                            vs.map_values(|j: Json| rendered_value(j))))
                    } else {
                        Err(crate::error::ErrorKind::Data)
                    },
                    _ => Err(crate::error::ErrorKind::Data),
                }
            } else if op == FilterOp::Like {
                Ok((lhs + " LIKE "@ + placeholder(kind, index + 1), seq![Json::Str(like_text(v))]))
            } else {
                Ok((lhs + seq![' '] + comparison_sql(op, kind) + seq![' '] + placeholder(kind, index + 1), seq![v]))
            }
        },
        FilterView::Subquery(n, _, c, sub) => match select_sql(sub, kind) {
            Ok((sql, params)) => Ok((lhs_sql(table, c) + (if n { " NOT IN (\n  "@ } else { " IN (\n  "@ })
                + crate::text::replace_spec(sql, "\n"@, "\n  "@) + "\n)"@, params)),
            Err(e) => Err(e),
        },
    }
}

/// The WHERE clause made from the first `n` filters, and their parameters.
pub open spec fn where_part(s: SelectView, kind: DbKind, n: nat) -> Result<(Seq<Seq<char>>, Seq<Json>), crate::error::ErrorKind>
    decreases s, 1int, n,
{
    if n == 0 || n > s.filters.len() {
        Ok((Seq::empty(), Seq::empty()))
    } else {
        match where_part(s, kind, (n - 1) as nat) {
            Err(e) => Err(e),
            Ok((lines, params)) => {
                let f = s.filters[n - 1];
                let index = advance(kind, 0, change_count(s.filters, s.filters.len()) + filters_width(s.filters, (n - 1) as nat));
                match filter_sql(f, effective_table(s, f), kind, index) {
                    Err(e) => Err(e),
                    Ok((sql, p)) => Ok((
                        lines.push((if n == 1 { "WHERE"@ } else { "  AND"@ }) + seq![' '] + sql),
                        params + p,
                    )),
                }
            },
        }
    }
}

/// The SQL of a select and its parameters, or the kind of error.
pub open spec fn select_sql(s: SelectView, kind: DbKind) -> SqlSpec
    decreases s, 2int, 0int,
{
    match header_lines(s, kind) {
        Err(e) => Err(e),
        Ok(head) => match where_part(s, kind, s.filters.len()) {
            Err(e) => Err(e),
            Ok((lines, params)) => Ok((
                seq_join(head + from_lines(s) + lines + tail_lines(s), "\n"@),
                change_params(s) + params,
            )),
        },
    }
}

/// True when the statement's placeholders can be numbered without overflow, and so
/// can those of its subqueries.
pub open spec fn select_fits(s: SelectView) -> bool
    decreases s, 1int,
{
    &&& change_count(s.filters, s.filters.len()) + filters_width(s.filters, s.filters.len()) <= usize::MAX
    &&& forall|i: int| 0 <= i < s.filters.len() ==> filter_fits(#[trigger] s.filters[i])
}

/// True when the filter's subquery, if it has one, fits.
pub open spec fn filter_fits(f: FilterView) -> bool
    decreases f, 0int,
{
    match f {
        FilterView::Subquery(_, _, _, sub) => select_fits(sub),
        _ => true,
    }
}


proof fn lemma_filters_width_mono(fs: Seq<FilterView>, i: nat, n: nat)
    requires
        i <= n <= fs.len(),
    ensures
        filters_width(fs, i) <= filters_width(fs, n),
    decreases n - i,
{
    if i < n {
        lemma_filters_width_mono(fs, i, (n - 1) as nat);
    }
}

proof fn lemma_change_count_mono(fs: Seq<FilterView>, i: nat, n: nat)
    requires
        i <= n <= fs.len(),
    ensures
        change_count(fs, i) <= change_count(fs, n),
    decreases n - i,
{
    if i < n {
        lemma_change_count_mono(fs, i, (n - 1) as nat);
    }
}

proof fn lemma_where_err_stays(s: SelectView, kind: DbKind, m: nat, n: nat)
    requires
        m <= n <= s.filters.len(),
        where_part(s, kind, m) is Err,
    ensures
        where_part(s, kind, n) is Err,
        where_part(s, kind, n) == where_part(s, kind, m),
    decreases n - m,
{
    if m < n {
        lemma_where_err_stays(s, kind, m, (n - 1) as nat);
    }
}

fn push_line(lines: &mut Vec<String>, line: String)
    ensures
        views(final(lines)@) == views(old(lines)@).push(line@),
{
    let ghost before = lines@;
    lines.push(line);
    proof {
        crate::text::lemma_views_push(before, line);
    }
}

fn lhs_text(t: &str, c: &str) -> (r: String)
    ensures
        r@ == lhs_sql(t@, c@),
{
    let mut s = String::new();
    if is_empty_str(t) {
        push_char(&mut s, '"');
        s.append(c);
        push_char(&mut s, '"');
        assert(s@ =~= lhs_sql(t@, c@));
    } else {
        push_qualified(&mut s, t, c);
        assert(s@ =~= lhs_sql(t@, c@));
    }
    s
}

fn like_value_text(v: &JsonValue) -> (r: String)
    ensures
        r@ == like_text(v@),
{
    let text = match v {
        JsonValue::Bool(b) => crate::json::bool_to_text(*b),
        JsonValue::Number(n) => number_to_text(n),
        JsonValue::String(t) => t.clone(),
        JsonValue::Null => owned("NULL"),
        _ => json_debug_text(v),
    };
    proof {
        reveal_strlit("*");
    }
    crate::text::replace_all(text.as_str(), "*", "%")
}

fn comparison_text(op: FilterOp, kind: &DbKind) -> (r: String)
    ensures
        r@ == comparison_sql(op, *kind),
{
    match op {
        FilterOp::Like => owned("LIKE"),
        FilterOp::Equal => owned("="),
        FilterOp::NotEqual => owned("<>"),
        FilterOp::GreaterThan => owned(">"),
        FilterOp::GreaterThanOrEqual => owned(">="),
        FilterOp::LessThan => owned("<"),
        FilterOp::LessThanOrEqual => owned("<="),
        FilterOp::Is => is_clause(kind),
        FilterOp::IsNot => is_not_clause(kind),
        FilterOp::In => owned("IN"),
        FilterOp::NotIn => owned("NOT IN"),
    }
}

fn change_sql_text(target: &str, ph: &str) -> (r: String)
    ensures
        r@ == change_sql(target@, ph@),
{
    let mut s = owned("(SELECT MAX(change_id) FROM history\n                    WHERE \"table\" = ");
    s.append(ph);
    s.append("\n                      AND \"row\" = \"");
    s.append(target);
    s.append("\"._id\n                   ) AS _change_id");
    s
}

/// True when the two fields are the same.
fn same_field(a: &SelectField, b: &SelectField) -> (r: bool)
    ensures
        r == (a@ == b@),
{
    match (a, b) {
        (SelectField::Column { table: t1, column: c1, alias: a1 }, SelectField::Column { table: t2, column: c2, alias: a2 }) =>
            str_eq(t1.as_str(), t2.as_str()) && str_eq(c1.as_str(), c2.as_str()) && str_eq(a1.as_str(), a2.as_str()),
        (SelectField::Expression { expression: e1, alias: a1 }, SelectField::Expression { expression: e2, alias: a2 }) =>
            str_eq(e1.as_str(), e2.as_str()) && str_eq(a1.as_str(), a2.as_str()),
        _ => false,
    }
}

impl Filter {
    /// The filter's SQL written against the given table, and its parameters.
    fn sql_for(&self, table: &str, sql_param: &mut SqlParam) -> (r: Result<(String, Vec<JsonValue>), crate::error::RelatableError>)
        requires
            old(sql_param).kind == DbKind::PostgreSQL ==> old(sql_param).index + filter_width(self@) <= usize::MAX
                && filter_fits(self@),
        ensures
            final(sql_param).kind == old(sql_param).kind,
            sql_outcome(r) == filter_sql(self@, table@, old(sql_param).kind, old(sql_param).index as nat),
            r is Ok ==> final(sql_param).index == advance(old(sql_param).kind, old(sql_param).index as nat, filter_width(self@)),
        decreases self, 0int,
    {
        let kind = sql_param.kind;
        match self {
            Filter::Like { column, value, .. } => {
                let mut s = lhs_text(table, column.as_str());
                s.append(" LIKE ");
                s.append(sql_param.next().as_str());
                let params = vec![JsonValue::String(like_value_text(value))];
                assert(crate::json::json_views(params@) =~= seq![Json::Str(like_text(value@))]);
                Ok((s, params))
            },
            Filter::Equal { column, value, .. } => Self::compare(FilterOp::Equal, table, column, value, sql_param),
            Filter::NotEqual { column, value, .. } => Self::compare(FilterOp::NotEqual, table, column, value, sql_param),
            Filter::GreaterThan { column, value, .. } => Self::compare(FilterOp::GreaterThan, table, column, value, sql_param),
            Filter::GreaterThanOrEqual { column, value, .. } => Self::compare(FilterOp::GreaterThanOrEqual, table, column, value, sql_param),
            Filter::LessThan { column, value, .. } => Self::compare(FilterOp::LessThan, table, column, value, sql_param),
            Filter::LessThanOrEqual { column, value, .. } => Self::compare(FilterOp::LessThanOrEqual, table, column, value, sql_param),
            Filter::Is { column, value, .. } => Self::compare(FilterOp::Is, table, column, value, sql_param),
            Filter::IsNot { column, value, .. } => Self::compare(FilterOp::IsNot, table, column, value, sql_param),
            Filter::In { column, value, .. } => Self::list(true, table, column, value, sql_param),
            Filter::NotIn { column, value, .. } => Self::list(false, table, column, value, sql_param),
            Filter::InSubquery { column, subquery, .. } => Self::subquery_sql(false, table, column, subquery, &kind),
            Filter::NotInSubquery { column, subquery, .. } => Self::subquery_sql(true, table, column, subquery, &kind),
        }
    }

    fn compare(op: FilterOp, table: &str, column: &String, value: &JsonValue, sql_param: &mut SqlParam) -> (r: Result<(String, Vec<JsonValue>), crate::error::RelatableError>)
        requires
            old(sql_param).kind == DbKind::PostgreSQL ==> old(sql_param).index < usize::MAX,
        ensures
            final(sql_param).kind == old(sql_param).kind,
            final(sql_param).index == advance(old(sql_param).kind, old(sql_param).index as nat, 1),
            sql_outcome(r) == Ok::<(Seq<char>, Seq<Json>), crate::error::ErrorKind>((lhs_sql(table@, column@) + seq![' ']
                + comparison_sql(op, old(sql_param).kind) + seq![' ']
                + placeholder(old(sql_param).kind, old(sql_param).index as nat + 1), seq![value@])),
    {
        let ghost kind = sql_param.kind;
        let ghost index = sql_param.index;
        let mut s = lhs_text(table, column.as_str());
        push_char(&mut s, ' ');
        let op_text = comparison_text(op, &sql_param.kind);
        s.append(op_text.as_str());
        push_char(&mut s, ' ');
        let p = sql_param.next();
        s.append(p.as_str());
        assert(s@ == lhs_sql(table@, column@) + seq![' '] + comparison_sql(op, kind) + seq![' '] + placeholder(kind, index as nat + 1));
        let params = vec![value.clone()];
        assert(crate::json::json_views(params@) =~= seq![value@]);
        Ok((s, params))
    }

    fn list(is_in: bool, table: &str, column: &String, value: &JsonValue, sql_param: &mut SqlParam) -> (r: Result<(String, Vec<JsonValue>), crate::error::RelatableError>)
        requires
            old(sql_param).kind == DbKind::PostgreSQL ==> old(sql_param).index + match value@ {
                Json::Arr(vs) => vs.len(),
                _ => 0,
            } <= usize::MAX,
        ensures
            final(sql_param).kind == old(sql_param).kind,
            sql_outcome(r) == filter_sql(FilterView::Value(if is_in { FilterOp::In } else { FilterOp::NotIn }, Seq::empty(), column@, value@),
                table@, old(sql_param).kind, old(sql_param).index as nat),
            r is Ok ==> final(sql_param).index == advance(old(sql_param).kind, old(sql_param).index as nat, match value@ {
                Json::Arr(vs) => vs.len(),
                _ => 0,
            }),
    {
        match value {
            JsonValue::Array(values) => {
                assert(value@ == Json::Arr(crate::json::json_views(values@))) by {
                    if let Json::Arr(a) = value@ {
                        assert(a =~= crate::json::json_views(values@));
                    }
                }
                match render_values(values, sql_param) {
                    Err(e) => {
                        let mut m = if is_in { owned("Error rendering 'in' filter: ") } else { owned("Error rendering 'not in' filter: ") };
                        m.append(e.message().as_str());
                        Err(crate::error::RelatableError::DataError(m))
                    },
                    Ok((rhs, values)) => {
                        let mut s = lhs_text(table, column.as_str());
                        s.append(if is_in { " IN " } else { " NOT IN " });
                        s.append(rhs.as_str());
                        Ok((s, values))
                    },
                }
            },
            _ => {
                let mut m = if is_in { owned("Invalid 'in' value: ") } else { owned("Invalid 'not in' value: ") };
                m.append(crate::json::json_to_text(value).as_str());
                Err(crate::error::RelatableError::DataError(m))
            },
        }
    }

    fn subquery_sql(negated: bool, table: &str, column: &String, subquery: &Select, kind: &DbKind) -> (r: Result<(String, Vec<JsonValue>), crate::error::RelatableError>)
        requires
            *kind == DbKind::PostgreSQL ==> select_fits(subquery@),
        ensures
            sql_outcome(r) == filter_sql(FilterView::Subquery(negated, Seq::empty(), column@, subquery@), table@, *kind, 0),
        decreases subquery, 2int,
    {
        match subquery.to_sql(kind) {
            Err(e) => Err(e),
            Ok((sql, params)) => {
                proof {
                    reveal_strlit("\n");
                }
                let sql = crate::text::replace_all(sql.as_str(), "\n", "\n  ");
                let mut s = lhs_text(table, column.as_str());
                s.append(if negated { " NOT IN (\n  " } else { " IN (\n  " });
                s.append(sql.as_str());
                s.append("\n)");
                Ok((s, params))
            },
        }
    }

    /// The filter as SQL, with its placeholders made by the given generator, and its parameters.
    /// A list filter whose value is not a list of all text or all numbers is a data error.
    pub fn to_sql(&self, sql_param: &mut SqlParam) -> (r: Result<(String, Vec<JsonValue>), crate::error::RelatableError>)
        requires
            old(sql_param).kind == DbKind::PostgreSQL ==> old(sql_param).index + filter_width(self@) <= usize::MAX
                && filter_fits(self@),
        ensures
            final(sql_param).kind == old(sql_param).kind,
            sql_outcome(r) == filter_sql(self@, filter_table(self@), old(sql_param).kind, old(sql_param).index as nat),
            r is Ok ==> final(sql_param).index == advance(old(sql_param).kind, old(sql_param).index as nat, filter_width(self@)),
    {
        let table = self.table_ref();
        self.sql_for(table.as_str(), sql_param)
    }
}


impl Select {
    /// The target of the select: its view when it has one, else its table.
    fn target(&self) -> (r: &String)
        ensures
            r@ == target_of(self@),
    {
        if is_empty_str(self.view_name.as_str()) {
            &self.table_name
        } else {
            &self.view_name
        }
    }

    /// Appends the SELECT clause: the lines that select the last change, one for each
    /// `_change_id` filter, and the fields; an input error when a field's SQL is empty.
    fn push_head(&self, kind: &DbKind, gen: &mut SqlParam, lines: &mut Vec<String>, params: &mut Vec<JsonValue>) -> (r: Result<(), crate::error::RelatableError>)
        requires
            old(gen).kind == *kind,
            old(gen).index == 0,
            old(lines)@.len() == 0,
            old(params)@.len() == 0,
            *kind == DbKind::PostgreSQL ==> select_fits(self@),
        ensures
            final(gen).kind == *kind,
            final(gen).index == advance(*kind, 0, change_count(self@.filters, self@.filters.len())),
            match r {
                Ok(()) => header_lines(self@, *kind) is Ok && views(final(lines)@) == header_lines(self@, *kind)->Ok_0
                    && crate::json::json_views(final(params)@) == change_params(self@),
                Err(e) => header_lines(self@, *kind) is Err && header_lines(self@, *kind) == Err::<Seq<Seq<char>>, crate::error::ErrorKind>(e.kind()),
            },
    {
        let ghost s = self@;
        let ghost n = s.filters.len();
        let target = self.target();
        let no_fields = self.select.len() == 0;
        if no_fields {
            if self.joins.len() > 0 {
                let mut line = owned("SELECT \"");
                line.append(target.as_str());
                line.append("\".*,");
                push_line(lines, line);
            } else {
                push_line(lines, owned("SELECT *"));
            }
        } else {
            push_line(lines, owned("SELECT"));
        }
        let ghost head0 = views(lines@);
        proof {
            if *kind == DbKind::PostgreSQL {
                lemma_change_count_mono(s.filters, 0, n);
            }
        }
        let mut i: usize = 0;
        while i < self.filters.len()
            invariant
                s == self@,
                n == s.filters.len(),
                i <= n,
                target@ == target_of(s),
                no_fields == (s.select.len() == 0),
                views(lines@) == head0 + change_lines(s, *kind, i as nat),
                crate::json::json_views(params@) == Seq::new(change_count(s.filters, i as nat), |k: int| Json::Str(s.table_name)),
                gen.kind == *kind,
                gen.index == advance(*kind, 0, change_count(s.filters, i as nat)),
                *kind == DbKind::PostgreSQL ==> select_fits(s),
            decreases n - i,
        {
            proof {
                if *kind == DbKind::PostgreSQL {
                    lemma_change_count_mono(s.filters, (i + 1) as nat, n);
                    lemma_filters_width_mono(s.filters, 0, n);
                }
            }
            assert(s.filters[i as int] == self.filters@[i as int]@);
            if str_eq(self.filters[i].column_ref().as_str(), "_change_id") {
                let p = gen.next();
                let mut line = if no_fields { owned(", ") } else { String::new() };
                line.append(change_sql_text(target.as_str(), p.as_str()).as_str());
                push_line(lines, line);
                let ghost before = params@;
                params.push(json_str(self.table_name.as_str()));
                assert(crate::json::json_views(params@) =~= crate::json::json_views(before).push(Json::Str(s.table_name)));
                assert(crate::json::json_views(params@) =~= Seq::new(change_count(s.filters, (i + 1) as nat), |k: int| Json::Str(s.table_name)));
                assert(views(lines@) =~= head0 + change_lines(s, *kind, (i + 1) as nat));
            } else {
                assert(crate::json::json_views(params@) =~= Seq::new(change_count(s.filters, (i + 1) as nat), |k: int| Json::Str(s.table_name)));
            }
            i = i + 1;
        }
        assert(crate::json::json_views(params@) == change_params(s));
        if !no_fields {
            let last = &self.select[self.select.len() - 1];
            let ghost head1 = views(lines@);
            let mut j: usize = 0;
            while j < self.select.len()
                invariant
                    s == self@,
                    n == s.filters.len(),
                    gen.kind == *kind,
                    gen.index == advance(*kind, 0, change_count(s.filters, n)),
                    j <= s.select.len(),
                    s.select.len() > 0,
                    last@ == s.select.last(),
                    views(lines@) == head1 + Seq::new(j as nat, |k: int| field_line(s, k)),
                    forall|k: int| 0 <= k < j ==> #[trigger] field_sql(s.select[k]).len() > 0,
                decreases s.select.len() - j,
            {
                assert(s.select[j as int] == self.select@[j as int]@);
                let f = self.select[j].to_sql();
                if is_empty_str(f.as_str()) {
                    assert(field_sql(s.select[j as int]).len() == 0);
                    return Err(crate::error::RelatableError::InputError(owned("Empty field name")));
                }
                let mut line = owned("  ");
                line.append(f.as_str());
                if !same_field(&self.select[j], last) {
                    push_char(&mut line, ',');
                }
                assert(line@ =~= field_line(s, j as int));
                push_line(lines, line);
                j = j + 1;
                assert(views(lines@) =~= head1 + Seq::new(j as nat, |k: int| field_line(s, k)));
            }
        }
        assert(views(lines@) =~= header_lines(s, *kind)->Ok_0);
        Ok(())
    }

    /// Appends the WHERE clause, one line for each filter, and the filters' parameters.
    fn push_where(&self, kind: &DbKind, gen: &mut SqlParam, lines: &mut Vec<String>, params: &mut Vec<JsonValue>) -> (r: Result<(), crate::error::RelatableError>)
        requires
            old(gen).kind == *kind,
            old(gen).index == advance(*kind, 0, change_count(self@.filters, self@.filters.len())),
            *kind == DbKind::PostgreSQL ==> select_fits(self@),
        ensures
            match r {
                Ok(()) => where_part(self@, *kind, self@.filters.len()) is Ok
                    && views(final(lines)@) == views(old(lines)@) + where_part(self@, *kind, self@.filters.len())->Ok_0.0
                    && crate::json::json_views(final(params)@) == crate::json::json_views(old(params)@)
                        + where_part(self@, *kind, self@.filters.len())->Ok_0.1,
                Err(e) => where_part(self@, *kind, self@.filters.len()) == Err::<(Seq<Seq<char>>, Seq<Json>), crate::error::ErrorKind>(e.kind()),
            },
        decreases self, 0int,
    {
        let ghost s = self@;
        let ghost n = s.filters.len();
        let ghost cc = change_count(s.filters, n);
        let ghost pre_lines = views(lines@);
        let ghost pre_params = crate::json::json_views(params@);
        let mut i: usize = 0;
        while i < self.filters.len()
            invariant
                s == self@,
                n == s.filters.len(),
                i <= n,
                cc == change_count(s.filters, n),
                where_part(s, *kind, i as nat) is Ok,
                views(lines@) == pre_lines + where_part(s, *kind, i as nat)->Ok_0.0,
                crate::json::json_views(params@) == pre_params + where_part(s, *kind, i as nat)->Ok_0.1,
                gen.kind == *kind,
                gen.index == advance(*kind, 0, cc + filters_width(s.filters, i as nat)),
                *kind == DbKind::PostgreSQL ==> select_fits(s),
            decreases n - i,
        {
            let f = &self.filters[i];
            assert(s.filters[i as int] == f@);
            let table = f.table_ref();
            let eff: &str = if !is_empty_str(self.view_name.as_str()) && str_eq(table.as_str(), self.table_name.as_str()) {
                self.view_name.as_str()
            } else {
                table.as_str()
            };
            assert(eff@ == effective_table(s, f@));
            proof {
                assert(decreases_to!(self => self.filters@[i as int]));
                if *kind == DbKind::PostgreSQL {
                    lemma_filters_width_mono(s.filters, (i + 1) as nat, n);
                    assert(filter_fits(s.filters[i as int]));
                }
            }
            let ghost index = gen.index;
            match f.sql_for(eff, gen) {
                Err(e) => {
                    assert(where_part(s, *kind, (i + 1) as nat) == Err::<(Seq<Seq<char>>, Seq<Json>), crate::error::ErrorKind>(e.kind()));
                    proof {
                        lemma_where_err_stays(s, *kind, (i + 1) as nat, n);
                    }
                    return Err(e);
                },
                Ok((sql, p)) => {
                    let ghost wp = where_part(s, *kind, i as nat)->Ok_0;
                    assert(filter_sql(f@, eff@, *kind, index as nat) == Ok::<(Seq<char>, Seq<Json>), crate::error::ErrorKind>((sql@, crate::json::json_views(p@))));
                    let mut line = if i == 0 { owned("WHERE") } else { owned("  AND") };
                    push_char(&mut line, ' ');
                    line.append(sql.as_str());
                    let ghost lines_before = views(lines@);
                    push_line(lines, line);
                    let ghost before = params@;
                    let mut p = p;
                    let ghost pv = crate::json::json_views(p@);
                    params.append(&mut p);
                    assert(crate::json::json_views(params@) =~= crate::json::json_views(before) + pv);
                    assert(line@ == (if i == 0 { "WHERE"@ } else { "  AND"@ }) + seq![' '] + sql@);
                    assert(where_part(s, *kind, (i + 1) as nat) == Ok::<(Seq<Seq<char>>, Seq<Json>), crate::error::ErrorKind>((wp.0.push(line@), wp.1 + pv)));
                    assert(views(lines@) =~= pre_lines + where_part(s, *kind, (i + 1) as nat)->Ok_0.0);
                    assert(crate::json::json_views(params@) =~= pre_params + where_part(s, *kind, (i + 1) as nat)->Ok_0.1);
                },
            }
            i = i + 1;
        }
        Ok(())
    }

    /// Appends the ORDER BY, LIMIT and OFFSET lines.
    fn push_tail(&self, lines: &mut Vec<String>)
        ensures
            views(final(lines)@) == views(old(lines)@) + tail_lines(self@),
    {
        let ghost s = self@;
        let ghost pre = views(lines@);
        let target = self.target();
        if self.order_by.len() == 0 && self.joins.len() == 0 {
            let mut line = owned("ORDER BY \"");
            line.append(target.as_str());
            line.append("\"._order ASC");
            push_line(lines, line);
        }
        let ghost pre_order = views(lines@);
        let mut j: usize = 0;
        while j < self.order_by.len()
            invariant
                s == self@,
                j <= s.order_by.len(),
                views(lines@) == pre_order + s.order_by.take(j as int).map_values(
                    |p: (Seq<char>, Order)| "ORDER BY \""@ + p.0 + "\" "@ + order_text(p.1)),
            decreases s.order_by.len() - j,
        {
            assert(s.order_by[j as int] == (self.order_by@[j as int].0@, self.order_by@[j as int].1));
            let mut line = owned("ORDER BY \"");
            line.append(self.order_by[j].0.as_str());
            line.append("\" ");
            line.append(order_to_text(self.order_by[j].1).as_str());
            push_line(lines, line);
            j = j + 1;
            assert(views(lines@) =~= pre_order + s.order_by.take(j as int).map_values(
                |p: (Seq<char>, Order)| "ORDER BY \""@ + p.0 + "\" "@ + order_text(p.1)));
        }
        assert(s.order_by.take(j as int) =~= s.order_by);
        if self.limit > 0 {
            let mut line = owned("LIMIT ");
            push_u64(&mut line, self.limit as u64);
            push_line(lines, line);
        }
        if self.offset > 0 {
            let mut line = owned("OFFSET ");
            push_u64(&mut line, self.offset as u64);
            push_line(lines, line);
        }
        assert(views(lines@) =~= pre + tail_lines(s));
    }

    /// The SQL of the select for the given kind of database, and the parameters to bind to it.
    /// A field whose SQL is empty is an input error; errors of filters are passed on.
    pub fn to_sql(&self, kind: &DbKind) -> (r: Result<(String, Vec<JsonValue>), crate::error::RelatableError>)
        requires
            *kind == DbKind::PostgreSQL ==> select_fits(self@),
        ensures
            sql_outcome(r) == select_sql(self@, *kind),
        decreases self, 1int,
    {
        let ghost s = self@;
        let mut gen = SqlParam::new(kind);
        let mut lines: Vec<String> = Vec::new();
        let mut params: Vec<JsonValue> = Vec::new();
        if let Err(e) = self.push_head(kind, &mut gen, &mut lines, &mut params) {
            return Err(e);
        }
        let ghost head = views(lines@);
        assert(head == header_lines(s, *kind)->Ok_0);
        let target = self.target();
        let mut from = owned("FROM \"");
        from.append(target.as_str());
        push_char(&mut from, '"');
        assert(from@ == "FROM \""@ + target_of(s) + seq!['"']);
        push_line(&mut lines, from);
        let ghost head2 = views(lines@);
        let mut j: usize = 0;
        while j < self.joins.len()
            invariant
                s == self@,
                j <= s.joins.len(),
                views(lines@) == head2 + s.joins.take(j as int).map_values(|jv: JoinView| join_sql(jv)),
            decreases s.joins.len() - j,
        {
            assert(s.joins[j as int] == self.joins@[j as int]@);
            push_line(&mut lines, self.joins[j].to_sql());
            j = j + 1;
            assert(views(lines@) =~= head2 + s.joins.take(j as int).map_values(|jv: JoinView| join_sql(jv)));
        }
        assert(s.joins.take(j as int) =~= s.joins);
        assert(views(lines@) =~= header_lines(s, *kind)->Ok_0 + from_lines(s));
        if let Err(e) = self.push_where(kind, &mut gen, &mut lines, &mut params) {
            return Err(e);
        }
        self.push_tail(&mut lines);
        let sql = crate::text::join(&lines, "\n");
        assert(views(lines@) =~= header_lines(s, *kind)->Ok_0 + from_lines(s) + where_part(s, *kind, s.filters.len())->Ok_0.0 + tail_lines(s));
        Ok((sql, params))
    }
}


// ---------------------------------------------------------------------------
// Counting the rows of a select
// ---------------------------------------------------------------------------

/// The pieces of a text between occurrences of `c`, as `str::split` gives them.
pub open spec fn split_on(t: Seq<char>, c: char) -> Seq<Seq<char>>
    decreases t.len(),
{
    if t.len() == 0 {
        seq![Seq::empty()]
    } else {
        let rest = split_on(t.drop_last(), c);
        if t.last() == c {
            rest.push(Seq::empty())
        } else {
            rest.update(rest.len() - 1, rest.last().push(t.last()))
        }
    }
}

proof fn lemma_split_on_nonempty(t: Seq<char>, c: char)
    ensures
        split_on(t, c).len() >= 1,
    decreases t.len(),
{
    if t.len() > 0 {
        lemma_split_on_nonempty(t.drop_last(), c);
    }
}

/// True for a line that a count keeps: one that does not start with `ORDER BY`, `LIMIT` or `OFFSET`.
pub open spec fn count_kept(l: Seq<char>) -> bool {
    !"ORDER BY"@.is_prefix_of(l) && !"LIMIT"@.is_prefix_of(l) && !"OFFSET"@.is_prefix_of(l)
}

/// The SQL of a filter in a count, written against `table`: a subquery without its
/// ORDER BY, LIMIT and OFFSET lines; other filters as in a select, numbered from the start.
pub open spec fn filter_sql_count(f: FilterView, table: Seq<char>, kind: DbKind) -> SqlSpec {
    match f {
        FilterView::Subquery(false, _, c, sub) => if c.len() == 0 {
            Err(crate::error::ErrorKind::Input)
        } else {
            match select_sql(sub, kind) {
                Ok((sql, params)) => Ok((lhs_sql(table, c) + " IN (\n  "@
                    + seq_join(crate::column::keep(split_on(sql, '\n'), |l: Seq<char>| count_kept(l)), "\n  "@) + "\n)"@, params)),
                Err(e) => Err(e),
            }
        },
        _ => filter_sql(f, table, kind, 0),
    }
}

/// The WHERE clause of a count made from the first `n` filters, and their parameters.
pub open spec fn count_where(s: SelectView, kind: DbKind, n: nat) -> Result<(Seq<Seq<char>>, Seq<Json>), crate::error::ErrorKind>
    decreases n,
{
    if n == 0 || n > s.filters.len() {
        Ok((Seq::empty(), Seq::empty()))
    } else {
        match count_where(s, kind, (n - 1) as nat) {
            Err(e) => Err(e),
            Ok((lines, params)) => {
                let f = s.filters[n - 1];
                match filter_sql_count(f, effective_table(s, f), kind) {
                    Err(e) => Err(e),
                    Ok((sql, p)) => Ok((
                        lines.push((if n == 1 { "WHERE"@ } else { "  AND"@ }) + seq![' '] + sql),
                        params + p,
                    )),
                }
            },
        }
    }
}

/// For SQLite, a count has the same WHERE clause and parameters as the select it counts,
/// when none of the select's filters is a subquery: it counts the rows that the select
/// finds.
pub proof fn lemma_count_matches_select(s: SelectView, n: nat)
    requires
        forall|i: int| 0 <= i < s.filters.len() ==> #[trigger] s.filters[i] is Value,
    ensures
        count_where(s, DbKind::SQLite, n) == where_part(s, DbKind::SQLite, n),
    decreases n,
{
    if n > 0 && n <= s.filters.len() {
        lemma_count_matches_select(s, (n - 1) as nat);
        assert(s.filters[n - 1] is Value);
    }
}

/// Line `i` of a WHERE clause joins filter `i` to those before it by AND: the first
/// filter's SQL follows `WHERE `, each later one's follows `  AND `.
pub open spec fn and_line(lines: Seq<Seq<char>>, i: int, sql: SqlSpec) -> bool {
    &&& sql is Ok
    &&& lines[i] == (if i == 0 { "WHERE "@ } else { "  AND "@ }) + sql->Ok_0.0
}

/// The SQL of filter `i` of a select, its placeholders numbered after the `_change_id`
/// ones and those of the filters before it.
pub open spec fn nth_filter_sql(s: SelectView, kind: DbKind, i: int) -> SqlSpec {
    let f = s.filters[i];
    filter_sql(f, effective_table(s, f), kind,
        advance(kind, 0, change_count(s.filters, s.filters.len()) + filters_width(s.filters, i as nat)))
}

/// The WHERE clause of a select keeps only the rows that meet every filter: it has one
/// line per filter, the first filter's SQL after `WHERE ` and each later one's after
/// `  AND `.
pub proof fn lemma_where_conjoins_filters(s: SelectView, kind: DbKind, n: nat)
    requires
        n <= s.filters.len(),
        where_part(s, kind, n) is Ok,
    ensures
        where_part(s, kind, n)->Ok_0.0.len() == n,
        forall|i: int| 0 <= i < n ==> #[trigger] and_line(where_part(s, kind, n)->Ok_0.0, i, nth_filter_sql(s, kind, i)),
    decreases n,
{
    reveal_strlit("WHERE");
    reveal_strlit("WHERE ");
    reveal_strlit("  AND");
    reveal_strlit("  AND ");
    if n > 0 {
        let m = (n - 1) as nat;
        if where_part(s, kind, m) is Err {
            assert(where_part(s, kind, n) is Err);
        }
        lemma_where_conjoins_filters(s, kind, m);
        assert("WHERE"@ + seq![' '] =~= "WHERE "@);
        assert("  AND"@ + seq![' '] =~= "  AND "@);
        let prev = where_part(s, kind, m)->Ok_0.0;
        let lines = where_part(s, kind, n)->Ok_0.0;
        let sql = nth_filter_sql(s, kind, m as int);
        assert(sql is Ok);
        assert(lines == prev.push((if n == 1 { "WHERE"@ } else { "  AND"@ }) + seq![' '] + sql->Ok_0.0));
        assert forall|i: int| 0 <= i < n implies #[trigger] and_line(lines, i, nth_filter_sql(s, kind, i)) by {
            if i < m {
                assert(and_line(prev, i, nth_filter_sql(s, kind, i)));
                assert(lines[i] == prev[i]);
            } else {
                assert((if n == 1 { "WHERE"@ } else { "  AND"@ }) + seq![' '] + sql->Ok_0.0
                    =~= (if i == 0 { "WHERE "@ } else { "  AND "@ }) + sql->Ok_0.0);
            }
        }
    }
}

/// The SQL of filter `i` in a statement that counts the rows of a select.
pub open spec fn nth_count_filter_sql(s: SelectView, kind: DbKind, i: int) -> SqlSpec {
    let f = s.filters[i];
    filter_sql_count(f, effective_table(s, f), kind)
}

/// The WHERE clause of a count keeps only the rows that meet every filter: one line per
/// filter, the first filter's SQL after `WHERE ` and each later one's after `  AND `.
pub proof fn lemma_count_where_conjoins_filters(s: SelectView, kind: DbKind, n: nat)
    requires
        n <= s.filters.len(),
        count_where(s, kind, n) is Ok,
    ensures
        count_where(s, kind, n)->Ok_0.0.len() == n,
        forall|i: int| 0 <= i < n ==> #[trigger] and_line(count_where(s, kind, n)->Ok_0.0, i, nth_count_filter_sql(s, kind, i)),
    decreases n,
{
    reveal_strlit("WHERE");
    reveal_strlit("WHERE ");
    reveal_strlit("  AND");
    reveal_strlit("  AND ");
    if n > 0 {
        let m = (n - 1) as nat;
        if count_where(s, kind, m) is Err {
            assert(count_where(s, kind, n) is Err);
        }
        lemma_count_where_conjoins_filters(s, kind, m);
        assert("WHERE"@ + seq![' '] =~= "WHERE "@);
        assert("  AND"@ + seq![' '] =~= "  AND "@);
        let prev = count_where(s, kind, m)->Ok_0.0;
        let lines = count_where(s, kind, n)->Ok_0.0;
        let sql = nth_count_filter_sql(s, kind, m as int);
        assert(sql is Ok);
        assert(lines == prev.push((if n == 1 { "WHERE"@ } else { "  AND"@ }) + seq![' '] + sql->Ok_0.0));
        assert forall|i: int| 0 <= i < n implies #[trigger] and_line(lines, i, nth_count_filter_sql(s, kind, i)) by {
            if i < m {
                assert(and_line(prev, i, nth_count_filter_sql(s, kind, i)));
                assert(lines[i] == prev[i]);
            } else {
                assert((if n == 1 { "WHERE"@ } else { "  AND"@ }) + seq![' '] + sql->Ok_0.0
                    =~= (if i == 0 { "WHERE "@ } else { "  AND "@ }) + sql->Ok_0.0);
            }
        }
    }
}

/// The SQL that counts the rows of a select, and its parameters.
pub open spec fn select_sql_count(s: SelectView, kind: DbKind) -> SqlSpec {
    match count_where(s, kind, s.filters.len()) {
        Err(e) => Err(e),
        Ok((lines, params)) => Ok((
            seq_join(seq!["SELECT COUNT(1) AS \"count\""@] + from_lines(s) + lines, "\n"@),
            params,
        )),
    }
}

proof fn lemma_count_where_err_stays(s: SelectView, kind: DbKind, m: nat, n: nat)
    requires
        m <= n <= s.filters.len(),
        count_where(s, kind, m) is Err,
    ensures
        count_where(s, kind, n) == count_where(s, kind, m),
    decreases n - m,
{
    if m < n {
        lemma_count_where_err_stays(s, kind, m, (n - 1) as nat);
    }
}

proof fn lemma_width_le_total(fs: Seq<FilterView>, i: nat)
    requires
        i < fs.len(),
    ensures
        filter_width(fs[i as int]) <= filters_width(fs, fs.len()),
{
    lemma_filters_width_mono(fs, i + 1, fs.len());
}

/// The pieces of a text between occurrences of a character.
fn split_at_char(t: &str, sep: char) -> (r: Vec<String>)
    ensures
        views(r@) == split_on(t@, sep),
{
    let chars = crate::text::chars_of(t);
    let mut out: Vec<String> = Vec::new();
    let mut cur = String::new();
    let mut i: usize = 0;
    assert(chars@.take(0) =~= Seq::<char>::empty());
    while i < chars.len()
        invariant
            chars@ == t@,
            i <= chars.len(),
            views(out@).push(cur@) == split_on(chars@.take(i as int), sep),
        decreases chars.len() - i,
    {
        let c = chars[i];
        assert(chars@.take(i + 1).drop_last() =~= chars@.take(i as int));
        if c == sep {
            let ghost before = out@;
            out.push(cur);
            proof {
                crate::text::lemma_views_push(before, cur);
            }
            cur = String::new();
        } else {
            let ghost old_cur = cur@;
            push_char(&mut cur, c);
            assert(views(out@).push(cur@) =~= views(out@).push(old_cur).update(views(out@).len() as int, old_cur.push(c)));
        }
        i = i + 1;
    }
    assert(chars@.take(i as int) =~= chars@);
    let ghost before = out@;
    out.push(cur);
    proof {
        crate::text::lemma_views_push(before, cur);
    }
    out
}

/// True when the line starts with `ORDER BY`, `LIMIT` or `OFFSET`.
fn is_count_kept(l: &str) -> (r: bool)
    ensures
        r == count_kept(l@),
{
    !crate::text::starts_with(l, "ORDER BY") && !crate::text::starts_with(l, "LIMIT")
        && !crate::text::starts_with(l, "OFFSET")
}

impl Filter {
    /// The filter's SQL in a count, written against the given table.
    fn count_for(&self, table: &str, kind: &DbKind) -> (r: Result<(String, Vec<JsonValue>), crate::error::RelatableError>)
        requires
            *kind == DbKind::PostgreSQL ==> filter_width(self@) <= usize::MAX && filter_fits(self@),
        ensures
            sql_outcome(r) == filter_sql_count(self@, table@, *kind),
    {
        match self {
            Filter::InSubquery { column, subquery, .. } => {
                if is_empty_str(column.as_str()) {
                    return Err(crate::error::RelatableError::InputError(owned("Empty column name")));
                }
                let lhs = lhs_text(table, column.as_str());
                match subquery.to_sql(kind) {
                    Err(e) => Err(e),
                    Ok((sql, params)) => {
                        let pieces = split_at_char(sql.as_str(), '\n');
                        let ghost pv = views(pieces@);
                        let ghost p = |l: Seq<char>| count_kept(l);
                        let mut kept: Vec<String> = Vec::new();
                        let mut i: usize = 0;
                        while i < pieces.len()
                            invariant
                                pv == views(pieces@),
                                i <= pieces.len(),
                                views(kept@) == crate::column::keep(pv.take(i as int), p),
                                p == (|l: Seq<char>| count_kept(l)),
                            decreases pieces.len() - i,
                        {
                            assert(pv.take(i + 1).drop_last() =~= pv.take(i as int));
                            assert(pv[i as int] == pieces@[i as int]@);
                            if is_count_kept(pieces[i].as_str()) {
                                let ghost before = kept@;
                                let l = pieces[i].clone();
                                kept.push(l);
                                proof {
                                    crate::text::lemma_views_push(before, l);
                                }
                            }
                            i = i + 1;
                        }
                        assert(pv.take(i as int) =~= pv);
                        let body = crate::text::join(&kept, "\n  ");
                        let mut s = lhs;
                        s.append(" IN (\n  ");
                        s.append(body.as_str());
                        s.append("\n)");
                        Ok((s, params))
                    },
                }
            },
            _ => {
                let mut gen = SqlParam::new(kind);
                self.sql_for(table, &mut gen)
            },
        }
    }

    /// The filter as SQL in a statement that counts rows: a subquery without its ORDER BY,
    /// LIMIT and OFFSET lines, other filters with their own placeholders from the first.
    /// Every filter but an IN subquery comes out as [Filter::to_sql] writes it with a fresh
    /// placeholder counter.
    pub fn to_sql_count(&self, kind: &DbKind) -> (r: Result<(String, Vec<JsonValue>), crate::error::RelatableError>)
        requires
            *kind == DbKind::PostgreSQL ==> filter_width(self@) <= usize::MAX && filter_fits(self@),
        ensures
            sql_outcome(r) == filter_sql_count(self@, filter_table(self@), *kind),
            !(self@ matches FilterView::Subquery(false, _, _, _))
                ==> sql_outcome(r) == filter_sql(self@, filter_table(self@), *kind, 0),
    {
        self.count_for(self.table_ref().as_str(), kind)
    }
}

impl Select {
    /// The SQL that counts the rows the select returns, and its parameters.
    pub fn to_sql_count(&self, kind: &DbKind) -> (r: Result<(String, Vec<JsonValue>), crate::error::RelatableError>)
        requires
            *kind == DbKind::PostgreSQL ==> select_fits(self@),
        ensures
            sql_outcome(r) == select_sql_count(self@, *kind),
    {
        let ghost s = self@;
        let ghost n = s.filters.len();
        let target = self.target();
        let mut lines: Vec<String> = Vec::new();
        let mut params: Vec<JsonValue> = Vec::new();
        push_line(&mut lines, owned("SELECT COUNT(1) AS \"count\""));
        let mut from = owned("FROM \"");
        from.append(target.as_str());
        push_char(&mut from, '"');
        assert(from@ == "FROM \""@ + target_of(s) + seq!['"']);
        push_line(&mut lines, from);
        let ghost head2 = views(lines@);
        let mut j: usize = 0;
        while j < self.joins.len()
            invariant
                s == self@,
                j <= s.joins.len(),
                views(lines@) == head2 + s.joins.take(j as int).map_values(|jv: JoinView| join_sql(jv)),
            decreases s.joins.len() - j,
        {
            assert(s.joins[j as int] == self.joins@[j as int]@);
            push_line(&mut lines, self.joins[j].to_sql());
            j = j + 1;
            assert(views(lines@) =~= head2 + s.joins.take(j as int).map_values(|jv: JoinView| join_sql(jv)));
        }
        assert(s.joins.take(j as int) =~= s.joins);
        let ghost pre = views(lines@);
        assert(pre =~= seq!["SELECT COUNT(1) AS \"count\""@] + from_lines(s));
        let mut i: usize = 0;
        while i < self.filters.len()
            invariant
                s == self@,
                n == s.filters.len(),
                i <= n,
                count_where(s, *kind, i as nat) is Ok,
                views(lines@) == pre + count_where(s, *kind, i as nat)->Ok_0.0,
                crate::json::json_views(params@) == count_where(s, *kind, i as nat)->Ok_0.1,
                *kind == DbKind::PostgreSQL ==> select_fits(s),
            decreases n - i,
        {
            let f = &self.filters[i];
            assert(s.filters[i as int] == f@);
            let table = f.table_ref();
            let eff: &str = if !is_empty_str(self.view_name.as_str()) && str_eq(table.as_str(), self.table_name.as_str()) {
                self.view_name.as_str()
            } else {
                table.as_str()
            };
            assert(eff@ == effective_table(s, f@));
            proof {
                if *kind == DbKind::PostgreSQL {
                    lemma_width_le_total(s.filters, i as nat);
                    assert(filter_fits(s.filters[i as int]));
                }
            }
            match f.count_for(eff, kind) {
                Err(e) => {
                    proof {
                        lemma_count_where_err_stays(s, *kind, (i + 1) as nat, n);
                    }
                    return Err(e);
                },
                Ok((sql, p)) => {
                    let ghost wp = count_where(s, *kind, i as nat)->Ok_0;
                    let mut line = if i == 0 { owned("WHERE") } else { owned("  AND") };
                    push_char(&mut line, ' ');
                    line.append(sql.as_str());
                    push_line(&mut lines, line);
                    let ghost before = params@;
                    let mut p = p;
                    let ghost pv = crate::json::json_views(p@);
                    params.append(&mut p);
                    assert(crate::json::json_views(params@) =~= crate::json::json_views(before) + pv);
                    assert(line@ == (if i == 0 { "WHERE"@ } else { "  AND"@ }) + seq![' '] + sql@);
                    assert(views(lines@) =~= pre + count_where(s, *kind, (i + 1) as nat)->Ok_0.0);
                },
            }
            i = i + 1;
        }
        let sql = crate::text::join(&lines, "\n");
        Ok((sql, params))
    }
}


// ---------------------------------------------------------------------------
// Building selects
// ---------------------------------------------------------------------------

/// An empty select of the given table.
pub open spec fn empty_select(table: Seq<char>, limit: nat) -> SelectView {
    SelectView {
        table_name: table,
        view_name: Seq::empty(),
        select: Seq::empty(),
        joins: Seq::empty(),
        limit,
        offset: 0,
        filters: Seq::empty(),
        order_by: Seq::empty(),
    }
}

impl Select {
    /// A select with nothing set: no table, no limit.
    pub fn default() -> (r: Self)
        ensures
            r@ == empty_select(Seq::empty(), 0),
    {
        let r = Select {
            table_name: String::new(),
            view_name: String::new(),
            select: Vec::new(),
            joins: Vec::new(),
            limit: 0,
            offset: 0,
            filters: Vec::new(),
            order_by: Vec::new(),
        };
        assert(r@.filters =~= Seq::<FilterView>::empty());
        assert(r@.select =~= Seq::<FieldView>::empty());
        assert(r@.joins =~= Seq::<JoinView>::empty());
        assert(r@.order_by =~= Seq::<(Seq<char>, Order)>::empty());
        r
    }

    /// A select of all the columns of the given table, limited to [DEFAULT_LIMIT] rows.
    pub fn from(table_name: &str) -> (r: Self)
        ensures
            r@ == empty_select(table_name@, DEFAULT_LIMIT as nat),
    {
        let mut r = Select::default();
        r.table_name = owned(table_name);
        r.limit = DEFAULT_LIMIT;
        assert(r@.filters =~= Seq::<FilterView>::empty());
        r
    }

    /// Add a field to the SELECT clause.
    fn push_field(&mut self, field: SelectField)
        ensures
            final(self)@ == (SelectView { select: old(self)@.select.push(field@), ..old(self)@ }),
    {
        let ghost before = self@;
        self.select.push(field);
        assert(self@.select =~= before.select.push(field@));
        assert(self@.filters =~= before.filters);
    }

    /// Add a column to the SELECT clause.
    pub fn select_column(&mut self, column: &str)
        ensures
            final(self)@ == (SelectView {
                select: old(self)@.select.push(FieldView::Column(Seq::empty(), column@, Seq::empty())),
                ..old(self)@
            }),
    {
        self.push_field(SelectField::Column { table: String::new(), column: owned(column), alias: String::new() });
    }

    /// Add columns to the SELECT clause, in order.
    pub fn select_columns(&mut self, columns: &Vec<&str>)
        ensures
            final(self)@ == (SelectView {
                select: old(self)@.select + columns@.map_values(|c: &str| FieldView::Column(Seq::empty(), c@, Seq::empty())),
                ..old(self)@
            }),
    {
        let ghost start = self@;
        let mut i: usize = 0;
        while i < columns.len()
            invariant
                i <= columns.len(),
                self@ == (SelectView {
                    select: start.select + columns@.take(i as int).map_values(|c: &str| FieldView::Column(Seq::empty(), c@, Seq::empty())),
                    ..start
                }),
            decreases columns.len() - i,
        {
            self.select_column(columns[i]);
            i = i + 1;
            assert(start.select + columns@.take(i as int).map_values(|c: &str| FieldView::Column(Seq::empty(), c@, Seq::empty()))
                =~= (start.select + columns@.take((i - 1) as int).map_values(|c: &str| FieldView::Column(Seq::empty(), c@, Seq::empty())))
                    .push(FieldView::Column(Seq::empty(), columns@[i - 1]@, Seq::empty())));
        }
        assert(columns@.take(i as int) =~= columns@);
    }

    /// Add a column of the given table to the SELECT clause.
    pub fn select_table_column(&mut self, table: &str, column: &str)
        ensures
            final(self)@ == (SelectView {
                select: old(self)@.select.push(FieldView::Column(table@, column@, Seq::empty())),
                ..old(self)@
            }),
    {
        self.push_field(SelectField::Column { table: owned(table), column: owned(column), alias: String::new() });
    }

    /// Add columns of the given table to the SELECT clause, in order.
    pub fn select_table_columns(&mut self, table: &str, columns: &Vec<&str>)
        ensures
            final(self)@ == (SelectView {
                select: old(self)@.select + columns@.map_values(|c: &str| FieldView::Column(table@, c@, Seq::empty())),
                ..old(self)@
            }),
    {
        let ghost start = self@;
        let mut i: usize = 0;
        while i < columns.len()
            invariant
                i <= columns.len(),
                self@ == (SelectView {
                    select: start.select + columns@.take(i as int).map_values(|c: &str| FieldView::Column(table@, c@, Seq::empty())),
                    ..start
                }),
            decreases columns.len() - i,
        {
            self.select_table_column(table, columns[i]);
            i = i + 1;
            assert(start.select + columns@.take(i as int).map_values(|c: &str| FieldView::Column(table@, c@, Seq::empty()))
                =~= (start.select + columns@.take((i - 1) as int).map_values(|c: &str| FieldView::Column(table@, c@, Seq::empty())))
                    .push(FieldView::Column(table@, columns@[i - 1]@, Seq::empty())));
        }
        assert(columns@.take(i as int) =~= columns@);
    }

    /// Add a column with an alias to the SELECT clause.
    pub fn select_alias(&mut self, table: &str, column: &str, alias: &str)
        ensures
            final(self)@ == (SelectView {
                select: old(self)@.select.push(FieldView::Column(table@, column@, alias@)),
                ..old(self)@
            }),
    {
        self.push_field(SelectField::Column { table: owned(table), column: owned(column), alias: owned(alias) });
    }

    /// Add an expression with an alias to the SELECT clause.
    pub fn select_expression(&mut self, expression: &str, alias: &str)
        ensures
            final(self)@ == (SelectView {
                select: old(self)@.select.push(FieldView::Expression(expression@, alias@)),
                ..old(self)@
            }),
    {
        self.push_field(SelectField::Expression { expression: owned(expression), alias: owned(alias) });
    }

    /// Add a LEFT JOIN clause.
    pub fn left_join(&mut self, left_table: &str, left_column: &str, right_table: &str, right_column: &str)
        ensures
            final(self)@ == (SelectView {
                joins: old(self)@.joins.push(JoinView::LeftJoin(left_table@, left_column@, right_table@, right_column@)),
                ..old(self)@
            }),
    {
        let ghost before = self@;
        self.joins.push(Join::LeftJoin {
            left_table: owned(left_table),
            left_column: owned(left_column),
            right_table: owned(right_table),
            right_column: owned(right_column),
        });
        assert(self@.joins =~= before.joins.push(JoinView::LeftJoin(left_table@, left_column@, right_table@, right_column@)));
        assert(self@.filters =~= before.filters);
    }

    /// Order the rows by the given column, ascending, in place of any other order.
    pub fn order_by(&mut self, column: &str)
        ensures
            final(self)@ == (SelectView { order_by: seq![(column@, Order::ASC)], ..old(self)@ }),
    {
        let ghost before = self@;
        self.order_by = vec![(owned(column), Order::ASC)];
        assert(self@.order_by =~= seq![(column@, Order::ASC)]);
        assert(self@.filters =~= before.filters);
    }

    /// Limit the rows returned.
    pub fn limit(self, limit: &usize) -> (r: Self)
        ensures
            r@ == (SelectView { limit: *limit as nat, ..self@ }),
    {
        let mut s = self;
        let ghost before = s@;
        s.limit = *limit;
        assert(s@.filters =~= before.filters);
        s
    }

    /// Skip the given number of rows.
    pub fn offset(self, offset: &usize) -> (r: Self)
        ensures
            r@ == (SelectView { offset: *offset as nat, ..self@ }),
    {
        let mut s = self;
        let ghost before = s@;
        s.offset = *offset;
        assert(s@.filters =~= before.filters);
        s
    }

    /// Add a filter.
    fn push_filter(&mut self, filter: Filter)
        ensures
            final(self)@ == (SelectView { filters: old(self)@.filters.push(filter@), ..old(self)@ }),
    {
        let ghost before = self@;
        let ghost fv = filter@;
        self.filters.push(filter);
        assert(self@.filters =~= before.filters.push(fv));
    }

    /// Add a filter on a value with no table.
    fn with_filter(self, filter: Filter) -> (r: Self)
        ensures
            r@ == (SelectView { filters: self@.filters.push(filter@), ..self@ }),
    {
        let mut s = self;
        s.push_filter(filter);
        s
    }

    /// Add a LIKE filter on the column; the value may hold `*` wildcards.
    pub fn like(self, column: &str, value: &JsonValue) -> (r: Result<Self, crate::error::RelatableError>)
        ensures
            r matches Ok(s) && s@ == (SelectView {
                filters: self@.filters.push(FilterView::Value(FilterOp::Like, Seq::empty(), column@, value@)),
                ..self@
            }),
    {
        Ok(self.with_filter(Filter::Like { table: String::new(), column: owned(column), value: value.clone() }))
    }

    /// Add an equals filter on the column.
    pub fn eq(&mut self, column: &str, value: &JsonValue) -> (r: Result<(), crate::error::RelatableError>)
        ensures
            r is Ok,
            final(self)@ == (SelectView {
                filters: old(self)@.filters.push(FilterView::Value(FilterOp::Equal, Seq::empty(), column@, value@)),
                ..old(self)@
            }),
    {
        self.push_filter(Filter::Equal { table: String::new(), column: owned(column), value: value.clone() });
        Ok(())
    }

    /// Add an equals filter on the column of the given table.
    pub fn table_eq(&mut self, table: &str, column: &str, value: &JsonValue) -> (r: Result<(), crate::error::RelatableError>)
        ensures
            r is Ok,
            final(self)@ == (SelectView {
                filters: old(self)@.filters.push(FilterView::Value(FilterOp::Equal, table@, column@, value@)),
                ..old(self)@
            }),
    {
        self.push_filter(Filter::Equal { table: owned(table), column: owned(column), value: value.clone() });
        Ok(())
    }

    /// Add a not-equals filter on the column.
    pub fn not_eq(self, column: &str, value: &JsonValue) -> (r: Result<Self, crate::error::RelatableError>)
        ensures
            r matches Ok(s) && s@ == (SelectView {
                filters: self@.filters.push(FilterView::Value(FilterOp::NotEqual, Seq::empty(), column@, value@)),
                ..self@
            }),
    {
        Ok(self.with_filter(Filter::NotEqual { table: String::new(), column: owned(column), value: value.clone() }))
    }

    /// Add a greater-than filter on the column.
    pub fn gt(self, column: &str, value: &JsonValue) -> (r: Result<Self, crate::error::RelatableError>)
        ensures
            r matches Ok(s) && s@ == (SelectView {
                filters: self@.filters.push(FilterView::Value(FilterOp::GreaterThan, Seq::empty(), column@, value@)),
                ..self@
            }),
    {
        Ok(self.with_filter(Filter::GreaterThan { table: String::new(), column: owned(column), value: value.clone() }))
    }

    /// Add a greater-than-or-equals filter on the column.
    pub fn gte(self, column: &str, value: &JsonValue) -> (r: Result<Self, crate::error::RelatableError>)
        ensures
            r matches Ok(s) && s@ == (SelectView {
                filters: self@.filters.push(FilterView::Value(FilterOp::GreaterThanOrEqual, Seq::empty(), column@, value@)),
                ..self@
            }),
    {
        Ok(self.with_filter(Filter::GreaterThanOrEqual { table: String::new(), column: owned(column), value: value.clone() }))
    }

    /// Add a less-than filter on the column.
    pub fn lt(self, column: &str, value: &JsonValue) -> (r: Result<Self, crate::error::RelatableError>)
        ensures
            r matches Ok(s) && s@ == (SelectView {
                filters: self@.filters.push(FilterView::Value(FilterOp::LessThan, Seq::empty(), column@, value@)),
                ..self@
            }),
    {
        Ok(self.with_filter(Filter::LessThan { table: String::new(), column: owned(column), value: value.clone() }))
    }

    /// Add a less-than-or-equals filter on the column.
    pub fn lte(self, column: &str, value: &JsonValue) -> (r: Result<Self, crate::error::RelatableError>)
        ensures
            r matches Ok(s) && s@ == (SelectView {
                filters: self@.filters.push(FilterView::Value(FilterOp::LessThanOrEqual, Seq::empty(), column@, value@)),
                ..self@
            }),
    {
        Ok(self.with_filter(Filter::LessThanOrEqual { table: String::new(), column: owned(column), value: value.clone() }))
    }

    /// Add an IS filter on the column.
    pub fn is(self, column: &str, value: &JsonValue) -> (r: Result<Self, crate::error::RelatableError>)
        ensures
            r matches Ok(s) && s@ == (SelectView {
                filters: self@.filters.push(FilterView::Value(FilterOp::Is, Seq::empty(), column@, value@)),
                ..self@
            }),
    {
        Ok(self.with_filter(Filter::Is { table: String::new(), column: owned(column), value: value.clone() }))
    }

    /// Add an IS NOT filter on the column.
    pub fn is_not(self, column: &str, value: &JsonValue) -> (r: Result<Self, crate::error::RelatableError>)
        ensures
            r matches Ok(s) && s@ == (SelectView {
                filters: self@.filters.push(FilterView::Value(FilterOp::IsNot, Seq::empty(), column@, value@)),
                ..self@
            }),
    {
        Ok(self.with_filter(Filter::IsNot { table: String::new(), column: owned(column), value: value.clone() }))
    }

    /// Add an IN filter on the column.
    pub fn is_in(self, column: &str, value: &JsonValue) -> (r: Result<Self, crate::error::RelatableError>)
        ensures
            r matches Ok(s) && s@ == (SelectView {
                filters: self@.filters.push(FilterView::Value(FilterOp::In, Seq::empty(), column@, value@)),
                ..self@
            }),
    {
        Ok(self.with_filter(Filter::In { table: String::new(), column: owned(column), value: value.clone() }))
    }

    /// Add a NOT IN filter on the column.
    pub fn is_not_in(self, column: &str, value: &JsonValue) -> (r: Result<Self, crate::error::RelatableError>)
        ensures
            r matches Ok(s) && s@ == (SelectView {
                filters: self@.filters.push(FilterView::Value(FilterOp::NotIn, Seq::empty(), column@, value@)),
                ..self@
            }),
    {
        Ok(self.with_filter(Filter::NotIn { table: String::new(), column: owned(column), value: value.clone() }))
    }

    /// Add a filter that keeps the rows whose column is among the rows of the subquery;
    /// the filter is on the select's target.
    pub fn is_in_subquery(&mut self, column: &str, subquery: &Select)
        ensures
            final(self)@ == (SelectView {
                filters: old(self)@.filters.push(FilterView::Subquery(false, target_of(old(self)@), column@, subquery@)),
                ..old(self)@
            }),
    {
        let target = self.target().clone();
        self.push_filter(Filter::InSubquery { table: target, column: owned(column), subquery: subquery.clone() });
    }

    /// Add a filter that keeps the rows whose column is not among the rows of the subquery;
    /// the filter is on the select's target.
    pub fn is_not_in_subquery(&mut self, column: &str, subquery: &Select)
        ensures
            final(self)@ == (SelectView {
                filters: old(self)@.filters.push(FilterView::Subquery(true, target_of(old(self)@), column@, subquery@)),
                ..old(self)@
            }),
    {
        let target = self.target().clone();
        self.push_filter(Filter::NotInSubquery { table: target, column: owned(column), subquery: subquery.clone() });
    }
}


// ---------------------------------------------------------------------------
// The tables of a select
// ---------------------------------------------------------------------------

/// The name as a set, or no names when it is empty.
pub open spec fn nonempty(t: Seq<char>) -> Set<Seq<char>> {
    if t.len() == 0 { Set::empty() } else { Set::empty().insert(t) }
}

/// The tables of the first `n` fields.
pub open spec fn field_tables(fs: Seq<FieldView>, n: nat) -> Set<Seq<char>>
    decreases n,
{
    if n == 0 || n > fs.len() {
        Set::empty()
    } else {
        field_tables(fs, (n - 1) as nat).union(match fs[n - 1] {
            FieldView::Column(t, _, _) => nonempty(t),
            FieldView::Expression(_, _) => Set::empty(),
        })
    }
}

/// The tables of the first `n` joins.
pub open spec fn join_tables(js: Seq<JoinView>, n: nat) -> Set<Seq<char>>
    decreases n,
{
    if n == 0 || n > js.len() {
        Set::empty()
    } else {
        join_tables(js, (n - 1) as nat).union(match js[n - 1] {
            JoinView::LeftJoin(lt, _, rt, _) => nonempty(lt).union(nonempty(rt)),
        })
    }
}

/// The tables of the first `n` filters of a select, with those of their subqueries.
pub open spec fn filter_tables(s: SelectView, n: nat) -> Set<Seq<char>>
    decreases s, 1int, n,
{
    if n == 0 || n > s.filters.len() {
        Set::empty()
    } else {
        filter_tables(s, (n - 1) as nat).union(nonempty(filter_table(s.filters[n - 1]))).union(
            subquery_tables(s.filters[n - 1]),
        )
    }
}

/// The tables of a filter's subquery, if it has one.
pub open spec fn subquery_tables(f: FilterView) -> Set<Seq<char>>
    decreases f, 0int, 0int,
{
    match f {
        FilterView::Subquery(_, _, _, sub) => select_tables(sub),
        _ => Set::empty(),
    }
}

/// The non-empty names of all the tables that a select involves: its own, those of its
/// fields, joins and filters, and those of its subqueries.
pub open spec fn select_tables(s: SelectView) -> Set<Seq<char>>
    decreases s, 2int, 0int,
{
    nonempty(s.table_name).union(field_tables(s.select, s.select.len())).union(join_tables(s.joins, s.joins.len())).union(
        filter_tables(s, s.filters.len()),
    )
}

/// The view of a list of strings as a set.
pub open spec fn names(v: Seq<String>) -> Set<Seq<char>> {
    views(v).to_set()
}

fn insert_when_non_empty(tables: &mut Vec<String>, table: &str)
    requires
        crate::text::strictly_sorted(views(old(tables)@)),
    ensures
        crate::text::strictly_sorted(views(final(tables)@)),
        names(final(tables)@) == names(old(tables)@).union(nonempty(table@)),
{
    if !is_empty_str(table) {
        crate::text::insert_sorted(tables, owned(table));
        assert(names(old(tables)@).insert(table@) =~= names(old(tables)@).union(nonempty(table@)));
    } else {
        assert(names(old(tables)@) =~= names(old(tables)@).union(nonempty(table@)));
    }
}

impl Select {
    fn add_tables(&self, tables: &mut Vec<String>)
        requires
            crate::text::strictly_sorted(views(old(tables)@)),
        ensures
            crate::text::strictly_sorted(views(final(tables)@)),
            names(final(tables)@) == names(old(tables)@).union(select_tables(self@)),
        decreases self,
    {
        let ghost s = self@;
        let ghost start = names(tables@);
        insert_when_non_empty(tables, self.table_name.as_str());
        let mut i: usize = 0;
        while i < self.select.len()
            invariant
                s == self@,
                i <= s.select.len(),
                crate::text::strictly_sorted(views(tables@)),
                names(tables@) == start.union(nonempty(s.table_name)).union(field_tables(s.select, i as nat)),
            decreases s.select.len() - i,
        {
            assert(s.select[i as int] == self.select@[i as int]@);
            match &self.select[i] {
                SelectField::Column { table, .. } => insert_when_non_empty(tables, table.as_str()),
                SelectField::Expression { .. } => {},
            }
            i = i + 1;
            assert(names(tables@) =~= start.union(nonempty(s.table_name)).union(field_tables(s.select, i as nat)));
        }
        let mut i: usize = 0;
        while i < self.joins.len()
            invariant
                s == self@,
                i <= s.joins.len(),
                crate::text::strictly_sorted(views(tables@)),
                names(tables@) == start.union(nonempty(s.table_name)).union(field_tables(s.select, s.select.len()))
                    .union(join_tables(s.joins, i as nat)),
            decreases s.joins.len() - i,
        {
            assert(s.joins[i as int] == self.joins@[i as int]@);
            match &self.joins[i] {
                Join::LeftJoin { left_table, right_table, .. } => {
                    insert_when_non_empty(tables, left_table.as_str());
                    insert_when_non_empty(tables, right_table.as_str());
                },
            }
            i = i + 1;
            assert(names(tables@) =~= start.union(nonempty(s.table_name)).union(field_tables(s.select, s.select.len()))
                .union(join_tables(s.joins, i as nat)));
        }
        let mut i: usize = 0;
        while i < self.filters.len()
            invariant
                s == self@,
                i <= s.filters.len(),
                crate::text::strictly_sorted(views(tables@)),
                names(tables@) == start.union(nonempty(s.table_name)).union(field_tables(s.select, s.select.len()))
                    .union(join_tables(s.joins, s.joins.len())).union(filter_tables(s, i as nat)),
            decreases s.filters.len() - i,
        {
            let f = &self.filters[i];
            assert(s.filters[i as int] == f@);
            insert_when_non_empty(tables, f.table_ref().as_str());
            proof {
                assert(decreases_to!(self => self.filters@[i as int]));
            }
            let ghost mid = names(tables@);
            match f {
                Filter::InSubquery { subquery, .. } => {
                    subquery.add_tables(tables);
                    assert(subquery_tables(f@) == select_tables(subquery@));
                },
                Filter::NotInSubquery { subquery, .. } => {
                    subquery.add_tables(tables);
                    assert(subquery_tables(f@) == select_tables(subquery@));
                },
                _ => {
                    assert(subquery_tables(f@) =~= Set::<Seq<char>>::empty());
                    assert(mid =~= mid.union(subquery_tables(f@)));
                },
            }
            assert(names(tables@) == mid.union(subquery_tables(f@)));
            i = i + 1;
            assert(names(tables@) =~= start.union(nonempty(s.table_name)).union(field_tables(s.select, s.select.len()))
                .union(join_tables(s.joins, s.joins.len())).union(filter_tables(s, i as nat)));
        }
        assert(names(tables@) =~= start.union(select_tables(s)));
    }

    /// The non-empty names of all the tables the select involves, with those of its
    /// subqueries: sorted, each once.
    pub fn get_tables(&self) -> (r: Vec<String>)
        ensures
            crate::text::strictly_sorted(views(r@)),
            names(r@) == select_tables(self@),
    {
        let mut tables: Vec<String> = Vec::new();
        assert(names(tables@) =~= Set::<Seq<char>>::empty());
        self.add_tables(&mut tables);
        assert(names(tables@) =~= select_tables(self@));
        tables
    }
}


// ---------------------------------------------------------------------------
// Filters and selects in URLs
// ---------------------------------------------------------------------------

/// The characters that make a token a candidate for quoting.
pub open spec fn reserved_char(c: char) -> bool {
    c == ':' || c == ',' || c == '.' || c == '(' || c == ')'
}

/// A token as written in a URL: quoted when it contains white space and is numeric or
/// holds a reserved character.
pub open spec fn url_token(t: Seq<char>) -> Seq<char> {
    let numeric = forall|i: int| 0 <= i < t.len() ==> crate::text::char_is_numeric_spec(#[trigger] t[i]);
    let reserved = exists|i: int| 0 <= i < t.len() && reserved_char(#[trigger] t[i]);
    let spaced = exists|i: int| 0 <= i < t.len() && crate::text::char_is_whitespace_spec(#[trigger] t[i]);
    if (numeric || reserved) && spaced { seq!['"'] + t + seq!['"'] } else { t }
}

/// A list item as written in a URL: text or a number.
pub open spec fn url_item(j: Json) -> Option<Seq<char>> {
    match j {
        Json::Str(t) => Some(url_token(t)),
        Json::Int(_) => Some(number_text(j)),
        Json::Float(_) => Some(number_text(j)),
        _ => None,
    }
}

/// A filter's value as written in a URL; `None` for a value that cannot be written.
pub open spec fn url_rhs(v: Json) -> Option<Seq<char>> {
    match v {
        Json::Null => Some("null"@),
        Json::Str(t) => Some(url_token(t)),
        Json::Int(_) => Some(number_text(v)),
        Json::Float(_) => Some(number_text(v)),
        Json::Arr(items) => if forall|i: int| 0 <= i < items.len() ==> (#[trigger] url_item(items[i])) is Some {
            Some(seq!['('] + seq_join(items.map_values(|j: Json| url_item(j)->0), ","@) + seq![')'])
        } else {
            None
        },
        _ => None,
    }
}

/// A filter as written in a URL: `operator.value`.
pub open spec fn filter_url(f: FilterView) -> Option<Seq<char>> {
    match url_rhs(filter_value(f)) {
        Some(r) => Some(filter_operator(f) + seq!['.'] + r),
        None => None,
    }
}

fn url_token_text(t: &str) -> (r: String)
    ensures
        r@ == url_token(t@),
{
    let v = crate::text::chars_of(t);
    let mut numeric = true;
    let mut reserved = false;
    let mut spaced = false;
    let mut i: usize = 0;
    while i < v.len()
        invariant
            v@ == t@,
            i <= v.len(),
            numeric == (forall|j: int| 0 <= j < i ==> crate::text::char_is_numeric_spec(#[trigger] t@[j])),
            reserved == (exists|j: int| 0 <= j < i && reserved_char(#[trigger] t@[j])),
            spaced == (exists|j: int| 0 <= j < i && crate::text::char_is_whitespace_spec(#[trigger] t@[j])),
        decreases v.len() - i,
    {
        let c = v[i];
        if !crate::text::char_is_numeric(c) {
            numeric = false;
        }
        if c == ':' || c == ',' || c == '.' || c == '(' || c == ')' {
            reserved = true;
        }
        if crate::text::char_is_whitespace(c) {
            spaced = true;
        }
        i = i + 1;
    }
    if (numeric || reserved) && spaced {
        dquote(t)
    } else {
        owned(t)
    }
}

fn url_item_text(j: &JsonValue) -> (r: Option<String>)
    ensures
        match r {
            Some(t) => url_item(j@) == Some(t@),
            None => url_item(j@) is None,
        },
{
    match j {
        JsonValue::String(t) => Some(url_token_text(t.as_str())),
        JsonValue::Number(n) => Some(number_to_text(n)),
        _ => None,
    }
}

impl Filter {
    /// The filter as written in a URL: `operator.value`. A value that is not null, text,
    /// a number or a list of text and numbers is a data error.
    pub fn to_url(&self) -> (r: Result<String, crate::error::RelatableError>)
        ensures
            match r {
                Ok(u) => filter_url(self@) == Some(u@),
                Err(e) => filter_url(self@) is None && e is DataError,
            },
    {
        let (_, _, operator, value) = self.parts();
        let rhs = match &value {
            JsonValue::Null => owned("null"),
            JsonValue::String(t) => url_token_text(t.as_str()),
            JsonValue::Number(n) => number_to_text(n),
            JsonValue::Array(items) => {
                let ghost iv = crate::json::json_views(items@);
                assert(value@ == Json::Arr(iv)) by {
                    if let Json::Arr(a) = value@ {
                        assert(a =~= iv);
                    }
                }
                let mut list: Vec<String> = Vec::new();
                let mut i: usize = 0;
                while i < items.len()
                    invariant
                        iv == crate::json::json_views(items@),
                        value@ == Json::Arr(iv),
                        value@ == filter_value(self@),
                        operator@ == filter_operator(self@),
                        i <= items.len(),
                        views(list@) == iv.take(i as int).map_values(|j: Json| url_item(j)->0),
                        forall|k: int| 0 <= k < i ==> (#[trigger] url_item(iv[k])) is Some,
                    decreases items.len() - i,
                {
                    assert(iv[i as int] == items@[i as int]@);
                    match url_item_text(&items[i]) {
                        Some(t) => {
                            let ghost before = list@;
                            list.push(t);
                            proof {
                                crate::text::lemma_views_push(before, t);
                            }
                        },
                        None => {
                            assert(url_item(iv[i as int]) is None);
                            assert(url_rhs(value@) is None);
                            assert(filter_url(self@) is None);
                            let mut m = owned("Not all list items in ");
                            m.append(json_debug_text(&value).as_str());
                            m.append(" are strings or numbers.");
                            return Err(crate::error::RelatableError::DataError(m));
                        },
                    }
                    i = i + 1;
                    assert(views(list@) =~= iv.take(i as int).map_values(|j: Json| url_item(j)->0));
                }
                assert(iv.take(i as int) =~= iv);
                let mut s = String::new();
                push_char(&mut s, '(');
                s.append(crate::text::join(&list, ",").as_str());
                push_char(&mut s, ')');
                s
            },
            _ => {
                let mut m = owned("RHS of Filter: ");
                m.append(crate::json::json_to_text(&self.to_json()).as_str());
                m.append(" is not a string, number, or list");
                return Err(crate::error::RelatableError::DataError(m));
            },
        };
        let mut u = operator;
        push_char(&mut u, '.');
        u.append(rhs.as_str());
        Ok(u)
    }
}

/// The fields as written in a URL: column fields, and `count()` expressions.
pub open spec fn url_fields(fs: Seq<FieldView>) -> Seq<Seq<char>>
    decreases fs.len(),
{
    if fs.len() == 0 {
        Seq::empty()
    } else {
        let prev = url_fields(fs.drop_last());
        match fs.last() {
            FieldView::Column(_, _, _) => prev.push(field_url(fs.last())),
            FieldView::Expression(e, _) => if e == "count()"@ { prev.push(e) } else { prev },
        }
    }
}

/// True when the name's part before its first `.` is a simple database name.
pub open spec fn name_ok(t: Seq<char>) -> bool {
    crate::pattern::regex_valid(crate::sql::DB_OBJECT_MATCH_STR@) && crate::sql::simple_matches(crate::sql::name_root(t))
}

/// The key of a filter in the query parameters: `column` or `table.column`.
pub open spec fn filter_lhs(f: FilterView) -> Seq<char> {
    if filter_table(f).len() == 0 { filter_column(f) } else { filter_table(f) + seq!['.'] + filter_column(f) }
}

/// The query parameters after adding those of the first `n` filters to `start`.
pub open spec fn filters_params(fs: Seq<FilterView>, start: Seq<(Seq<char>, Json)>, n: nat) -> Result<Seq<(Seq<char>, Json)>, crate::error::ErrorKind>
    decreases n,
{
    if n == 0 || n > fs.len() {
        Ok(start)
    } else {
        match filters_params(fs, start, (n - 1) as nat) {
            Err(e) => Err(e),
            Ok(entries) => {
                let f = fs[n - 1];
                if filter_table(f).len() > 0 && !name_ok(filter_table(f)) {
                    Err(crate::error::ErrorKind::Input)
                } else if !name_ok(filter_column(f)) {
                    Err(crate::error::ErrorKind::Input)
                } else {
                    match filter_url(f) {
                        None => Err(crate::error::ErrorKind::Data),
                        Some(u) => Ok(crate::maps::insert_entry(entries, filter_lhs(f), Json::Str(u))),
                    }
                }
            },
        }
    }
}

/// The `select` query parameter, when the select lists columns or counts.
pub open spec fn params_start(s: SelectView) -> Seq<(Seq<char>, Json)> {
    let cols = url_fields(s.select);
    if s.select.len() > 0 && cols.len() > 0 {
        crate::maps::insert_entry(Seq::empty(), "select"@, Json::Str(seq_join(cols, ","@)))
    } else {
        Seq::empty()
    }
}

/// The query parameters of a select: its fields, its filters, and its limit and offset
/// unless they are the defaults.
pub open spec fn params_spec(s: SelectView) -> Result<Seq<(Seq<char>, Json)>, crate::error::ErrorKind> {
    if s.table_name.len() == 0 {
        Err(crate::error::ErrorKind::Input)
    } else {
        match filters_params(s.filters, params_start(s), s.filters.len()) {
            Err(e) => Err(e),
            Ok(entries) => {
                let with_limit = if s.limit > 0 && s.limit != DEFAULT_LIMIT {
                    crate::maps::insert_entry(entries, "limit"@, Json::Int(s.limit as int))
                } else {
                    entries
                };
                Ok(if s.offset > 0 {
                    crate::maps::insert_entry(with_limit, "offset"@, Json::Int(s.offset as int))
                } else {
                    with_limit
                })
            },
        }
    }
}

/// A select's query parameters keep its paging: its offset whenever that is not 0, whatever
/// its limit, and its limit whenever that is neither 0 nor the default.
pub proof fn lemma_params_keep_paging(s: SelectView)
    requires
        params_spec(s) is Ok,
    ensures
        s.offset > 0 ==> crate::maps::lookup(params_spec(s)->Ok_0, "offset"@) == Some(Json::Int(s.offset as int)),
        s.limit > 0 && s.limit != DEFAULT_LIMIT
            ==> crate::maps::lookup(params_spec(s)->Ok_0, "limit"@) == Some(Json::Int(s.limit as int)),
{
    reveal_strlit("offset");
    reveal_strlit("limit");
    assert("offset"@ != "limit"@) by {
        assert("offset"@.len() != "limit"@.len());
    }
    let entries = filters_params(s.filters, params_start(s), s.filters.len())->Ok_0;
    let with_limit = if s.limit > 0 && s.limit != DEFAULT_LIMIT {
        crate::maps::insert_entry(entries, "limit"@, Json::Int(s.limit as int))
    } else {
        entries
    };
    crate::maps::lemma_insert_lookup(entries, "limit"@, Json::Int(s.limit as int), "limit"@);
    crate::maps::lemma_insert_lookup(with_limit, "offset"@, Json::Int(s.offset as int), "offset"@);
    crate::maps::lemma_insert_lookup(with_limit, "offset"@, Json::Int(s.offset as int), "limit"@);
}

proof fn lemma_filters_params_err(fs: Seq<FilterView>, start: Seq<(Seq<char>, Json)>, m: nat, n: nat)
    requires
        m <= n <= fs.len(),
        filters_params(fs, start, m) is Err,
    ensures
        filters_params(fs, start, n) == filters_params(fs, start, m),
    decreases n - m,
{
    if m < n {
        lemma_filters_params_err(fs, start, m, (n - 1) as nat);
    }
}

fn name_is_simple(name: &str) -> (r: bool)
    ensures
        r == name_ok(name@),
{
    match crate::sql::is_simple(name) {
        Ok(()) => true,
        Err(_) => false,
    }
}

impl Select {
    /// The select's fields, filters, limit and offset as query parameters: `select` lists
    /// the column fields and `count()` expressions; each filter is under its column (or
    /// `table.column`); `limit` when it is not the default, `offset` when it is not 0.
    /// A select without a table, or a filter on a name that is not simple, is an input error;
    /// a filter that cannot be written in a URL is a data error.
    pub fn to_params(&self) -> (r: Result<indexmap::IndexMap<String, JsonValue>, crate::error::RelatableError>)
        ensures
            match r {
                Ok(m) => params_spec(self@) == Ok::<Seq<(Seq<char>, Json)>, crate::error::ErrorKind>(crate::maps::json_map_entries(m)),
                Err(e) => params_spec(self@) == Err::<Seq<(Seq<char>, Json)>, crate::error::ErrorKind>(e.kind()),
            },
    {
        let ghost s = self@;
        if is_empty_str(self.table_name.as_str()) {
            return Err(crate::error::RelatableError::InputError(owned("Missing required field: `table` in to_sql()")));
        }
        let mut params = crate::maps::json_map_new();
        if self.select.len() > 0 {
            let mut cols: Vec<String> = Vec::new();
            let mut i: usize = 0;
            while i < self.select.len()
                invariant
                    s == self@,
                    i <= s.select.len(),
                    views(cols@) == url_fields(s.select.take(i as int)),
                decreases s.select.len() - i,
            {
                let f = &self.select[i];
                assert(s.select[i as int] == f@);
                assert(s.select.take(i + 1).drop_last() =~= s.select.take(i as int));
                match f {
                    SelectField::Column { .. } => {
                        let u = f.to_url();
                        let ghost before = cols@;
                        cols.push(u);
                        proof {
                            crate::text::lemma_views_push(before, u);
                        }
                    },
                    SelectField::Expression { expression, .. } => {
                        if str_eq(expression.as_str(), "count()") {
                            let e = expression.clone();
                            let ghost before = cols@;
                            cols.push(e);
                            proof {
                                crate::text::lemma_views_push(before, e);
                            }
                        }
                    },
                }
                i = i + 1;
            }
            assert(s.select.take(i as int) =~= s.select);
            if cols.len() > 0 {
                crate::maps::json_map_insert(&mut params, owned("select"), JsonValue::String(crate::text::join(&cols, ",")));
            }
        }
        let ghost start = crate::maps::json_map_entries(params);
        assert(start == params_start(s));
        let mut i: usize = 0;
        while i < self.filters.len()
            invariant
                s == self@,
                s.table_name.len() > 0,
                start == params_start(s),
                i <= s.filters.len(),
                filters_params(s.filters, start, i as nat) == Ok::<Seq<(Seq<char>, Json)>, crate::error::ErrorKind>(
                    crate::maps::json_map_entries(params)),
            decreases s.filters.len() - i,
        {
            let f = &self.filters[i];
            assert(s.filters[i as int] == f@);
            let table = f.table_ref();
            let column = f.column_ref();
            if !is_empty_str(table.as_str()) {
                if !name_is_simple(table.as_str()) {
                    assert(filters_params(s.filters, start, (i + 1) as nat) == Err::<Seq<(Seq<char>, Json)>, crate::error::ErrorKind>(
                        crate::error::ErrorKind::Input));
                    proof {
                        lemma_filters_params_err(s.filters, start, (i + 1) as nat, s.filters.len());
                    }
                    return Err(crate::error::RelatableError::InputError(owned("While reading filters table name, got error")));
                }
            }
            if !name_is_simple(column.as_str()) {
                assert(filters_params(s.filters, start, (i + 1) as nat) == Err::<Seq<(Seq<char>, Json)>, crate::error::ErrorKind>(
                    crate::error::ErrorKind::Input));
                proof {
                    lemma_filters_params_err(s.filters, start, (i + 1) as nat, s.filters.len());
                }
                return Err(crate::error::RelatableError::InputError(owned("While reading filters column name, got error")));
            }
            let lhs = if is_empty_str(table.as_str()) {
                column.clone()
            } else {
                let mut l = table.clone();
                push_char(&mut l, '.');
                l.append(column.as_str());
                l
            };
            assert(lhs@ == filter_lhs(f@));
            match f.to_url() {
                Err(e) => {
                    assert(filters_params(s.filters, start, (i + 1) as nat) == Err::<Seq<(Seq<char>, Json)>, crate::error::ErrorKind>(
                        crate::error::ErrorKind::Data));
                    proof {
                        lemma_filters_params_err(s.filters, start, (i + 1) as nat, s.filters.len());
                    }
                    return Err(e);
                },
                Ok(u) => {
                    let ghost before = crate::maps::json_map_entries(params);
                    crate::maps::json_map_insert(&mut params, lhs, JsonValue::String(u));
                    assert(filters_params(s.filters, start, (i + 1) as nat) == Ok::<Seq<(Seq<char>, Json)>, crate::error::ErrorKind>(
                        crate::maps::insert_entry(before, filter_lhs(f@), Json::Str(u@))));
                },
            }
            i = i + 1;
        }
        if self.limit > 0 && self.limit != DEFAULT_LIMIT {
            crate::maps::json_map_insert(&mut params, owned("limit"), json_u64(self.limit as u64));
        }
        if self.offset > 0 {
            crate::maps::json_map_insert(&mut params, owned("offset"), json_u64(self.offset as u64));
        }
        Ok(params)
    }
}


/// A query parameter's value as written in a URL: text as it is, other values as JSON.
pub open spec fn param_value_text(j: Json) -> Seq<char> {
    match j {
        Json::Str(t) => t,
        Json::Null => "null"@,
        Json::Bool(b) => crate::json::bool_text(b),
        Json::Int(_) => number_text(j),
        Json::Float(_) => number_text(j),
        _ => crate::json::json_text_spec(j),
    }
}

/// `key=value` for each query parameter.
pub open spec fn query_parts(entries: Seq<(Seq<char>, Json)>) -> Seq<Seq<char>> {
    entries.map_values(|p: (Seq<char>, Json)| p.0 + seq!['='] + param_value_text(p.1))
}

/// The URL of a select: `base/table` with the format's extension, then `?` and the query
/// parameters separated by `&` when there are any. A table name that is not simple, or
/// a select with joins, is an input error; errors of the query parameters are passed on.
pub open spec fn select_url(s: SelectView, base: Seq<char>, format: Format) -> Result<Seq<char>, crate::error::ErrorKind> {
    if !name_ok(s.table_name) {
        Err(crate::error::ErrorKind::Input)
    } else if s.joins.len() > 0 {
        Err(crate::error::ErrorKind::Input)
    } else {
        match params_spec(s) {
            Err(e) => Err(e),
            Ok(entries) => {
                let path = base + seq!['/'] + s.table_name + format_text(format);
                if entries.len() > 0 {
                    Ok(path + seq!['?'] + seq_join(query_parts(entries), "&"@))
                } else {
                    Ok(path)
                }
            },
        }
    }
}

fn format_to_text(format: &Format) -> (r: String)
    ensures
        r@ == format_text(*format),
{
    match format {
        Format::Html => owned(".html"),
        Format::Csv => owned(".csv"),
        Format::Tsv => owned(".tsv"),
        Format::Json => owned(".json"),
        Format::ValueJson => owned(".value.json"),
        Format::PrettyJson => owned(".pretty.json"),
        Format::Default => owned(""),
    }
}

impl Format {
    /// The extension of the format: `.html`, `.csv`, `.tsv`, `.json`, `.value.json`,
    /// `.pretty.json`, or nothing.
    pub fn to_text(&self) -> (r: String)
        ensures
            r@ == format_text(*self),
    {
        format_to_text(self)
    }

    /// The format of a path, by its extension (in lower case): `.pretty.json`,
    /// `.value.json`, `.json`, `.csv`, `.tsv`, `.html` or `.htm`; a path without a `.`
    /// has the default format, and any other path is a format error.
    pub fn try_from(path: &String) -> (r: Result<Format, crate::error::RelatableError>)
        ensures
            match r {
                Ok(f) => format_of(crate::text::lowercase_spec(path@)) == Some(f),
                Err(e) => format_of(crate::text::lowercase_spec(path@)) is None && e is FormatError,
            },
    {
        let path = crate::text::to_lowercase(path.as_str());
        let p = path.as_str();
        let format = if crate::text::ends_with(p, ".pretty.json") {
            Format::PrettyJson
        } else if crate::text::ends_with(p, ".value.json") {
            Format::ValueJson
        } else if crate::text::ends_with(p, ".json") {
            Format::Json
        } else if crate::text::ends_with(p, ".csv") {
            Format::Csv
        } else if crate::text::ends_with(p, ".tsv") {
            Format::Tsv
        } else if crate::text::ends_with(p, ".html") || crate::text::ends_with(p, ".htm") {
            Format::Html
        } else if crate::text::contains_char(p, '.') {
            let mut m = owned("Unknown format for path ");
            m.append(p);
            return Err(crate::error::RelatableError::FormatError(m));
        } else {
            Format::Default
        };
        Ok(format)
    }
}

/// The format of a (lower-case) path, by its extension; `None` for an unknown extension.
pub open spec fn format_of(p: Seq<char>) -> Option<Format> {
    if ".pretty.json"@.is_suffix_of(p) {
        Some(Format::PrettyJson)
    } else if ".value.json"@.is_suffix_of(p) {
        Some(Format::ValueJson)
    } else if ".json"@.is_suffix_of(p) {
        Some(Format::Json)
    } else if ".csv"@.is_suffix_of(p) {
        Some(Format::Csv)
    } else if ".tsv"@.is_suffix_of(p) {
        Some(Format::Tsv)
    } else if ".html"@.is_suffix_of(p) || ".htm"@.is_suffix_of(p) {
        Some(Format::Html)
    } else if p.contains('.') {
        None
    } else {
        Some(Format::Default)
    }
}

impl Select {
    /// The select as a URL under `base`, with the format's extension and the select's
    /// query parameters.
    pub fn to_url(&self, base: &str, format: &Format) -> (r: Result<String, crate::error::RelatableError>)
        ensures
            match r {
                Ok(u) => select_url(self@, base@, *format) == Ok::<Seq<char>, crate::error::ErrorKind>(u@),
                Err(e) => select_url(self@, base@, *format) == Err::<Seq<char>, crate::error::ErrorKind>(e.kind()),
            },
    {
        let ghost s = self@;
        if !name_is_simple(self.table_name.as_str()) {
            return Err(crate::error::RelatableError::InputError(owned("While reading table name, got error")));
        }
        let mut path = owned(base);
        push_char(&mut path, '/');
        path.append(self.table_name.as_str());
        path.append(format_to_text(format).as_str());
        if self.joins.len() > 0 {
            return Err(crate::error::RelatableError::InputError(owned("Joins are unsupported in to_url()")));
        }
        let params = match self.to_params() {
            Ok(p) => p,
            Err(e) => return Err(e),
        };
        let ghost entries = crate::maps::json_map_entries(params);
        let n = crate::maps::json_map_len(&params);
        if n > 0 {
            let mut parts: Vec<String> = Vec::new();
            let mut i: usize = 0;
            while i < n
                invariant
                    n == entries.len(),
                    entries == crate::maps::json_map_entries(params),
                    i <= n,
                    views(parts@) == query_parts(entries.take(i as int)),
                decreases n - i,
            {
                match crate::maps::json_map_get_index(&params, i) {
                    Some((column, value)) => {
                        let mut part = column.clone();
                        push_char(&mut part, '=');
                        let t = match value {
                            JsonValue::String(t) => t.clone(),
                            _ => crate::json::json_to_text(value),
                        };
                        assert(t@ == param_value_text(value@));
                        part.append(t.as_str());
                        assert(part@ == entries[i as int].0 + seq!['='] + param_value_text(entries[i as int].1));
                        let ghost before = parts@;
                        parts.push(part);
                        proof {
                            crate::text::lemma_views_push(before, part);
                        }
                    },
                    None => {
                        assert(false);
                    },
                }
                i = i + 1;
                assert(views(parts@) =~= query_parts(entries.take(i as int)));
            }
            assert(entries.take(i as int) =~= entries);
            let ghost p0 = path@;
            let mut u = path;
            push_char(&mut u, '?');
            u.append(crate::text::join(&parts, "&").as_str());
            assert(params_spec(s) == Ok::<Seq<(Seq<char>, Json)>, crate::error::ErrorKind>(entries));
            assert(p0 == base@ + seq!['/'] + s.table_name + format_text(*format));
            assert(u@ == p0 + seq!['?'] + seq_join(query_parts(entries), "&"@));
            assert(select_url(s, base@, *format) == Ok::<Seq<char>, crate::error::ErrorKind>(u@));
            Ok(u)
        } else {
            assert(params_spec(s) == Ok::<Seq<(Seq<char>, Json)>, crate::error::ErrorKind>(entries));
            assert(entries.len() == 0);
            assert(path@ == base@ + seq!['/'] + s.table_name + format_text(*format));
            assert(select_url(s, base@, *format) == Ok::<Seq<char>, crate::error::ErrorKind>(path@));
            Ok(path)
        }
    }
}


// ---------------------------------------------------------------------------
// Pages
// ---------------------------------------------------------------------------

/// The select with another table.
pub open spec fn tab_select(s: SelectView, t: Seq<char>) -> SelectView {
    SelectView { table_name: t, ..s }
}

/// The select with another table, counting its rows.
pub open spec fn count_select(s: SelectView, t: Seq<char>) -> SelectView {
    SelectView { table_name: t, select: s.select.push(FieldView::Expression("count()"@, "count"@)), ..s }
}

/// True when the links of every tab can be made.
pub open spec fn tabs_ok(s: SelectView, base: Seq<char>, tabs: Seq<Seq<char>>) -> bool {
    forall|i: int| 0 <= i < tabs.len() ==> (#[trigger] select_url(tab_select(s, tabs[i]), base, Format::Default)) is Ok
        && select_url(count_select(s, tabs[i]), base, Format::ValueJson) is Ok
}

/// The page of a select: its formats' links, then a tab for each table.
pub open spec fn page_spec(s: SelectView, root: Seq<char>, path: Seq<char>, tabs: Seq<Seq<char>>) -> Result<crate::site::PageView, crate::error::ErrorKind> {
    let base = root + seq!['/'] + path;
    match select_url(s, base, Format::Html) {
        Err(e) => Err(e),
        Ok(html) => {
            let formats = crate::maps::insert_entry(
                crate::maps::insert_entry(
                    crate::maps::insert_entry(
                        crate::maps::insert_entry(
                            crate::maps::insert_entry(Seq::empty(), "HTML"@, html),
                            "CSV"@,
                            select_url(s, base, Format::Csv)->Ok_0,
                        ),
                        "TSV"@,
                        select_url(s, base, Format::Tsv)->Ok_0,
                    ),
                    "JSON"@,
                    select_url(s, base, Format::Json)->Ok_0,
                ),
                "JSON (Pretty)"@,
                select_url(s, base, Format::PrettyJson)->Ok_0,
            );
            Ok(crate::site::PageView {
                path,
                formats,
                tabs: Seq::new(tabs.len(), |i: int| crate::site::TabView {
                    table: tabs[i],
                    active: tabs[i] == s.table_name,
                    url: select_url(tab_select(s, tabs[i]), base, Format::Default)->Ok_0,
                    count: select_url(count_select(s, tabs[i]), base, Format::ValueJson)->Ok_0,
                }),
            })
        },
    }
}

proof fn lemma_url_formats(s: SelectView, base: Seq<char>, f: Format, g: Format)
    ensures
        select_url(s, base, f) is Ok <==> select_url(s, base, g) is Ok,
        select_url(s, base, f) is Err ==> select_url(s, base, g) == select_url(s, base, f),
{
}

impl Select {
    /// The URL in the given format, known to succeed.
    fn url_in(&self, base: &str, format: Format) -> (r: String)
        requires
            select_url(self@, base@, Format::Html) is Ok,
        ensures
            select_url(self@, base@, format) == Ok::<Seq<char>, crate::error::ErrorKind>(r@),
    {
        proof {
            lemma_url_formats(self@, base@, Format::Html, format);
        }
        match self.to_url(base, &format) {
            Ok(u) => u,
            Err(_) => {
                assert(false);
                String::new()
            },
        }
    }

    /// The select for another table.
    fn for_table(&self, table: &String) -> (r: Select)
        ensures
            r@ == tab_select(self@, table@),
    {
        let mut s = self.clone();
        let ghost before = s@;
        s.table_name = table.clone();
        assert(s@.filters =~= before.filters);
        s
    }

    /// The page for the select at `root/path`: links to its HTML, CSV, TSV, JSON and pretty
    /// JSON forms, and a tab for each of the given tables with links to its rows and their count.
    pub fn to_page(&self, root: &str, path: &str, tabs: &Vec<String>) -> (r: Result<crate::site::Page, crate::error::RelatableError>)
        requires
            select_url(self@, root@ + seq!['/'] + path@, Format::Html) is Ok ==> tabs_ok(self@, root@ + seq!['/'] + path@, views(tabs@)),
        ensures
            match r {
                Ok(p) => page_spec(self@, root@, path@, views(tabs@)) == Ok::<crate::site::PageView, crate::error::ErrorKind>(p@),
                Err(e) => page_spec(self@, root@, path@, views(tabs@)) == Err::<crate::site::PageView, crate::error::ErrorKind>(e.kind()),
            },
    {
        let ghost s = self@;
        let mut base = owned(root);
        push_char(&mut base, '/');
        base.append(path);
        assert(base@ =~= root@ + seq!['/'] + path@);
        let html = match self.to_url(base.as_str(), &Format::Html) {
            Ok(u) => u,
            Err(e) => return Err(e),
        };
        let mut formats = crate::maps::string_map_new();
        crate::maps::string_map_insert(&mut formats, owned("HTML"), html);
        crate::maps::string_map_insert(&mut formats, owned("CSV"), self.url_in(base.as_str(), Format::Csv));
        crate::maps::string_map_insert(&mut formats, owned("TSV"), self.url_in(base.as_str(), Format::Tsv));
        crate::maps::string_map_insert(&mut formats, owned("JSON"), self.url_in(base.as_str(), Format::Json));
        crate::maps::string_map_insert(&mut formats, owned("JSON (Pretty)"), self.url_in(base.as_str(), Format::PrettyJson));
        let mut out: Vec<crate::site::Tab> = Vec::new();
        let mut i: usize = 0;
        while i < tabs.len()
            invariant
                s == self@,
                base@ == root@ + seq!['/'] + path@,
                tabs_ok(s, base@, views(tabs@)),
                i <= tabs.len(),
                out@.len() == i,
                forall|k: int| 0 <= k < i ==> #[trigger] out@[k]@ == (crate::site::TabView {
                    table: tabs@[k]@,
                    active: tabs@[k]@ == s.table_name,
                    url: select_url(tab_select(s, tabs@[k]@), base@, Format::Default)->Ok_0,
                    count: select_url(count_select(s, tabs@[k]@), base@, Format::ValueJson)->Ok_0,
                }),
            decreases tabs.len() - i,
        {
            let t = &tabs[i];
            assert(views(tabs@)[i as int] == t@);
            let ts = self.for_table(t);
            let mut c = ts.clone();
            c.select_expression("count()", "count");
            assert(c@ == count_select(s, t@));
            let url = match ts.to_url(base.as_str(), &Format::Default) {
                Ok(u) => u,
                Err(_) => {
                    assert(false);
                    String::new()
                },
            };
            let count = match c.to_url(base.as_str(), &Format::ValueJson) {
                Ok(u) => u,
                Err(_) => {
                    assert(false);
                    String::new()
                },
            };
            let active = str_eq(t.as_str(), self.table_name.as_str());
            out.push(crate::site::Tab { table: t.clone(), active, url, count });
            i = i + 1;
        }
        let page = crate::site::Page { path: owned(path), formats, tabs: out };
        assert(page@.tabs =~= page_spec(s, root@, path@, views(tabs@))->Ok_0.tabs);
        Ok(page)
    }

    /// The page for the select, when the links of all its tabs can be made; `None` when
    /// the select's own links can be made but those of some tab cannot.
    pub fn try_to_page(&self, root: &str, path: &str, tabs: &Vec<String>) -> (r: Option<Result<crate::site::Page, crate::error::RelatableError>>)
        ensures
            r is None <==> (select_url(self@, root@ + seq!['/'] + path@, Format::Html) is Ok
                && !tabs_ok(self@, root@ + seq!['/'] + path@, views(tabs@))),
            r matches Some(Ok(p)) ==> page_spec(self@, root@, path@, views(tabs@)) == Ok::<crate::site::PageView, crate::error::ErrorKind>(p@),
            r matches Some(Err(e)) ==> page_spec(self@, root@, path@, views(tabs@)) == Err::<crate::site::PageView, crate::error::ErrorKind>(e.kind()),
    {
        let ghost s = self@;
        let mut base = owned(root);
        push_char(&mut base, '/');
        base.append(path);
        assert(base@ =~= root@ + seq!['/'] + path@);
        let h = self.to_url(base.as_str(), &Format::Html);
        if h.is_ok() {
            assert(select_url(s, base@, Format::Html) is Ok);
            let mut i: usize = 0;
            while i < tabs.len()
                invariant
                    s == self@,
                    select_url(s, base@, Format::Html) is Ok,
                    base@ == root@ + seq!['/'] + path@,
                    i <= tabs.len(),
                    forall|k: int| 0 <= k < i ==> (#[trigger] select_url(tab_select(s, views(tabs@)[k]), base@, Format::Default)) is Ok
                        && select_url(count_select(s, views(tabs@)[k]), base@, Format::ValueJson) is Ok,
                decreases tabs.len() - i,
            {
                let t = &tabs[i];
                assert(views(tabs@)[i as int] == t@);
                let ts = self.for_table(t);
                let mut c = ts.clone();
                c.select_expression("count()", "count");
                let u1 = ts.to_url(base.as_str(), &Format::Default);
                let u2 = c.to_url(base.as_str(), &Format::ValueJson);
                if u1.is_err() || u2.is_err() {
                    assert(!((select_url(tab_select(s, views(tabs@)[i as int]), base@, Format::Default)) is Ok
                        && select_url(count_select(s, views(tabs@)[i as int]), base@, Format::ValueJson) is Ok));
                    assert(!tabs_ok(s, base@, views(tabs@)));
                    return None;
                }
                i = i + 1;
            }
            assert(tabs_ok(s, base@, views(tabs@)));
        }
        Some(self.to_page(root, path, tabs))
    }
}


// ---------------------------------------------------------------------------
// Filters written as text
// ---------------------------------------------------------------------------

/// `column ~= value`, the value with `%` wildcards.
pub const LIKE_PATTERN: &'static str = r#"^([\w\-]+)\s*~=\s*"?([\w\-%]+)"?$"#;
/// `column = value`.
pub const EQ_PATTERN: &'static str = r#"^([\w\-]+)\s*=\s*"?([\w\-]+)"?$"#;
/// `column != value`.
pub const NOT_EQ_PATTERN: &'static str = r#"^([\w\-]+)\s*!=\s*"?([\w\-]+)"?$"#;
/// `column > value`.
pub const GT_PATTERN: &'static str = r"^([\w\-]+)\s*>\s*([\w\-]+)$";
/// `column >= value`.
pub const GTE_PATTERN: &'static str = r"^([\w\-]+)\s*>=\s*([\w\-]+)$";
/// `column < value`.
pub const LT_PATTERN: &'static str = r"^([\w\-]+)\s*<\s*([\w\-]+)$";
/// `column <= value`.
pub const LTE_PATTERN: &'static str = r"^([\w\-]+)\s*<=\s*([\w\-]+)$";
/// `column IS value`.
pub const IS_PATTERN: &'static str = r#"^([\w\-]+)\s+(IS|is)\s+"?([\w\-]+)"?$"#;
/// `column IS NOT value`.
pub const IS_NOT_PATTERN: &'static str = r#"^([\w\-]+)\s+(IS NOT|is not)\s+"?([\w\-]+)"?$"#;
/// `column IN (value, ...)`.
pub const IN_PATTERN: &'static str = r"^([\w\-]+)\s+(IN|in)\s+\(([\w\-]+(,\s*[\w\-]+)*)\)$";
/// `column NOT IN (value, ...)`.
pub const NOT_IN_PATTERN: &'static str = r"^([\w\-]+)\s+(NOT IN|not in)\s+\(([\w\-]+(,\s*[\w\-]+)*)\)$";
/// The separator of the values of a list.
pub const LIST_SEPARATOR: &'static str = r"\s*,\s*";

/// True when all the patterns of filters are valid.
pub open spec fn filter_patterns_valid() -> bool {
    &&& crate::pattern::regex_valid(LIKE_PATTERN@)
    &&& crate::pattern::regex_valid(EQ_PATTERN@)
    &&& crate::pattern::regex_valid(NOT_EQ_PATTERN@)
    &&& crate::pattern::regex_valid(GT_PATTERN@)
    &&& crate::pattern::regex_valid(GTE_PATTERN@)
    &&& crate::pattern::regex_valid(LT_PATTERN@)
    &&& crate::pattern::regex_valid(LTE_PATTERN@)
    &&& crate::pattern::regex_valid(IS_PATTERN@)
    &&& crate::pattern::regex_valid(IS_NOT_PATTERN@)
    &&& crate::pattern::regex_valid(IN_PATTERN@)
    &&& crate::pattern::regex_valid(NOT_IN_PATTERN@)
    &&& crate::pattern::regex_valid(LIST_SEPARATOR@)
}

/// Whether the patterns of filters are valid (see [filter_patterns_valid]).
pub fn filter_patterns_ok() -> (r: bool)
    ensures
        r == filter_patterns_valid(),
{
    crate::pattern::pattern_valid(LIKE_PATTERN) && crate::pattern::pattern_valid(EQ_PATTERN)
        && crate::pattern::pattern_valid(NOT_EQ_PATTERN) && crate::pattern::pattern_valid(GT_PATTERN)
        && crate::pattern::pattern_valid(GTE_PATTERN) && crate::pattern::pattern_valid(LT_PATTERN)
        && crate::pattern::pattern_valid(LTE_PATTERN) && crate::pattern::pattern_valid(IS_PATTERN)
        && crate::pattern::pattern_valid(IS_NOT_PATTERN) && crate::pattern::pattern_valid(IN_PATTERN)
        && crate::pattern::pattern_valid(NOT_IN_PATTERN) && crate::pattern::pattern_valid(LIST_SEPARATOR)
}

/// The value that a filter's text denotes: an `i64` integer, else a floating-point number
/// (null when it is not finite), else JSON text in quotes, else the text as a JSON string;
/// `None` when that text is not valid JSON.
pub open spec fn parse_value(v: Seq<char>) -> Option<Json> {
    match crate::text::parse_int_spec(v) {
        Some(n) if i64::MIN <= n <= i64::MAX => Some(Json::Int(n)),
        _ => match crate::json::float_literal_spec(v) {
            Some(Some(t)) => Some(Json::Float(t)),
            Some(None) => Some(Json::Null),
            None => if "\""@.is_prefix_of(v) {
                crate::json::json_parse_spec(v)
            } else {
                crate::json::json_parse_spec(seq!['"'] + v + seq!['"'])
            },
        },
    }
}

/// A list item of a filter: its JSON value, or the text itself when it is not JSON.
pub open spec fn list_item(v: Seq<char>) -> Json {
    match crate::json::json_parse_spec(v) {
        Some(j) => j,
        None => Json::Str(v),
    }
}

/// The captures of a pattern in a text.
pub open spec fn caps(p: Seq<char>, t: Seq<char>) -> Option<Seq<Option<Seq<char>>>> {
    crate::pattern::regex_captures_spec(p, t)
}

/// A filter on a single value from its captures: column in group 1, value in group `vg`.
pub open spec fn value_filter(op: FilterOp, g: Seq<Option<Seq<char>>>, vg: int) -> Result<FilterView, crate::error::ErrorKind> {
    match parse_value(crate::sql::group_or_empty(g, vg)) {
        Some(v) => Ok(FilterView::Value(op, Seq::empty(), crate::sql::group_or_empty(g, 1), v)),
        None => Err(crate::error::ErrorKind::Input),
    }
}

/// An IS or IS NOT filter from its captures: `null` in any case is null.
pub open spec fn is_filter(op: FilterOp, g: Seq<Option<Seq<char>>>) -> Result<FilterView, crate::error::ErrorKind> {
    let v = crate::sql::group_or_empty(g, 3);
    if crate::text::lowercase_spec(v) == "null"@ {
        Ok(FilterView::Value(op, Seq::empty(), crate::sql::group_or_empty(g, 1), Json::Null))
    } else {
        value_filter(op, g, 3)
    }
}

/// An IN or NOT IN filter from its captures: the list's items split at commas.
pub open spec fn list_filter(op: FilterOp, g: Seq<Option<Seq<char>>>) -> FilterView {
    FilterView::Value(op, Seq::empty(), crate::sql::group_or_empty(g, 1), Json::Arr(
        crate::pattern::regex_split_spec(LIST_SEPARATOR@, crate::sql::group_or_empty(g, 3)).map_values(|x: Seq<char>| list_item(x)),
    ))
}

/// The filter a text denotes, trying `~=`, `=`, `!=`, `>`, `>=`, `<`, `<=`, IS, IS NOT, IN
/// and NOT IN in turn; a configuration error when none matches, an input error when the value
/// cannot be read.
pub open spec fn parse_filter(t: Seq<char>) -> Result<FilterView, crate::error::ErrorKind> {
    if caps(LIKE_PATTERN@, t) is Some {
        value_filter(FilterOp::Like, caps(LIKE_PATTERN@, t)->0, 2)
    } else if caps(EQ_PATTERN@, t) is Some {
        value_filter(FilterOp::Equal, caps(EQ_PATTERN@, t)->0, 2)
    } else if caps(NOT_EQ_PATTERN@, t) is Some {
        value_filter(FilterOp::NotEqual, caps(NOT_EQ_PATTERN@, t)->0, 2)
    } else if caps(GT_PATTERN@, t) is Some {
        value_filter(FilterOp::GreaterThan, caps(GT_PATTERN@, t)->0, 2)
    } else if caps(GTE_PATTERN@, t) is Some {
        value_filter(FilterOp::GreaterThanOrEqual, caps(GTE_PATTERN@, t)->0, 2)
    } else if caps(LT_PATTERN@, t) is Some {
        value_filter(FilterOp::LessThan, caps(LT_PATTERN@, t)->0, 2)
    } else if caps(LTE_PATTERN@, t) is Some {
        value_filter(FilterOp::LessThanOrEqual, caps(LTE_PATTERN@, t)->0, 2)
    } else if caps(IS_PATTERN@, t) is Some {
        is_filter(FilterOp::Is, caps(IS_PATTERN@, t)->0)
    } else if caps(IS_NOT_PATTERN@, t) is Some {
        is_filter(FilterOp::IsNot, caps(IS_NOT_PATTERN@, t)->0)
    } else if caps(IN_PATTERN@, t) is Some {
        Ok(list_filter(FilterOp::In, caps(IN_PATTERN@, t)->0))
    } else if caps(NOT_IN_PATTERN@, t) is Some {
        Ok(list_filter(FilterOp::NotIn, caps(NOT_IN_PATTERN@, t)->0))
    } else {
        Err(crate::error::ErrorKind::Config)
    }
}

/// The filters the texts denote, the first `n` of them, after those already there.
pub open spec fn parse_filters(start: Seq<FilterView>, texts: Seq<Seq<char>>, n: nat) -> Result<Seq<FilterView>, crate::error::ErrorKind>
    decreases n,
{
    if n == 0 || n > texts.len() {
        Ok(start)
    } else {
        match parse_filters(start, texts, (n - 1) as nat) {
            Err(e) => Err(e),
            Ok(fs) => match parse_filter(texts[n - 1]) {
                Err(e) => Err(e),
                Ok(f) => Ok(fs.push(f)),
            },
        }
    }
}

proof fn lemma_parse_filters_err(start: Seq<FilterView>, texts: Seq<Seq<char>>, m: nat, n: nat)
    requires
        m <= n <= texts.len(),
        parse_filters(start, texts, m) is Err,
    ensures
        parse_filters(start, texts, n) == parse_filters(start, texts, m),
    decreases n - m,
{
    if m < n {
        lemma_parse_filters_err(start, texts, m, (n - 1) as nat);
    }
}

/// The value a filter's text denotes.
fn parse_as_value(value: &str) -> (r: Option<JsonValue>)
    ensures
        match r {
            Some(v) => parse_value(value@) == Some(v@),
            None => parse_value(value@) is None,
        },
{
    match crate::text::parse_i64(value) {
        Some(n) => Some(crate::json::json_i64(n)),
        None => match crate::json::float_literal(value) {
            Some(Some(t)) => Some(JsonValue::Number(JsonNumber::Float(t))),
            Some(None) => Some(JsonValue::Null),
            None => {
                if crate::text::starts_with(value, "\"") {
                    crate::json::json_parse(value)
                } else {
                    crate::json::json_parse(dquote(value).as_str())
                }
            },
        },
    }
}

/// The captures of the pattern in the text, if it matches.
fn capture(pattern: &str, text: &str) -> (r: Option<Vec<Option<String>>>)
    ensures
        crate::pattern::regex_valid(pattern@) ==> match r {
            Some(g) => caps(pattern@, text@) == Some(crate::pattern::opt_views(g@)),
            None => caps(pattern@, text@) is None,
        },
{
    match crate::pattern::regex_captures(pattern, text) {
        Ok(c) => c,
        Err(_) => None,
    }
}

fn value_filter_of(op: FilterOp, g: &Vec<Option<String>>, vg: usize) -> (r: Result<Filter, crate::error::RelatableError>)
    ensures
        match r {
            Ok(f) => value_filter(op, crate::pattern::opt_views(g@), vg as int) == Ok::<FilterView, crate::error::ErrorKind>(f@),
            Err(e) => value_filter(op, crate::pattern::opt_views(g@), vg as int) == Err::<FilterView, crate::error::ErrorKind>(e.kind()),
        },
{
    let column = crate::sql::group_text(g, 1);
    let text = crate::sql::group_text(g, vg);
    let value = match parse_as_value(text.as_str()) {
        Some(v) => v,
        None => {
            let mut m = owned("could not read the value ");
            m.append(text.as_str());
            return Err(crate::error::RelatableError::InputError(m));
        },
    };
    let table = String::new();
    Ok(match op {
        FilterOp::Like => Filter::Like { table, column, value },
        FilterOp::Equal => Filter::Equal { table, column, value },
        FilterOp::NotEqual => Filter::NotEqual { table, column, value },
        FilterOp::GreaterThan => Filter::GreaterThan { table, column, value },
        FilterOp::GreaterThanOrEqual => Filter::GreaterThanOrEqual { table, column, value },
        FilterOp::LessThan => Filter::LessThan { table, column, value },
        FilterOp::LessThanOrEqual => Filter::LessThanOrEqual { table, column, value },
        FilterOp::Is => Filter::Is { table, column, value },
        FilterOp::IsNot => Filter::IsNot { table, column, value },
        FilterOp::In => Filter::In { table, column, value },
        FilterOp::NotIn => Filter::NotIn { table, column, value },
    })
}

fn is_filter_of(negated: bool, g: &Vec<Option<String>>) -> (r: Result<Filter, crate::error::RelatableError>)
    ensures
        match r {
            Ok(f) => is_filter(if negated { FilterOp::IsNot } else { FilterOp::Is }, crate::pattern::opt_views(g@))
                == Ok::<FilterView, crate::error::ErrorKind>(f@),
            Err(e) => is_filter(if negated { FilterOp::IsNot } else { FilterOp::Is }, crate::pattern::opt_views(g@))
                == Err::<FilterView, crate::error::ErrorKind>(e.kind()),
        },
{
    let text = crate::sql::group_text(g, 3);
    if str_eq(crate::text::to_lowercase(text.as_str()).as_str(), "null") {
        let column = crate::sql::group_text(g, 1);
        let table = String::new();
        if negated {
            Ok(Filter::IsNot { table, column, value: JsonValue::Null })
        } else {
            Ok(Filter::Is { table, column, value: JsonValue::Null })
        }
    } else {
        value_filter_of(if negated { FilterOp::IsNot } else { FilterOp::Is }, g, 3)
    }
}

fn list_filter_of(negated: bool, g: &Vec<Option<String>>) -> (r: Filter)
    ensures
        crate::pattern::regex_valid(LIST_SEPARATOR@) ==> r@ == list_filter(if negated { FilterOp::NotIn } else { FilterOp::In },
            crate::pattern::opt_views(g@)),
{
    let column = crate::sql::group_text(g, 1);
    let text = crate::sql::group_text(g, 3);
    let pieces = match crate::pattern::regex_split(LIST_SEPARATOR, text.as_str()) {
        Ok(p) => p,
        Err(_) => Vec::new(),
    };
    let mut items: Vec<JsonValue> = Vec::new();
    let mut i: usize = 0;
    while i < pieces.len()
        invariant
            i <= pieces.len(),
            items@.len() == i,
            forall|k: int| 0 <= k < i ==> #[trigger] items@[k]@ == list_item(pieces@[k]@),
        decreases pieces.len() - i,
    {
        let item = match crate::json::json_parse(pieces[i].as_str()) {
            Some(j) => j,
            None => json_str(pieces[i].as_str()),
        };
        items.push(item);
        i = i + 1;
    }
    let value = json_list(items);
    assert(crate::pattern::regex_valid(LIST_SEPARATOR@) ==> value@ == Json::Arr(
        crate::pattern::regex_split_spec(LIST_SEPARATOR@, text@).map_values(|x: Seq<char>| list_item(x)))) by {
        if crate::pattern::regex_valid(LIST_SEPARATOR@) {
            if let Json::Arr(a) = value@ {
                assert(a =~= crate::pattern::regex_split_spec(LIST_SEPARATOR@, text@).map_values(|x: Seq<char>| list_item(x)));
            }
        }
    }
    let table = String::new();
    if negated {
        Filter::NotIn { table, column, value }
    } else {
        Filter::In { table, column, value }
    }
}

/// The filter a text denotes.
fn parse_filter_text(text: &str) -> (r: Result<Filter, crate::error::RelatableError>)
    ensures
        filter_patterns_valid() ==> match r {
            Ok(f) => parse_filter(text@) == Ok::<FilterView, crate::error::ErrorKind>(f@),
            Err(e) => parse_filter(text@) == Err::<FilterView, crate::error::ErrorKind>(e.kind()),
        },
        match r {
            Err(e) => e.kind() == crate::error::ErrorKind::Config ==> e.message_view() == "invalid filter "@ + text@,
            Ok(_) => true,
        },
{
    if let Some(g) = capture(LIKE_PATTERN, text) {
        return value_filter_of(FilterOp::Like, &g, 2);
    }
    if let Some(g) = capture(EQ_PATTERN, text) {
        return value_filter_of(FilterOp::Equal, &g, 2);
    }
    if let Some(g) = capture(NOT_EQ_PATTERN, text) {
        return value_filter_of(FilterOp::NotEqual, &g, 2);
    }
    if let Some(g) = capture(GT_PATTERN, text) {
        return value_filter_of(FilterOp::GreaterThan, &g, 2);
    }
    if let Some(g) = capture(GTE_PATTERN, text) {
        return value_filter_of(FilterOp::GreaterThanOrEqual, &g, 2);
    }
    if let Some(g) = capture(LT_PATTERN, text) {
        return value_filter_of(FilterOp::LessThan, &g, 2);
    }
    if let Some(g) = capture(LTE_PATTERN, text) {
        return value_filter_of(FilterOp::LessThanOrEqual, &g, 2);
    }
    if let Some(g) = capture(IS_PATTERN, text) {
        return is_filter_of(false, &g);
    }
    if let Some(g) = capture(IS_NOT_PATTERN, text) {
        return is_filter_of(true, &g);
    }
    if let Some(g) = capture(IN_PATTERN, text) {
        return Ok(list_filter_of(false, &g));
    }
    if let Some(g) = capture(NOT_IN_PATTERN, text) {
        return Ok(list_filter_of(true, &g));
    }
    let mut m = owned("invalid filter ");
    m.append(text);
    Err(crate::error::RelatableError::ConfigError(m))
}

impl Select {
    /// Add the filters written as text, such as `column = value`, `column ~= val%`,
    /// `column IS NOT null` or `column IN (a, b)`. Text that is no filter is a
    /// configuration error; a value that cannot be read is an input error.
    #[verifier::loop_isolation(false)]
    pub fn filters(self, filters: &Vec<String>) -> (r: Result<Self, crate::error::RelatableError>)
        ensures
            filter_patterns_valid() ==> match r {
                Ok(s) => parse_filters(self@.filters, views(filters@), filters@.len()) == Ok::<Seq<FilterView>, crate::error::ErrorKind>(s@.filters)
                    && s@ == (SelectView { filters: s@.filters, ..self@ }),
                Err(e) => parse_filters(self@.filters, views(filters@), filters@.len()) == Err::<Seq<FilterView>, crate::error::ErrorKind>(e.kind())
                    && (e.kind() == crate::error::ErrorKind::Config ==> exists|i: int| 0 <= i < filters@.len()
                        && parse_filters(self@.filters, views(filters@), i as nat) is Ok
                        && #[trigger] parse_filter(filters@[i]@) == Err::<FilterView, crate::error::ErrorKind>(crate::error::ErrorKind::Config)
                        && e.message_view() == "invalid filter "@ + filters@[i]@),
            },
    {
        let ghost start = self@;
        let mut s = self;
        let mut i: usize = 0;
        while i < filters.len()
            invariant
                i <= filters.len(),
                s@ == (SelectView { filters: s@.filters, ..start }),
                filter_patterns_valid() ==> parse_filters(start.filters, views(filters@), i as nat)
                    == Ok::<Seq<FilterView>, crate::error::ErrorKind>(s@.filters),
            decreases filters.len() - i,
        {
            assert(views(filters@)[i as int] == filters@[i as int]@);
            match parse_filter_text(filters[i].as_str()) {
                Ok(f) => {
                    let ghost before = s@;
                    s.push_filter(f);
                    assert(filter_patterns_valid() ==> parse_filters(start.filters, views(filters@), (i + 1) as nat)
                        == Ok::<Seq<FilterView>, crate::error::ErrorKind>(s@.filters));
                },
                Err(e) => {
                    proof {
                        if filter_patterns_valid() {
                            assert(parse_filter(filters@[i as int]@) == Err::<FilterView, crate::error::ErrorKind>(e.kind()));
                            assert(parse_filters(start.filters, views(filters@), (i + 1) as nat)
                                == Err::<Seq<FilterView>, crate::error::ErrorKind>(e.kind()));
                            lemma_parse_filters_err(start.filters, views(filters@), (i + 1) as nat, filters@.len());
                        }
                    }
                    return Err(e);
                },
            }
            i = i + 1;
        }
        Ok(s)
    }
}


// ---------------------------------------------------------------------------
// Selects from URL paths and query parameters
// ---------------------------------------------------------------------------

/// The map from query parameter names to their values.
pub type QueryParams = indexmap::IndexMap<String, String>;

/// The fields that a `select` query parameter lists: `count()` is an expression, anything
/// else a column.
pub open spec fn select_fields_of(v: Seq<char>) -> Seq<FieldView> {
    split_on(v, ',').map_values(|p: Seq<char>| if p == "count()"@ {
        FieldView::Expression(p, Seq::empty())
    } else {
        FieldView::Column(Seq::empty(), p, Seq::empty())
    })
}

/// A number from a query parameter, or the default when it is missing or not a `usize`.
pub open spec fn number_param(e: Seq<(Seq<char>, Seq<char>)>, key: Seq<char>, default: nat) -> nat {
    match crate::maps::lookup(e, key) {
        Some(v) => match crate::text::parse_nat_spec(v) {
            Some(n) => if n <= usize::MAX { n as nat } else { default },
            None => default,
        },
        None => default,
    }
}

/// An item of the `order` query parameter: `column.asc`, `column.desc`, or a column (ascending).
pub open spec fn order_item(item: Seq<char>) -> (Seq<char>, Order) {
    if ".asc"@.is_suffix_of(item) {
        (crate::text::replace_spec(item, ".asc"@, Seq::empty()), Order::ASC)
    } else if ".desc"@.is_suffix_of(item) {
        (crate::text::replace_spec(item, ".desc"@, Seq::empty()), Order::DESC)
    } else {
        (item, Order::ASC)
    }
}

/// True when `p` occurs somewhere in `s`.
pub open spec fn occurs_in(p: Seq<char>, s: Seq<char>) -> bool {
    exists|i: int| 0 <= i && i + p.len() <= s.len() && #[trigger] s.subrange(i, i + p.len()) == p
}

/// Where no occurrence of `from` starts inside `c`, replacing in `c + t` keeps `c` and
/// replaces in `t` only.
proof fn lemma_replace_keeps_head(c: Seq<char>, t: Seq<char>, from: Seq<char>)
    requires
        from.len() > 0,
        forall|i: int| 0 <= i < c.len() ==> !from.is_prefix_of(#[trigger] (c + t).skip(i)),
    ensures
        crate::text::replace_spec(c + t, from, Seq::empty()) == c + crate::text::replace_spec(t, from, Seq::empty()),
    decreases c.len(),
{
    if c.len() == 0 {
        assert(c + t =~= t);
    } else {
        let s = c + t;
        assert(s.skip(0) =~= s);
        assert(!from.is_prefix_of(s.skip(0)));
        if s.len() >= from.len() {
            assert(s.take(from.len() as int) != from) by {
                if s.take(from.len() as int) == from {
                    assert(from =~= s.subrange(0, from.len() as int));
                }
            }
        }
        let c1 = c.skip(1);
        assert(s.skip(1) =~= c1 + t);
        assert forall|i: int| 0 <= i < c1.len() implies !from.is_prefix_of(#[trigger] (c1 + t).skip(i)) by {
            assert((c1 + t).skip(i) =~= s.skip(i + 1));
        }
        lemma_replace_keeps_head(c1, t, from);
        assert(seq![s[0]] + (c1 + crate::text::replace_spec(t, from, Seq::empty()))
            =~= c + crate::text::replace_spec(t, from, Seq::empty()));
    }
}

/// Taking every `p` out of `c + p` leaves `c`, when `p` starts with its only `.` and does
/// not occur in `c`.
proof fn lemma_strip_suffix(c: Seq<char>, p: Seq<char>)
    requires
        p.len() > 0,
        p[0] == '.',
        forall|k: int| 1 <= k < p.len() ==> p[k] != '.',
        !occurs_in(p, c),
    ensures
        crate::text::replace_spec(c + p, p, Seq::empty()) == c,
{
    let s = c + p;
    assert forall|i: int| 0 <= i < c.len() implies !p.is_prefix_of(#[trigger] s.skip(i)) by {
        if p.is_prefix_of(s.skip(i)) {
            if i + p.len() <= c.len() {
                assert(c.subrange(i, i + p.len()) =~= p) by {
                    assert forall|k: int| 0 <= k < p.len() implies c.subrange(i, i + p.len())[k] == p[k] by {
                        assert(s.skip(i)[k] == p[k]);
                    }
                }
                assert(occurs_in(p, c));
            } else {
                let k = c.len() - i;
                assert(1 <= k < p.len());
                assert(s.skip(i)[k] == s[c.len() as int]);
                assert(s[c.len() as int] == p[0]);
                assert(s.skip(i)[k] == p[k]);
            }
        }
    }
    lemma_replace_keeps_head(c, p, p);
    assert(p.take(p.len() as int) =~= p);
    assert(p.skip(p.len() as int) =~= Seq::<char>::empty());
    assert(crate::text::replace_spec(Seq::<char>::empty(), p, Seq::empty()) == Seq::<char>::empty());
    assert(crate::text::replace_spec(p, p, Seq::empty())
        == Seq::<char>::empty() + crate::text::replace_spec(p.skip(p.len() as int), p, Seq::empty()));
    assert(crate::text::replace_spec(p, p, Seq::empty()) =~= Seq::<char>::empty());
    assert(c + Seq::<char>::empty() =~= c);
}

/// Each item of the `order` parameter sorts in the direction its suffix names: a column
/// followed by `.desc` sorts that column descending; followed by `.asc`, or with no
/// suffix, ascending.
pub proof fn lemma_order_item_direction(c: Seq<char>)
    ensures
        !occurs_in(".desc"@, c) ==> order_item(c + ".desc"@) == (c, Order::DESC),
        !occurs_in(".asc"@, c) ==> order_item(c + ".asc"@) == (c, Order::ASC),
        !".asc"@.is_suffix_of(c) && !".desc"@.is_suffix_of(c) ==> order_item(c) == (c, Order::ASC),
{
    reveal_strlit(".desc");
    reveal_strlit(".asc");
    let d = c + ".desc"@;
    let a = c + ".asc"@;
    if !occurs_in(".desc"@, c) {
        assert(!".asc"@.is_suffix_of(d)) by {
            assert(d[d.len() - 4] == 'd');
            if ".asc"@.is_suffix_of(d) {
                assert(d.subrange(d.len() - 4, d.len() as int)[0] == '.');
            }
        }
        assert(".desc"@.is_suffix_of(d)) by {
            assert(d.subrange(d.len() - 5, d.len() as int) =~= ".desc"@);
        }
        lemma_strip_suffix(c, ".desc"@);
    }
    if !occurs_in(".asc"@, c) {
        assert(".asc"@.is_suffix_of(a)) by {
            assert(a.subrange(a.len() - 4, a.len() as int) =~= ".asc"@);
        }
        lemma_strip_suffix(c, ".asc"@);
    }
}

/// The order that the `order` query parameter gives.
pub open spec fn order_of(e: Seq<(Seq<char>, Seq<char>)>) -> Seq<(Seq<char>, Order)> {
    match crate::maps::lookup(e, "order"@) {
        Some(v) => split_on(v, ',').map_values(|item: Seq<char>| order_item(item)),
        None => Seq::empty(),
    }
}

/// The position of the first `c` in the text, or -1.
pub open spec fn first_index(t: Seq<char>, c: char) -> int
    decreases t.len(),
{
    if t.len() == 0 {
        -1
    } else {
        let p = first_index(t.drop_last(), c);
        if p >= 0 { p } else if t.last() == c { t.len() - 1 } else { -1 }
    }
}

/// `table.column` split at its first `.`; a name with no `.` is a column with no table.
pub open spec fn split_lhs(lhs: Seq<char>) -> (Seq<char>, Seq<char>) {
    let p = first_index(lhs, '.');
    if p >= 0 { (lhs.take(p), lhs.skip(p + 1)) } else { (Seq::empty(), lhs) }
}

/// The datatype configured for the column of the first table with the given name.
pub open spec fn configured_datatype(tables: Seq<crate::table::TableView>, table: Seq<char>, column: Seq<char>) -> Option<Seq<char>>
    decreases tables.len(),
{
    if tables.len() == 0 {
        None
    } else if tables[0].name == table {
        match crate::maps::lookup(tables[0].columns, column) {
            Some(c) => Some(c.datatype),
            None => None,
        }
    } else {
        configured_datatype(tables.skip(1), table, column)
    }
}

/// Text as an `i64` integer, or as a JSON string when it is not one.
pub open spec fn int_or_text(v: Seq<char>) -> Json {
    match crate::text::parse_int_spec(v) {
        Some(n) => if i64::MIN <= n <= i64::MAX { Json::Int(n) } else { Json::Str(v) },
        None => Json::Str(v),
    }
}

/// Text as a floating-point number (null when it is not finite), or as a JSON string
/// when it is not one.
pub open spec fn decimal_or_text(v: Seq<char>) -> Json {
    match crate::json::float_literal_spec(v) {
        Some(Some(t)) => Json::Float(t),
        Some(None) => Json::Null,
        None => Json::Str(v),
    }
}

/// A filter value of a query parameter, by the column's datatype: the meta columns `_id`,
/// `_order` and `_change_id` are integers, `_history` and `_message` text; `integer` and
/// `decimal` columns are numbers where the text is one; anything else is text.
pub open spec fn value_as_type(datatype: Option<Seq<char>>, column: Seq<char>, value: Seq<char>) -> Json {
    if column == "_id"@ || column == "_order"@ || column == "_change_id"@ {
        int_or_text(value)
    } else if column == "_history"@ || column == "_message"@ {
        Json::Str(value)
    } else {
        match datatype {
            Some(d) => if d == "integer"@ {
                int_or_text(value)
            } else if d == "decimal"@ {
                decimal_or_text(value)
            } else {
                Json::Str(value)
            },
            None => Json::Str(value),
        }
    }
}

/// The text between the parentheses of `(...)`, or nothing.
pub open spec fn inner_list(v: Seq<char>) -> Seq<char> {
    if v.len() >= 2 && v[0] == '(' && v.last() == ')' { v.subrange(1, v.len() - 1) } else { Seq::empty() }
}

/// The operator of a query parameter's value and the prefix that names it.
pub open spec fn op_prefix(pattern: Seq<char>) -> Option<(FilterOp, Seq<char>)> {
    if "like."@.is_prefix_of(pattern) {
        Some((FilterOp::Like, "like."@))
    } else if "eq."@.is_prefix_of(pattern) {
        Some((FilterOp::Equal, "eq."@))
    } else if "not_eq."@.is_prefix_of(pattern) {
        Some((FilterOp::NotEqual, "not_eq."@))
    } else if "gt."@.is_prefix_of(pattern) {
        Some((FilterOp::GreaterThan, "gt."@))
    } else if "gte."@.is_prefix_of(pattern) {
        Some((FilterOp::GreaterThanOrEqual, "gte."@))
    } else if "lt."@.is_prefix_of(pattern) {
        Some((FilterOp::LessThan, "lt."@))
    } else if "lte."@.is_prefix_of(pattern) {
        Some((FilterOp::LessThanOrEqual, "lte."@))
    } else if "is."@.is_prefix_of(pattern) {
        Some((FilterOp::Is, "is."@))
    } else if "is_not."@.is_prefix_of(pattern) {
        Some((FilterOp::IsNot, "is_not."@))
    } else if "in."@.is_prefix_of(pattern) {
        Some((FilterOp::In, "in."@))
    } else if "not_in."@.is_prefix_of(pattern) {
        Some((FilterOp::NotIn, "not_in."@))
    } else {
        None
    }
}

/// The value of a query parameter's filter, from the text after the operator: JSON (or
/// text) for LIKE; `null` in any case for IS and IS NOT; a list for IN and NOT IN;
/// otherwise typed by the column's datatype.
pub open spec fn query_value(op: FilterOp, datatype: Option<Seq<char>>, column: Seq<char>, rest: Seq<char>) -> Json {
    match op {
        FilterOp::Like => match crate::json::json_parse_spec(rest) {
            Some(j) => j,
            None => Json::Str(rest),
        },
        FilterOp::Is | FilterOp::IsNot => if crate::text::lowercase_spec(rest) == "null"@ {
            Json::Null
        } else {
            value_as_type(datatype, column, rest)
        },
        FilterOp::In | FilterOp::NotIn => Json::Arr(
            crate::pattern::regex_split_spec(LIST_SEPARATOR@, inner_list(rest)).map_values(
                |v: Seq<char>| value_as_type(datatype, column, v),
            ),
        ),
        _ => value_as_type(datatype, column, rest),
    }
}

/// The filter of a query parameter `lhs=pattern`, whose table defaults to `base`;
/// `None` when the pattern has no known operator.
pub open spec fn query_filter(lhs: Seq<char>, pattern: Seq<char>, base: Seq<char>, tables: Seq<crate::table::TableView>) -> Option<FilterView> {
    let (table, column) = split_lhs(lhs);
    match op_prefix(pattern) {
        None => None,
        Some((op, prefix)) => Some(FilterView::Value(op, table, column, query_value(
            op,
            configured_datatype(tables, if table.len() == 0 { base } else { table }, column),
            column,
            crate::text::replace_spec(pattern, prefix, Seq::empty()),
        ))),
    }
}

/// The filters of the first `n` query parameters.
pub open spec fn query_filters(e: Seq<(Seq<char>, Seq<char>)>, base: Seq<char>, tables: Seq<crate::table::TableView>, n: nat) -> Seq<FilterView>
    decreases n,
{
    if n == 0 || n > e.len() {
        Seq::empty()
    } else {
        let prev = query_filters(e, base, tables, (n - 1) as nat);
        match query_filter(e[n - 1].0, e[n - 1].1, base, tables) {
            Some(f) => prev.push(f),
            None => prev,
        }
    }
}

/// The query parameters that are read as filters: all but `limit`, `offset` and `order`.
pub open spec fn filter_params(e: Seq<(Seq<char>, Seq<char>)>) -> Seq<(Seq<char>, Seq<char>)> {
    crate::maps::remove_entry(crate::maps::remove_entry(crate::maps::remove_entry(e, "limit"@), "offset"@), "order"@)
}

/// The table that a query parameter is about: the part of its name before the first `.`,
/// else the path's table.
pub open spec fn query_table(lhs: Seq<char>, base: Seq<char>) -> Seq<char> {
    if split_lhs(lhs).0.len() == 0 { base } else { split_lhs(lhs).0 }
}

/// True when the table of every parameter read as a filter is among the tables: each must
/// be found to read the select.
pub open spec fn query_tables_known(e: Seq<(Seq<char>, Seq<char>)>, base: Seq<char>, tables: Seq<crate::table::TableView>) -> bool {
    forall|i: int| 0 <= i < filter_params(e).len() ==> exists|t: int| 0 <= t < tables.len()
        && #[trigger] tables[t].name == query_table(#[trigger] filter_params(e)[i].0, base)
}

/// The select that a URL path and its query parameters describe.
pub open spec fn path_query_select(path: Seq<char>, e: Seq<(Seq<char>, Seq<char>)>, tables: Seq<crate::table::TableView>) -> SelectView {
    let base = split_on(path, '.')[0];
    let rest = filter_params(e);
    SelectView {
        table_name: base,
        view_name: Seq::empty(),
        select: match crate::maps::lookup(e, "select"@) {
            Some(v) => select_fields_of(v),
            None => Seq::empty(),
        },
        joins: Seq::empty(),
        limit: number_param(e, "limit"@, DEFAULT_LIMIT as nat),
        offset: number_param(e, "offset"@, 0),
        filters: query_filters(rest, base, tables, rest.len()),
        order_by: order_of(e),
    }
}


proof fn lemma_split_on_without_sep(t: Seq<char>, c: char)
    requires
        forall|i: int| 0 <= i < t.len() ==> t[i] != c,
    ensures
        split_on(t, c) == seq![t],
    decreases t.len(),
{
    if t.len() == 0 {
        assert(t =~= Seq::<char>::empty());
    } else {
        lemma_split_on_without_sep(t.drop_last(), c);
        assert(t.drop_last().push(t.last()) =~= t);
        assert(seq![t.drop_last()].update(0, t.drop_last().push(t.last())) =~= seq![t]);
    }
}

/// The order a URL asks for is the order of the select read from it: `order=c.desc` sorts
/// the rows by `c` descending, `order=c.asc` and `order=c` by `c` ascending.
pub proof fn lemma_url_order_direction(path: Seq<char>, e: Seq<(Seq<char>, Seq<char>)>,
    tables: Seq<crate::table::TableView>, c: Seq<char>)
    requires
        forall|i: int| 0 <= i < c.len() ==> c[i] != ',',
    ensures
        crate::maps::lookup(e, "order"@) == Some(c + ".desc"@) && !occurs_in(".desc"@, c)
            ==> path_query_select(path, e, tables).order_by == seq![(c, Order::DESC)],
        crate::maps::lookup(e, "order"@) == Some(c + ".asc"@) && !occurs_in(".asc"@, c)
            ==> path_query_select(path, e, tables).order_by == seq![(c, Order::ASC)],
        crate::maps::lookup(e, "order"@) == Some(c) && !".asc"@.is_suffix_of(c) && !".desc"@.is_suffix_of(c)
            ==> path_query_select(path, e, tables).order_by == seq![(c, Order::ASC)],
{
    reveal_strlit(".desc");
    reveal_strlit(".asc");
    lemma_order_item_direction(c);
    let d = c + ".desc"@;
    let a = c + ".asc"@;
    assert forall|i: int| 0 <= i < d.len() implies d[i] != ',' by {
        if i >= c.len() {
            assert(d[i] == ".desc"@[i - c.len()]);
        }
    }
    assert forall|i: int| 0 <= i < a.len() implies a[i] != ',' by {
        if i >= c.len() {
            assert(a[i] == ".asc"@[i - c.len()]);
        }
    }
    lemma_split_on_without_sep(d, ',');
    lemma_split_on_without_sep(a, ',');
    lemma_split_on_without_sep(c, ',');
    assert(seq![d].map_values(|item: Seq<char>| order_item(item)) =~= seq![order_item(d)]);
    assert(seq![a].map_values(|item: Seq<char>| order_item(item)) =~= seq![order_item(a)]);
    assert(seq![c].map_values(|item: Seq<char>| order_item(item)) =~= seq![order_item(c)]);
}

fn order_item_of(item: &str) -> (r: (String, Order))
    ensures
        (r.0@, r.1) == order_item(item@),
{
    proof {
        reveal_strlit(".asc");
        reveal_strlit(".desc");
    }
    if crate::text::ends_with(item, ".asc") {
        (without(item, ".asc"), Order::ASC)
    } else if crate::text::ends_with(item, ".desc") {
        (without(item, ".desc"), Order::DESC)
    } else {
        (owned(item), Order::ASC)
    }
}

fn split_lhs_of(lhs: &str) -> (r: (String, String))
    ensures
        (r.0@, r.1@) == split_lhs(lhs@),
{
    let v = crate::text::chars_of(lhs);
    let mut i: usize = 0;
    while i < v.len()
        invariant
            v@ == lhs@,
            i <= v.len(),
            first_index(v@.take(i as int), '.') == -1,
        decreases v.len() - i,
    {
        assert(v@.take(i + 1).drop_last() =~= v@.take(i as int));
        if v[i] == '.' {
            proof {
                lemma_first_index_prefix(v@, i as int);
            }
            return (crate::text::string_of(&v, 0, i), crate::text::string_of(&v, i + 1, v.len()));
        }
        i = i + 1;
    }
    assert(v@.take(i as int) =~= v@);
    (String::new(), owned(lhs))
}

proof fn lemma_first_index_prefix(t: Seq<char>, i: int)
    requires
        0 <= i < t.len(),
        t[i] == '.',
        first_index(t.take(i), '.') == -1,
    ensures
        first_index(t, '.') == i,
    decreases t.len(),
{
    if i < t.len() - 1 {
        assert(t.drop_last().take(i) =~= t.take(i));
        lemma_first_index_prefix(t.drop_last(), i);
    } else {
        assert(t.drop_last() =~= t.take(i));
    }
}

fn configured_datatype_of(tables: &Vec<crate::table::Table>, table: &str, column: &str) -> (r: Option<String>)
    ensures
        match r {
            Some(d) => configured_datatype(tables@.map_values(|t: crate::table::Table| t@), table@, column@) == Some(d@),
            None => configured_datatype(tables@.map_values(|t: crate::table::Table| t@), table@, column@) is None,
        },
{
    let ghost tv = tables@.map_values(|t: crate::table::Table| t@);
    let mut i: usize = 0;
    assert(tv.skip(0) =~= tv);
    while i < tables.len()
        invariant
            tv == tables@.map_values(|t: crate::table::Table| t@),
            i <= tables.len(),
            configured_datatype(tv, table@, column@) == configured_datatype(tv.skip(i as int), table@, column@),
        decreases tables.len() - i,
    {
        assert(tv.skip(i as int)[0] == tables@[i as int]@);
        if str_eq(tables[i].name.as_str(), table) {
            return match tables[i].column_config(column) {
                Some(c) => Some(c.datatype.clone()),
                None => None,
            };
        }
        assert(tv.skip(i as int).skip(1) =~= tv.skip(i + 1));
        i = i + 1;
    }
    None
}

fn int_or_text_of(v: &str) -> (r: JsonValue)
    ensures
        r@ == int_or_text(v@),
{
    match crate::text::parse_i64(v) {
        Some(n) => crate::json::json_i64(n),
        None => json_str(v),
    }
}

fn value_as_type_of(datatype: &Option<String>, column: &str, value: &str) -> (r: JsonValue)
    ensures
        r@ == value_as_type(match datatype { Some(d) => Some(d@), None => None }, column@, value@),
{
    if str_eq(column, "_id") || str_eq(column, "_order") || str_eq(column, "_change_id") {
        int_or_text_of(value)
    } else if str_eq(column, "_history") || str_eq(column, "_message") {
        json_str(value)
    } else {
        match datatype {
            Some(d) => {
                if str_eq(d.as_str(), "integer") {
                    int_or_text_of(value)
                } else if str_eq(d.as_str(), "decimal") {
                    match crate::json::float_literal(value) {
                        Some(Some(t)) => JsonValue::Number(JsonNumber::Float(t)),
                        Some(None) => JsonValue::Null,
                        None => json_str(value),
                    }
                } else {
                    json_str(value)
                }
            },
            None => json_str(value),
        }
    }
}

fn inner_list_of(v: &str) -> (r: String)
    ensures
        r@ == inner_list(v@),
{
    let c = crate::text::chars_of(v);
    if c.len() >= 2 && c[0] == '(' && c[c.len() - 1] == ')' {
        crate::text::string_of(&c, 1, c.len() - 1)
    } else {
        String::new()
    }
}

/// `pattern` with every `prefix` taken out.
fn without(pattern: &str, prefix: &str) -> (r: String)
    requires
        prefix@.len() > 0,
    ensures
        r@ == crate::text::replace_spec(pattern@, prefix@, Seq::empty()),
{
    let nothing = String::new();
    crate::text::replace_all(pattern, prefix, nothing.as_str())
}

fn typed_list(datatype: &Option<String>, column: &str, text: &str) -> (r: JsonValue)
    ensures
        crate::pattern::regex_valid(LIST_SEPARATOR@) ==> r@ == Json::Arr(crate::pattern::regex_split_spec(LIST_SEPARATOR@, inner_list(text@)).map_values(
            |v: Seq<char>| value_as_type(match datatype { Some(d) => Some(d@), None => None }, column@, v))),
{
    let inner = inner_list_of(text);
    let pieces = match crate::pattern::regex_split(LIST_SEPARATOR, inner.as_str()) {
        Ok(p) => p,
        Err(_) => Vec::new(),
    };
    let mut items: Vec<JsonValue> = Vec::new();
    let mut i: usize = 0;
    while i < pieces.len()
        invariant
            i <= pieces.len(),
            items@.len() == i,
            forall|k: int| 0 <= k < i ==> #[trigger] items@[k]@ == value_as_type(
                match datatype { Some(d) => Some(d@), None => None }, column@, pieces@[k]@),
        decreases pieces.len() - i,
    {
        items.push(value_as_type_of(datatype, column, pieces[i].as_str()));
        i = i + 1;
    }
    let r = json_list(items);
    assert(crate::pattern::regex_valid(LIST_SEPARATOR@) ==> r@ == Json::Arr(crate::pattern::regex_split_spec(LIST_SEPARATOR@, inner_list(text@)).map_values(
        |v: Seq<char>| value_as_type(match datatype { Some(d) => Some(d@), None => None }, column@, v)))) by {
        if crate::pattern::regex_valid(LIST_SEPARATOR@) {
            if let Json::Arr(a) = r@ {
                assert(a =~= crate::pattern::regex_split_spec(LIST_SEPARATOR@, inner_list(text@)).map_values(
                    |v: Seq<char>| value_as_type(match datatype { Some(d) => Some(d@), None => None }, column@, v)));
            }
        }
    }
    r
}


fn value_filter_with(op: FilterOp, table: String, column: String, value: JsonValue) -> (r: Filter)
    ensures
        r@ == FilterView::Value(op, table@, column@, value@),
{
    match op {
        FilterOp::Like => Filter::Like { table, column, value },
        FilterOp::Equal => Filter::Equal { table, column, value },
        FilterOp::NotEqual => Filter::NotEqual { table, column, value },
        FilterOp::GreaterThan => Filter::GreaterThan { table, column, value },
        FilterOp::GreaterThanOrEqual => Filter::GreaterThanOrEqual { table, column, value },
        FilterOp::LessThan => Filter::LessThan { table, column, value },
        FilterOp::LessThanOrEqual => Filter::LessThanOrEqual { table, column, value },
        FilterOp::Is => Filter::Is { table, column, value },
        FilterOp::IsNot => Filter::IsNot { table, column, value },
        FilterOp::In => Filter::In { table, column, value },
        FilterOp::NotIn => Filter::NotIn { table, column, value },
    }
}

fn op_prefix_of(pattern: &str) -> (r: Option<(FilterOp, &'static str)>)
    ensures
        match r {
            Some((op, prefix)) => op_prefix(pattern@) == Some((op, prefix@)) && prefix@.len() > 0,
            None => op_prefix(pattern@) is None,
        },
{
    proof {
        reveal_strlit("like.");
        reveal_strlit("eq.");
        reveal_strlit("not_eq.");
        reveal_strlit("gt.");
        reveal_strlit("gte.");
        reveal_strlit("lt.");
        reveal_strlit("lte.");
        reveal_strlit("is.");
        reveal_strlit("is_not.");
        reveal_strlit("in.");
        reveal_strlit("not_in.");
    }
    if crate::text::starts_with(pattern, "like.") {
        Some((FilterOp::Like, "like."))
    } else if crate::text::starts_with(pattern, "eq.") {
        Some((FilterOp::Equal, "eq."))
    } else if crate::text::starts_with(pattern, "not_eq.") {
        Some((FilterOp::NotEqual, "not_eq."))
    } else if crate::text::starts_with(pattern, "gt.") {
        Some((FilterOp::GreaterThan, "gt."))
    } else if crate::text::starts_with(pattern, "gte.") {
        Some((FilterOp::GreaterThanOrEqual, "gte."))
    } else if crate::text::starts_with(pattern, "lt.") {
        Some((FilterOp::LessThan, "lt."))
    } else if crate::text::starts_with(pattern, "lte.") {
        Some((FilterOp::LessThanOrEqual, "lte."))
    } else if crate::text::starts_with(pattern, "is.") {
        Some((FilterOp::Is, "is."))
    } else if crate::text::starts_with(pattern, "is_not.") {
        Some((FilterOp::IsNot, "is_not."))
    } else if crate::text::starts_with(pattern, "in.") {
        Some((FilterOp::In, "in."))
    } else if crate::text::starts_with(pattern, "not_in.") {
        Some((FilterOp::NotIn, "not_in."))
    } else {
        None
    }
}

fn query_value_of(op: FilterOp, datatype: &Option<String>, column: &str, rest: &str) -> (r: JsonValue)
    ensures
        crate::pattern::regex_valid(LIST_SEPARATOR@) ==> r@ == query_value(op,
            match datatype { Some(d) => Some(d@), None => None }, column@, rest@),
{
    match op {
        FilterOp::Like => match crate::json::json_parse(rest) {
            Some(j) => j,
            None => json_str(rest),
        },
        FilterOp::Is | FilterOp::IsNot => {
            if str_eq(crate::text::to_lowercase(rest).as_str(), "null") {
                JsonValue::Null
            } else {
                value_as_type_of(datatype, column, rest)
            }
        },
        FilterOp::In | FilterOp::NotIn => {
            let r = typed_list(datatype, column, rest);
            let ghost dt = match datatype { Some(d) => Some(d@), None => None::<Seq<char>> };
            assert(crate::pattern::regex_valid(LIST_SEPARATOR@) ==> r@ == query_value(op, dt, column@, rest@)) by {
                if crate::pattern::regex_valid(LIST_SEPARATOR@) {
                    if let Json::Arr(a) = r@ {
                        assert(a =~= crate::pattern::regex_split_spec(LIST_SEPARATOR@, inner_list(rest@)).map_values(
                            |v: Seq<char>| value_as_type(dt, column@, v)));
                    }
                }
            }
            r
        },
        _ => value_as_type_of(datatype, column, rest),
    }
}

/// The filter of one query parameter.
fn query_filter_of(lhs: &str, pattern: &str, base: &str, tables: &Vec<crate::table::Table>) -> (r: Option<Filter>)
    ensures
        crate::pattern::regex_valid(LIST_SEPARATOR@) ==> match r {
            Some(f) => query_filter(lhs@, pattern@, base@, tables@.map_values(|t: crate::table::Table| t@)) == Some(f@),
            None => query_filter(lhs@, pattern@, base@, tables@.map_values(|t: crate::table::Table| t@)) is None,
        },
{
    let (table, column) = split_lhs_of(lhs);
    match op_prefix_of(pattern) {
        None => None,
        Some((op, prefix)) => {
            let table_name: &str = if is_empty_str(table.as_str()) { base } else { table.as_str() };
            let datatype = configured_datatype_of(tables, table_name, column.as_str());
            let rest = without(pattern, prefix);
            let value = query_value_of(op, &datatype, column.as_str(), rest.as_str());
            Some(value_filter_with(op, table, column, value))
        },
    }
}

impl Select {
    /// The select that a URL path and its query parameters describe: the table is the
    /// path up to its first `.`; `select` lists the fields (`count()` is an expression);
    /// `limit` (by default [DEFAULT_LIMIT]) and `offset` are numbers; `order` lists
    /// `column.asc` or `column.desc`; every other parameter is a filter `operator.value`,
    /// its value typed by the datatype configured for the column in the given tables. The
    /// table of each filter parameter must be among the given tables.
    pub fn from_path_and_query(path: &str, query_params: &QueryParams, tables: &Vec<crate::table::Table>) -> (r: Select)
        requires
            query_tables_known(crate::maps::string_map_entries(*query_params), split_on(path@, '.')[0],
                tables@.map_values(|t: crate::table::Table| t@)),
        ensures
            crate::pattern::regex_valid(LIST_SEPARATOR@) ==> r@ == path_query_select(path@,
                crate::maps::string_map_entries(*query_params), tables@.map_values(|t: crate::table::Table| t@)),
    {
        let ghost e = crate::maps::string_map_entries(*query_params);
        let ghost tv = tables@.map_values(|t: crate::table::Table| t@);
        let mut select: Vec<SelectField> = Vec::new();
        if let Some(selects) = crate::maps::string_map_get(query_params, "select") {
            let pieces = split_at_char(selects.as_str(), ',');
            let mut i: usize = 0;
            while i < pieces.len()
                invariant
                    i <= pieces.len(),
                    select@.len() == i,
                    forall|k: int| 0 <= k < i ==> #[trigger] select@[k]@ == (if pieces@[k]@ == "count()"@ {
                        FieldView::Expression(pieces@[k]@, Seq::empty())
                    } else {
                        FieldView::Column(Seq::empty(), pieces@[k]@, Seq::empty())
                    }),
                decreases pieces.len() - i,
            {
                let p = pieces[i].clone();
                if str_eq(p.as_str(), "count()") {
                    select.push(SelectField::Expression { expression: p, alias: String::new() });
                } else {
                    select.push(SelectField::Column { table: String::new(), column: p, alias: String::new() });
                }
                i = i + 1;
            }
            assert(select@.map_values(|f: SelectField| f@) =~= select_fields_of(selects@));
        } else {
            assert(select@.map_values(|f: SelectField| f@) =~= Seq::<FieldView>::empty());
        }
        let limit = match crate::maps::string_map_get(query_params, "limit") {
            Some(x) => match crate::text::parse_usize(x.as_str()) {
                Some(n) => n,
                None => DEFAULT_LIMIT,
            },
            None => DEFAULT_LIMIT,
        };
        let offset = match crate::maps::string_map_get(query_params, "offset") {
            Some(x) => match crate::text::parse_usize(x.as_str()) {
                Some(n) => n,
                None => 0,
            },
            None => 0,
        };
        let mut order_by: Vec<(String, Order)> = Vec::new();
        if let Some(order) = crate::maps::string_map_get(query_params, "order") {
            let items = split_at_char(order.as_str(), ',');
            let mut i: usize = 0;
            while i < items.len()
                invariant
                    i <= items.len(),
                    order_by@.len() == i,
                    forall|k: int| 0 <= k < i ==> (#[trigger] order_by@[k].0@, order_by@[k].1) == order_item(items@[k]@),
                decreases items.len() - i,
            {
                order_by.push(order_item_of(items[i].as_str()));
                i = i + 1;
            }
            assert(order_by@.map_values(|p: (String, Order)| (p.0@, p.1)) =~= order_of(e));
        } else {
            assert(order_by@.map_values(|p: (String, Order)| (p.0@, p.1)) =~= order_of(e));
        }
        let mut rest = crate::maps::string_map_clone(query_params);
        crate::maps::string_map_shift_remove(&mut rest, "limit");
        crate::maps::string_map_shift_remove(&mut rest, "offset");
        crate::maps::string_map_shift_remove(&mut rest, "order");
        let ghost re = crate::maps::string_map_entries(rest);
        let base_pieces = split_at_char(path, '.');
        proof {
            lemma_split_on_nonempty(path@, '.');
        }
        let base = base_pieces[0].clone();
        let n = crate::maps::string_map_len(&rest);
        let mut filters: Vec<Filter> = Vec::new();
        let mut i: usize = 0;
        while i < n
            invariant
                n == re.len(),
                re == crate::maps::string_map_entries(rest),
                tv == tables@.map_values(|t: crate::table::Table| t@),
                i <= n,
                crate::pattern::regex_valid(LIST_SEPARATOR@) ==> filters@.map_values(|f: Filter| f@) == query_filters(re, base@, tv, i as nat),
            decreases n - i,
        {
            match crate::maps::string_map_get_index(&rest, i) {
                Some((lhs, pattern)) => {
                    let ghost before = filters@.map_values(|f: Filter| f@);
                    match query_filter_of(lhs.as_str(), pattern.as_str(), base.as_str(), tables) {
                        Some(f) => {
                            filters.push(f);
                            assert(filters@.map_values(|f: Filter| f@) =~= before.push(f@));
                        },
                        None => {},
                    }
                },
                None => {
                    assert(false);
                },
            }
            i = i + 1;
        }
        let r = Select {
            table_name: base,
            view_name: String::new(),
            select,
            joins: Vec::new(),
            limit,
            offset,
            filters,
            order_by,
        };
        assert(r@.joins =~= Seq::<JoinView>::empty());
        assert(crate::pattern::regex_valid(LIST_SEPARATOR@) ==> r@.filters =~= query_filters(re, base_pieces@[0]@, tv, re.len()));
        r
    }
}

} // verus!

verus! {

/// The parameters of a filter on a value are as many as the placeholders it takes.
proof fn lemma_filter_params_width(f: FilterView, table: Seq<char>, kind: DbKind, index: nat)
    requires
        f is Value,
    ensures
        filter_sql(f, table, kind, index) matches Ok((sql, p)) ==> p.len() == filter_width(f),
{
    match f {
        FilterView::Value(op, _, c, v) => {
            if op == FilterOp::In || op == FilterOp::NotIn {
                match v {
                    Json::Arr(vs) => {
                        assert(vs.map_values(|j: Json| rendered_value(j)).len() == vs.len());
                    },
                    _ => {},
                }
            }
        },
        _ => {},
    }
}

/// The parameters of the WHERE clause made from the first `n` filters, all on values, are
/// as many as the placeholders those filters take.
proof fn lemma_where_params_width(s: SelectView, kind: DbKind, n: nat)
    requires
        forall|i: int| 0 <= i < s.filters.len() ==> #[trigger] s.filters[i] is Value,
    ensures
        where_part(s, kind, n) matches Ok((lines, params)) ==> params.len() == filters_width(s.filters, n),
    decreases n,
{
    if n > 0 && n <= s.filters.len() {
        lemma_where_params_width(s, kind, (n - 1) as nat);
        let f = s.filters[n - 1];
        assert(f is Value);
        let index = advance(kind, 0, change_count(s.filters, s.filters.len()) + filters_width(s.filters, (n - 1) as nat));
        lemma_filter_params_width(f, effective_table(s, f), kind, index);
    }
}

/// A select whose filters are all on values binds as many parameters as the placeholders
/// its statement numbers: one for each `_change_id` filter, then those of each filter in
/// turn (one, or one per listed value for IN and NOT IN).
pub proof fn lemma_select_params_match_placeholders(s: SelectView, kind: DbKind)
    requires
        forall|i: int| 0 <= i < s.filters.len() ==> #[trigger] s.filters[i] is Value,
    ensures
        select_sql(s, kind) matches Ok((sql, params)) ==> params.len()
            == change_count(s.filters, s.filters.len()) + filters_width(s.filters, s.filters.len()),
{
    lemma_where_params_width(s, kind, s.filters.len());
}

} // verus!

verus! {

/// The getters of a filter give the parts of [Filter::parts]: its table, column, operator
/// and value.
pub proof fn lemma_getters_are_parts(f: FilterView)
    ensures
        filter_parts(f).0 == filter_table(f),
        filter_parts(f).1 == filter_column(f),
        filter_parts(f).2 == filter_operator(f),
        filter_parts(f).3 == filter_value(f),
{
}

/// Setting a filter's table or column changes that part alone.
pub proof fn lemma_set_parts(f: FilterView, name: Seq<char>)
    ensures
        filter_parts(with_table(f, name)) == (name, filter_column(f), filter_operator(f), filter_value(f)),
        filter_parts(with_column(f, name)) == (filter_table(f), name, filter_operator(f), filter_value(f)),
{
}

/// In a statement that counts rows, every filter but an IN subquery is written as in the
/// select, with its placeholders numbered from the first.
pub proof fn lemma_count_filter_as_select(f: FilterView, table: Seq<char>, kind: DbKind)
    requires
        !(f matches FilterView::Subquery(false, _, _, _)),
    ensures
        filter_sql_count(f, table, kind) == filter_sql(f, table, kind, 0),
{
}

} // verus!
