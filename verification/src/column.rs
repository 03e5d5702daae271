//! Columns of tables, their configuration, and the dependencies between columns
//! that their `from()` structures create.
use vstd::prelude::*;

use crate::datatype::{ancestry, datatype_views, first_sql_type, Datatypes, DatatypeView};
use crate::error::RelatableError;
use crate::maps::lookup;
use crate::structure::{Structure, StructureView, Structures};
use crate::text::{is_empty_str, owned, seq_join, starts_with, str_eq};

verus! {

broadcast use vstd::std_specs::vec::group_vec_axioms;

/// A column of some table.
#[derive(Debug, PartialEq, Eq, Hash)]
pub struct Column {
    pub table: String,
    pub column: String,
    pub label: String,
    pub description: String,
    pub sql_type: String,
    pub nulltype: String,
    pub datatype: String,
    pub structure: Structures,
    pub primary_key: bool,
    pub unique: bool,
}

/// The model of a column.
pub struct ColumnView {
    pub table: Seq<char>,
    pub column: Seq<char>,
    pub label: Seq<char>,
    pub description: Seq<char>,
    pub sql_type: Seq<char>,
    pub nulltype: Seq<char>,
    pub datatype: Seq<char>,
    pub structure: Seq<StructureView>,
    pub primary_key: bool,
    pub unique: bool,
}

impl View for Column {
    type V = ColumnView;

    open spec fn view(&self) -> ColumnView {
        ColumnView {
            table: self.table@,
            column: self.column@,
            label: self.label@,
            description: self.description@,
            sql_type: self.sql_type@,
            nulltype: self.nulltype@,
            datatype: self.datatype@,
            structure: self.structure@,
            primary_key: self.primary_key,
            unique: self.unique,
        }
    }
}

impl Clone for Column {
    fn clone(&self) -> (r: Self)
        ensures
            r@ == self@,
    {
        Column {
            table: self.table.clone(),
            column: self.column.clone(),
            label: self.label.clone(),
            description: self.description.clone(),
            sql_type: self.sql_type.clone(),
            nulltype: self.nulltype.clone(),
            datatype: self.datatype.clone(),
            structure: self.structure.clone(),
            primary_key: self.primary_key,
            unique: self.unique,
        }
    }
}

/// The view of a column with every field empty.
pub open spec fn empty_column_view() -> ColumnView {
    ColumnView {
        table: Seq::empty(),
        column: Seq::empty(),
        label: Seq::empty(),
        description: Seq::empty(),
        sql_type: Seq::empty(),
        nulltype: Seq::empty(),
        datatype: Seq::empty(),
        structure: Seq::empty(),
        primary_key: false,
        unique: false,
    }
}

/// True for a "meta" column: one whose name starts with `_`.
pub open spec fn is_meta_view(c: ColumnView) -> bool {
    "_"@.is_prefix_of(c.column)
}

/// The SQL type that [Column::sql_type] gives a column: its own when it has one;
/// otherwise the first SQL type among its datatype's ancestors (the datatype `text`
/// standing in for an unknown datatype), or `TEXT`. `None` when the search does not end.
pub open spec fn column_sql_type(c: ColumnView, e: Seq<(Seq<char>, DatatypeView)>) -> Option<Seq<char>> {
    if c.sql_type.len() > 0 {
        Some(c.sql_type)
    } else {
        let dt = match lookup(e, c.datatype) {
            Some(d) => d,
            None => lookup(e, "text"@)->0,
        };
        match ancestry(e, dt, e.len()) {
            Some(a) => Some(match first_sql_type(a) {
                Some(t) => t,
                None => "TEXT"@,
            }),
            None => None,
        }
    }
}

impl Column {
    /// A column with every field empty.
    pub fn default() -> (r: Self)
        ensures
            r@ == empty_column_view(),
    {
        Column {
            table: String::new(),
            column: String::new(),
            label: String::new(),
            description: String::new(),
            sql_type: String::new(),
            nulltype: String::new(),
            datatype: String::new(),
            structure: Structures::default(),
            primary_key: false,
            unique: false,
        }
    }

    /// True if this is a "meta" column: its name starts with `_`.
    pub fn is_meta(&self) -> (r: bool)
        ensures
            r == is_meta_view(self@),
    {
        starts_with(self.column.as_str(), "_")
    }

    /// True if this is a data column: not a "meta" column.
    pub fn is_data(&self) -> (r: bool)
        ensures
            r == !is_meta_view(self@),
    {
        !self.is_meta()
    }

    /// The SQL type for this column: its own, or else the first SQL type among the
    /// ancestors of its datatype, or `TEXT`. A datatype that is not found stands for
    /// `text`, which must then be among the datatypes; the chain of ancestors must end.
    pub fn sql_type(&self, datatypes: &Datatypes) -> (r: String)
        requires
            self.sql_type@.len() == 0 ==> lookup(datatypes@, "text"@) is Some,
            self.sql_type@.len() == 0 ==> column_sql_type(self@, datatypes@) is Some,
        ensures
            Some(r@) == column_sql_type(self@, datatypes@),
    {
        if !is_empty_str(self.sql_type.as_str()) {
            return self.sql_type.clone();
        }
        let text = datatypes.get("text");
        let datatype = match datatypes.get(self.datatype.as_str()) {
            Some(d) => d,
            None => match text {
                Some(t) => t,
                None => {
                    assert(false);
                    return String::new();
                },
            },
        };
        let ancestors = datatypes.ancestors(datatype);
        let ghost a = datatype_views(ancestors@);
        assert(column_sql_type(self@, datatypes@) == Some(match first_sql_type(a) {
            Some(t) => t,
            None => "TEXT"@,
        }));
        let mut i: usize = 0;
        assert(a.skip(0) == a);
        while i < ancestors.len()
            invariant
                a == datatype_views(ancestors@),
                column_sql_type(self@, datatypes@) == Some(match first_sql_type(a) {
                    Some(t) => t,
                    None => "TEXT"@,
                }),
                i <= ancestors.len(),
                first_sql_type(a) == first_sql_type(a.skip(i as int)),
            decreases ancestors.len() - i,
        {
            assert(a.skip(i as int)[0] == ancestors@[i as int]@);
            if !is_empty_str(ancestors[i].sql_type.as_str()) {
                assert(first_sql_type(a.skip(i as int)) == Some(ancestors@[i as int]@.sql_type));
                return ancestors[i].sql_type.clone();
            }
            assert(a.skip(i as int).skip(1) == a.skip(i + 1));
            i = i + 1;
        }
        assert(a.skip(i as int).len() == 0);
        String::from_str("TEXT")
    }
}

/// Builds a [Column]: each field not set is empty (or false).
#[derive(Debug)]
pub struct ColumnBuilder {
    table: Option<String>,
    column: Option<String>,
    label: Option<String>,
    description: Option<String>,
    sql_type: Option<String>,
    nulltype: Option<String>,
    datatype: Option<String>,
    structure: Option<Structures>,
    primary_key: Option<bool>,
    unique: Option<bool>,
}

fn text_or_empty(o: &Option<String>) -> (r: String)
    ensures
        r@ == match *o { Some(s) => s@, None => Seq::<char>::empty() },
{
    match o {
        Some(s) => s.clone(),
        None => String::new(),
    }
}

impl ColumnBuilder {
    /// The column that [ColumnBuilder::build] makes.
    pub closed spec fn built_view(&self) -> ColumnView {
        ColumnView {
            table: match self.table { Some(s) => s@, None => Seq::empty() },
            column: match self.column { Some(s) => s@, None => Seq::empty() },
            label: match self.label { Some(s) => s@, None => Seq::empty() },
            description: match self.description { Some(s) => s@, None => Seq::empty() },
            sql_type: match self.sql_type { Some(s) => s@, None => Seq::empty() },
            nulltype: match self.nulltype { Some(s) => s@, None => Seq::empty() },
            datatype: match self.datatype { Some(s) => s@, None => Seq::empty() },
            structure: match self.structure { Some(s) => s@, None => Seq::empty() },
            primary_key: match self.primary_key { Some(b) => b, None => false },
            unique: match self.unique { Some(b) => b, None => false },
        }
    }

    /// A builder with nothing set.
    pub fn default() -> (r: Self)
        ensures
            r.built_view() == empty_column_view(),
    {
        ColumnBuilder {
            table: None,
            column: None,
            label: None,
            description: None,
            sql_type: None,
            nulltype: None,
            datatype: None,
            structure: None,
            primary_key: None,
            unique: None,
        }
    }

    /// A builder for the given column of the given table.
    pub fn new(table: &str, column: &str) -> (r: Self)
        ensures
            r.built_view() == (ColumnView { table: table@, column: column@, ..empty_column_view() }),
    {
        let mut new = Self::default();
        new.table = Some(owned(table));
        new.column = Some(owned(column));
        new
    }

    pub fn table(self, value: &str) -> (r: Self)
        ensures
            r.built_view() == (ColumnView { table: value@, ..self.built_view() }),
    {
        ColumnBuilder { table: Some(owned(value)), ..self }
    }

    pub fn column(self, value: &str) -> (r: Self)
        ensures
            r.built_view() == (ColumnView { column: value@, ..self.built_view() }),
    {
        ColumnBuilder { column: Some(owned(value)), ..self }
    }

    pub fn label(self, value: &str) -> (r: Self)
        ensures
            r.built_view() == (ColumnView { label: value@, ..self.built_view() }),
    {
        ColumnBuilder { label: Some(owned(value)), ..self }
    }

    pub fn description(self, value: &str) -> (r: Self)
        ensures
            r.built_view() == (ColumnView { description: value@, ..self.built_view() }),
    {
        ColumnBuilder { description: Some(owned(value)), ..self }
    }

    pub fn sql_type(self, value: &str) -> (r: Self)
        ensures
            r.built_view() == (ColumnView { sql_type: value@, ..self.built_view() }),
    {
        ColumnBuilder { sql_type: Some(owned(value)), ..self }
    }

    pub fn nulltype(self, value: &str) -> (r: Self)
        ensures
            r.built_view() == (ColumnView { nulltype: value@, ..self.built_view() }),
    {
        ColumnBuilder { nulltype: Some(owned(value)), ..self }
    }

    pub fn datatype(self, value: &str) -> (r: Self)
        ensures
            r.built_view() == (ColumnView { datatype: value@, ..self.built_view() }),
    {
        ColumnBuilder { datatype: Some(owned(value)), ..self }
    }

    /// Set the structures from their text; text that cannot be read gives none.
    pub fn structure(self, value: &str) -> (r: Self)
        ensures
            r.built_view() == (ColumnView { structure: r.built_view().structure, ..self.built_view() }),
            crate::pattern::regex_valid(crate::structure::FROM_PATTERN@)
                && crate::pattern::regex_valid(crate::structure::UNQUOTED_PATTERN@)
                ==> r.built_view().structure == match crate::structure::parse_structures(value@) {
                    Some(list) => list,
                    None => Seq::empty(),
                },
    {
        let s = Structures::from(value);
        ColumnBuilder { structure: Some(s), ..self }
    }

    pub fn primary_key(self, value: bool) -> (r: Self)
        ensures
            r.built_view() == (ColumnView { primary_key: value, ..self.built_view() }),
    {
        ColumnBuilder { primary_key: Some(value), ..self }
    }

    pub fn unique(self, value: bool) -> (r: Self)
        ensures
            r.built_view() == (ColumnView { unique: value, ..self.built_view() }),
    {
        ColumnBuilder { unique: Some(value), ..self }
    }

    /// The column, each field not set left empty. Always succeeds.
    pub fn build(&self) -> (r: Result<Column, RelatableError>)
        ensures
            r matches Ok(c) && c@ == self.built_view(),
    {
        Ok(Column {
            table: text_or_empty(&self.table),
            column: text_or_empty(&self.column),
            label: text_or_empty(&self.label),
            description: text_or_empty(&self.description),
            sql_type: text_or_empty(&self.sql_type),
            nulltype: text_or_empty(&self.nulltype),
            datatype: text_or_empty(&self.datatype),
            structure: match &self.structure {
                Some(s) => s.clone(),
                None => Structures::default(),
            },
            primary_key: match self.primary_key { Some(b) => b, None => false },
            unique: match self.unique { Some(b) => b, None => false },
        })
    }
}

// ---------------------------------------------------------------------------
// Lists of columns and their dependencies
// ---------------------------------------------------------------------------

/// The elements of `s` for which `p` holds, in order.
pub open spec fn keep<A>(s: Seq<A>, p: spec_fn(A) -> bool) -> Seq<A>
    decreases s.len(),
{
    if s.len() == 0 {
        Seq::empty()
    } else if p(s.last()) {
        keep(s.drop_last(), p).push(s.last())
    } else {
        keep(s.drop_last(), p)
    }
}

/// The views of a list of column references.
pub open spec fn column_views(s: Seq<&Column>) -> Seq<ColumnView> {
    s.map_values(|c: &Column| c@)
}

/// The table and column that a structure takes its values from: with no table,
/// the structure's own table.
pub open spec fn structure_source(s: StructureView, own_table: Seq<char>) -> (Seq<char>, Seq<char>) {
    (match s.0 {
        Some(t) => t,
        None => own_table,
    }, s.1)
}

/// True when `d` takes its values from `c` through one of its `from()` structures.
pub open spec fn depends_on(d: ColumnView, c: ColumnView) -> bool {
    exists|i: int| 0 <= i < d.structure.len() && #[trigger] structure_source(d.structure[i], d.table) == (c.table, c.column)
}

/// True when `to` depends on `from` through a chain of at most `n + 1` dependencies,
/// each step but the first through a column of the list.
pub open spec fn reach_within(list: Seq<ColumnView>, from: ColumnView, to: ColumnView, n: nat) -> bool
    decreases n,
{
    depends_on(to, from) || (n > 0 && exists|k: int| 0 <= k < list.len() && depends_on(to, #[trigger] list[k])
        && reach_within(list, from, list[k], (n - 1) as nat))
}

/// True when `to` depends on `from`, directly or through columns of the list.
pub open spec fn reachable(list: Seq<ColumnView>, from: ColumnView, to: ColumnView) -> bool {
    exists|n: nat| #[trigger] reach_within(list, from, to, n)
}

/// Every direct dependent of a column is among its dependents: a column that takes its
/// values from `c` through a `from()` structure depends on `c`.
pub proof fn lemma_direct_dependents_are_dependents(list: Seq<ColumnView>, c: ColumnView, d: ColumnView)
    requires
        depends_on(d, c),
    ensures
        reachable(list, c, d),
{
    assert(reach_within(list, c, d, 0));
}

/// Dependence is transitive through the list: what depends on a dependent of `c` is a
/// dependent of `c` too.
pub proof fn lemma_dependents_transitive(list: Seq<ColumnView>, c: ColumnView, d: ColumnView, e: ColumnView)
    requires
        list.contains(d),
        reachable(list, c, d),
        depends_on(e, d),
    ensures
        reachable(list, c, e),
{
    let n = choose|n: nat| #[trigger] reach_within(list, c, d, n);
    let k = choose|k: int| 0 <= k < list.len() && list[k] == d;
    assert(depends_on(e, list[k]) && reach_within(list, c, list[k], n));
    assert(reach_within(list, c, e, n + 1));
}

/// True when no column of the list that depends on `c` depends on itself: following the
/// dependents of `c` comes to an end.
pub open spec fn dependents_acyclic(list: Seq<ColumnView>, c: ColumnView) -> bool {
    forall|k: int| 0 <= k < list.len() && #[trigger] reachable(list, c, list[k]) ==> !reachable(list, list[k], list[k])
}

/// The dependents of a column are the closure of its direct dependents: every direct
/// dependent is one; what depends on one is one; each is a direct dependent or depends on
/// another one; and, where following them ends, the column is not among them.
pub proof fn lemma_dependents_closure(list: Seq<ColumnView>, c: ColumnView)
    requires
        dependents_acyclic(list, c),
    ensures
        forall|d: ColumnView| #[trigger] depends_on(d, c) ==> reachable(list, c, d),
        forall|d: ColumnView, e: ColumnView| list.contains(d) && #[trigger] reachable(list, c, d) && #[trigger] depends_on(e, d)
            ==> reachable(list, c, e),
        forall|e: ColumnView| #[trigger] reachable(list, c, e) ==> depends_on(e, c)
            || exists|k: int| 0 <= k < list.len() && reachable(list, c, list[k]) && #[trigger] depends_on(e, list[k]),
        list.contains(c) ==> !reachable(list, c, c),
{
    assert forall|d: ColumnView| #[trigger] depends_on(d, c) implies reachable(list, c, d) by {
        lemma_direct_dependents_are_dependents(list, c, d);
    }
    assert forall|d: ColumnView, e: ColumnView| list.contains(d) && #[trigger] reachable(list, c, d) && #[trigger] depends_on(e, d)
        implies reachable(list, c, e) by {
        lemma_dependents_transitive(list, c, d, e);
    }
    assert forall|e: ColumnView| #[trigger] reachable(list, c, e) implies depends_on(e, c)
        || exists|k: int| 0 <= k < list.len() && reachable(list, c, list[k]) && #[trigger] depends_on(e, list[k]) by {
        let n = choose|n: nat| #[trigger] reach_within(list, c, e, n);
        if !depends_on(e, c) {
            let k = choose|k: int| 0 <= k < list.len() && depends_on(e, #[trigger] list[k])
                && reach_within(list, c, list[k], (n - 1) as nat);
            assert(reachable(list, c, list[k]));
        }
    }
    if list.contains(c) {
        let k = choose|k: int| 0 <= k < list.len() && list[k] == c;
        if reachable(list, c, c) {
            assert(reachable(list, c, list[k]));
        }
    }
}

/// A list of columns.
#[derive(Debug, PartialEq, Eq)]
pub struct Columns {
    list: Vec<Column>,
}

impl View for Columns {
    type V = Seq<ColumnView>;

    closed spec fn view(&self) -> Seq<ColumnView> {
        self.list@.map_values(|c: Column| c@)
    }
}

/// The built-in columns of the column table.
pub open spec fn builtin_columns() -> Seq<ColumnView> {
    seq![
        builtin_column_view("table"@, "the table for this column"@, "word"@),
        builtin_column_view("column"@, "the name of this column"@, "word"@),
        builtin_column_view("label"@, "the label of this column"@, "trimmed_line"@),
        builtin_column_view("description"@, "the description of this column"@, "trimmed_line"@),
        builtin_column_view("nulltype"@, "the null type of this column"@, "word"@),
        builtin_column_view("datatype"@, "the datatype of this column"@, "word"@),
        builtin_column_view("structure"@, "the structure of this column"@, "trimmed_line"@),
    ]
}

/// A built-in column of the column table, with SQL type `TEXT`.
pub open spec fn builtin_column_view(column: Seq<char>, description: Seq<char>, datatype: Seq<char>) -> ColumnView {
    ColumnView {
        table: "column"@,
        column,
        description,
        datatype,
        sql_type: "TEXT"@,
        ..empty_column_view()
    }
}

/// True when the two columns are the same.
fn same_column(a: &Column, b: &Column) -> (r: bool)
    ensures
        r == (a@ == b@),
{
    if !(str_eq(a.table.as_str(), b.table.as_str()) && str_eq(a.column.as_str(), b.column.as_str())
        && str_eq(a.label.as_str(), b.label.as_str()) && str_eq(a.description.as_str(), b.description.as_str())
        && str_eq(a.sql_type.as_str(), b.sql_type.as_str()) && str_eq(a.nulltype.as_str(), b.nulltype.as_str())
        && str_eq(a.datatype.as_str(), b.datatype.as_str()) && a.primary_key == b.primary_key
        && a.unique == b.unique) {
        return false;
    }
    let sa = a.structure.list();
    let sb = b.structure.list();
    if sa.len() != sb.len() {
        assert(a@.structure.len() != b@.structure.len());
        return false;
    }
    let mut i: usize = 0;
    while i < sa.len()
        invariant
            sa@.map_values(|s: Structure| s@) == a@.structure,
            sb@.map_values(|s: Structure| s@) == b@.structure,
            sa.len() == sb.len(),
            i <= sa.len(),
            forall|j: int| 0 <= j < i ==> a@.structure[j] == b@.structure[j],
        decreases sa.len() - i,
    {
        let (Structure::From(ta, ca), Structure::From(tb, cb)) = (&sa[i], &sb[i]);
        assert(a@.structure[i as int] == sa@[i as int]@);
        assert(b@.structure[i as int] == sb@[i as int]@);
        let same_table = match (ta, tb) {
            (Some(x), Some(y)) => str_eq(x.as_str(), y.as_str()),
            (None, None) => true,
            _ => false,
        };
        if !same_table || !str_eq(ca.as_str(), cb.as_str()) {
            return false;
        }
        i = i + 1;
    }
    assert(a@.structure =~= b@.structure);
    true
}

/// True when `d` depends on `c` through one of its `from()` structures.
fn column_depends_on(d: &Column, c: &Column) -> (r: bool)
    ensures
        r == depends_on(d@, c@),
{
    let list = d.structure.list();
    let mut i: usize = 0;
    while i < list.len()
        invariant
            list@.map_values(|s: Structure| s@) == d@.structure,
            i <= list.len(),
            forall|j: int| 0 <= j < i ==> #[trigger] structure_source(d@.structure[j], d@.table) != (c@.table, c@.column),
        decreases list.len() - i,
    {
        let Structure::From(t, col) = &list[i];
        assert(d@.structure[i as int] == list@[i as int]@);
        let t: &String = match t {
            Some(t) => t,
            None => &d.table,
        };
        if str_eq(t.as_str(), c.table.as_str()) && str_eq(col.as_str(), c.column.as_str()) {
            assert(structure_source(d@.structure[i as int], d@.table) == (c@.table, c@.column));
            return true;
        }
        i = i + 1;
    }
    false
}

/// True when some column of `found` (indices into `list`) has the view `v`.
pub open spec fn found_has(list: Seq<ColumnView>, found: Seq<usize>, v: ColumnView) -> bool {
    exists|j: int| 0 <= j < found.len() && #[trigger] list[found[j] as int] == v
}

impl Columns {
    /// The given columns.
    pub fn new(list: Vec<Column>) -> (r: Self)
        ensures
            r@ == list@.map_values(|c: Column| c@),
    {
        Columns { list }
    }

    /// The columns, in order.
    pub fn list(&self) -> (r: &Vec<Column>)
        ensures
            r@.map_values(|c: Column| c@) == self@,
    {
        &self.list
    }

    /// The number of columns.
    pub fn len(&self) -> (r: usize)
        ensures
            r == self@.len(),
    {
        self.list.len()
    }

    /// The built-in columns of the column table: `table`, `column`, `label`,
    /// `description`, `nulltype`, `datatype` and `structure`, all of SQL type `TEXT`.
    pub fn builtins() -> (r: Self)
        ensures
            r@ == builtin_columns(),
    {
        let mut list: Vec<Column> = Vec::new();
        let c = ColumnBuilder::default().table("column").column("table").description("the table for this column")
            .datatype("word").sql_type("TEXT").build();
        Self::push_built(&mut list, c);
        let c = ColumnBuilder::new("column", "column").description("the name of this column").datatype("word")
            .sql_type("TEXT").build();
        Self::push_built(&mut list, c);
        let c = ColumnBuilder::new("column", "label").description("the label of this column")
            .datatype("trimmed_line").sql_type("TEXT").build();
        Self::push_built(&mut list, c);
        let c = ColumnBuilder::new("column", "description").description("the description of this column")
            .datatype("trimmed_line").sql_type("TEXT").build();
        Self::push_built(&mut list, c);
        let c = ColumnBuilder::new("column", "nulltype").description("the null type of this column")
            .datatype("word").sql_type("TEXT").build();
        Self::push_built(&mut list, c);
        let c = ColumnBuilder::new("column", "datatype").description("the datatype of this column")
            .datatype("word").sql_type("TEXT").build();
        Self::push_built(&mut list, c);
        let c = ColumnBuilder::new("column", "structure").description("the structure of this column")
            .datatype("trimmed_line").sql_type("TEXT").build();
        Self::push_built(&mut list, c);
        let r = Columns { list };
        assert(r@ =~= builtin_columns());
        r
    }

    fn push_built(list: &mut Vec<Column>, c: Result<Column, RelatableError>)
        requires
            c is Ok,
        ensures
            final(list)@.map_values(|x: Column| x@) == old(list)@.map_values(|x: Column| x@).push(c->Ok_0@),
    {
        if let Ok(c) = c {
            list.push(c);
        }
        assert(list@.map_values(|x: Column| x@) =~= old(list)@.map_values(|x: Column| x@).push(c->Ok_0@));
    }

    /// The "meta" columns, whose names start with `_`, in order.
    pub fn meta(&self) -> (r: Vec<&Column>)
        ensures
            column_views(r@) == keep(self@, |c: ColumnView| is_meta_view(c)),
    {
        let r = self.select(true);
        assert((|c: ColumnView| is_meta_view(c) == true) =~= (|c: ColumnView| is_meta_view(c)));
        r
    }

    /// The data (non-meta) columns, in order.
    pub fn data(&self) -> (r: Vec<&Column>)
        ensures
            column_views(r@) == keep(self@, |c: ColumnView| !is_meta_view(c)),
    {
        let r = self.select(false);
        assert((|c: ColumnView| is_meta_view(c) == false) =~= (|c: ColumnView| !is_meta_view(c)));
        r
    }

    fn select(&self, meta: bool) -> (r: Vec<&Column>)
        ensures
            column_views(r@) == keep(self@, |c: ColumnView| is_meta_view(c) == meta),
    {
        let ghost p = |c: ColumnView| is_meta_view(c) == meta;
        let mut out: Vec<&Column> = Vec::new();
        let mut i: usize = 0;
        while i < self.list.len()
            invariant
                i <= self.list.len(),
                column_views(out@) == keep(self@.take(i as int), p),
                p == (|c: ColumnView| is_meta_view(c) == meta),
            decreases self.list.len() - i,
        {
            let c = &self.list[i];
            assert(self@.take(i + 1).drop_last() =~= self@.take(i as int));
            assert(self@.take(i + 1).last() == c@);
            if c.is_meta() == meta {
                out.push(c);
                assert(column_views(out@) =~= keep(self@.take(i as int), p).push(c@));
            }
            i = i + 1;
        }
        assert(self@.take(i as int) =~= self@);
        out
    }

    /// The column with this table name and column name, or `None`.
    pub fn column(&self, table: &str, column: &str) -> (r: Option<&Column>)
        ensures
            match r {
                Some(c) => exists|i: int| 0 <= i < self@.len() && self@[i] == c@
                    && c@.table == table@ && c@.column == column@
                    && forall|j: int| 0 <= j < i ==> !(self@[j].table == table@ && self@[j].column == column@),
                None => forall|j: int| 0 <= j < self@.len() ==> !(self@[j].table == table@ && self@[j].column == column@),
            },
    {
        let mut i: usize = 0;
        while i < self.list.len()
            invariant
                i <= self.list.len(),
                forall|j: int| 0 <= j < i ==> !(self@[j].table == table@ && self@[j].column == column@),
            decreases self.list.len() - i,
        {
            let c = &self.list[i];
            assert(self@[i as int] == c@);
            if str_eq(c.table.as_str(), table) && str_eq(c.column.as_str(), column) {
                return Some(c);
            }
            i = i + 1;
        }
        None
    }

    /// The columns that depend on the given column through their `from()` structures, in order.
    pub fn direct_dependents(&self, column: &Column) -> (r: Vec<&Column>)
        ensures
            column_views(r@) == keep(self@, |d: ColumnView| depends_on(d, column@)),
    {
        let ghost p = |d: ColumnView| depends_on(d, column@);
        let mut out: Vec<&Column> = Vec::new();
        let mut i: usize = 0;
        while i < self.list.len()
            invariant
                i <= self.list.len(),
                column_views(out@) == keep(self@.take(i as int), p),
                p == (|d: ColumnView| depends_on(d, column@)),
            decreases self.list.len() - i,
        {
            let c = &self.list[i];
            assert(self@.take(i + 1).drop_last() =~= self@.take(i as int));
            assert(self@.take(i + 1).last() == c@);
            if column_depends_on(c, column) {
                out.push(c);
                assert(column_views(out@) =~= keep(self@.take(i as int), p).push(c@));
            }
            i = i + 1;
        }
        assert(self@.take(i as int) =~= self@);
        out
    }

    /// The columns that depend on the given column through their `from()` structures,
    /// directly or through other columns of the list; each distinct column once (see
    /// [lemma_dependents_closure]). Following the dependents must come to an end: no
    /// column that depends on the given one may depend on itself.
    pub fn dependents(&self, column: &Column) -> (r: Vec<&Column>)
        requires
            dependents_acyclic(self@, column@),
        ensures
            forall|i: int, j: int| 0 <= i < j < r@.len() ==> r@[i]@ != r@[j]@,
            forall|i: int| 0 <= i < r@.len() ==> self@.contains(#[trigger] r@[i]@) && reachable(self@, column@, r@[i]@),
            forall|k: int| 0 <= k < self@.len() && reachable(self@, column@, self@[k])
                ==> exists|i: int| 0 <= i < r@.len() && #[trigger] r@[i]@ == self@[k],
    {
        let ghost list = self@;
        let n = self.list.len();
        let mut found: Vec<usize> = Vec::new();
        // The columns that depend directly on the given column.
        let mut k: usize = 0;
        while k < n
            invariant
                n == list.len(),
                list == self@,
                k <= n,
                forall|j: int| 0 <= j < found@.len() ==> #[trigger] found@[j] < n,
                forall|a: int, b: int| 0 <= a < b < found@.len() ==> list[found@[a] as int] != list[found@[b] as int],
                forall|j: int| 0 <= j < found@.len() ==> #[trigger] reach_within(list, column@, list[found@[j] as int], 0),
                forall|m: int| 0 <= m < k && depends_on(list[m], column@) ==> found_has(list, found@, #[trigger] list[m]),
            decreases n - k,
        {
            assert(list[k as int] == self.list@[k as int]@);
            if column_depends_on(&self.list[k], column) {
                if !self.has_found(&found, &self.list[k]) {
                    proof {
                        lemma_found_grows(list, found@, k);
                    }
                    found.push(k);
                }
            }
            k = k + 1;
        }
        proof {
            lemma_found_count(list, found@);
            assert forall|j: int| 0 <= j < found@.len() implies reachable(list, column@, #[trigger] list[found@[j] as int]) by {
                assert(reach_within(list, column@, list[found@[j] as int], 0));
            }
        }
        // Add the dependents of each column found, until none are new.
        let mut q: usize = 0;
        while q < found.len()
            invariant
                n == list.len(),
                list == self@,
                q <= found@.len(),
                found@.len() <= n,
                forall|j: int| 0 <= j < found@.len() ==> #[trigger] found@[j] < n,
                forall|a: int, b: int| 0 <= a < b < found@.len() ==> list[found@[a] as int] != list[found@[b] as int],
                forall|j: int| 0 <= j < found@.len() ==> reachable(list, column@, #[trigger] list[found@[j] as int]),
                forall|m: int| 0 <= m < n && depends_on(list[m], column@) ==> found_has(list, found@, #[trigger] list[m]),
                forall|p: int, m: int| 0 <= p < q && 0 <= m < n && #[trigger] depends_on(list[m], list[found@[p] as int])
                    ==> found_has(list, found@, list[m]),
            decreases n - q,
        {
            let f = found[q];
            let mut k: usize = 0;
            while k < n
                invariant
                    n == list.len(),
                    list == self@,
                    q < found@.len(),
                    found@[q as int] == f,
                    found@.len() <= n,
                    k <= n,
                    forall|j: int| 0 <= j < found@.len() ==> #[trigger] found@[j] < n,
                    forall|a: int, b: int| 0 <= a < b < found@.len() ==> list[found@[a] as int] != list[found@[b] as int],
                    forall|j: int| 0 <= j < found@.len() ==> reachable(list, column@, #[trigger] list[found@[j] as int]),
                    forall|m: int| 0 <= m < n && depends_on(list[m], column@) ==> found_has(list, found@, #[trigger] list[m]),
                    forall|p: int, m: int| 0 <= p < q && 0 <= m < n && #[trigger] depends_on(list[m], list[found@[p] as int])
                        ==> found_has(list, found@, list[m]),
                    forall|m: int| 0 <= m < k && depends_on(list[m], list[f as int]) ==> found_has(list, found@, #[trigger] list[m]),
                decreases n - k,
            {
                assert(list[k as int] == self.list@[k as int]@);
                assert(list[f as int] == self.list@[f as int]@);
                if column_depends_on(&self.list[k], &self.list[f]) {
                    if !self.has_found(&found, &self.list[k]) {
                        proof {
                            let w = choose|w: nat| #[trigger] reach_within(list, column@, list[f as int], w);
                            assert(reach_within(list, column@, list[k as int], w + 1));
                            lemma_found_grows(list, found@, k);
                            lemma_found_count(list, found@.push(k));
                        }
                        found.push(k);
                    }
                }
                k = k + 1;
            }
            q = q + 1;
        }
        proof {
            assert forall|m: int| 0 <= m < n && reachable(list, column@, list[m]) implies found_has(list, found@, list[m]) by {
                let w = choose|w: nat| #[trigger] reach_within(list, column@, list[m], w);
                lemma_closed_found(list, found@, column@, m, w);
            }
        }
        let mut out: Vec<&Column> = Vec::new();
        let mut i: usize = 0;
        while i < found.len()
            invariant
                list == self@,
                i <= found@.len(),
                out@.len() == i,
                forall|j: int| 0 <= j < found@.len() ==> #[trigger] found@[j] < list.len(),
                forall|j: int| 0 <= j < i ==> #[trigger] out@[j]@ == list[found@[j] as int],
            decreases found@.len() - i,
        {
            assert(list[found@[i as int] as int] == self.list@[found@[i as int] as int]@);
            out.push(&self.list[found[i]]);
            i = i + 1;
        }
        proof {
            assert forall|j: int| 0 <= j < out@.len() implies list.contains(#[trigger] out@[j]@) by {
                assert(list[found@[j] as int] == out@[j]@);
            }
            assert forall|m: int| 0 <= m < list.len() && reachable(list, column@, list[m])
                implies exists|i: int| 0 <= i < out@.len() && #[trigger] out@[i]@ == list[m] by {
                assert(found_has(list, found@, list[m]));
                let j = choose|j: int| 0 <= j < found@.len() && #[trigger] list[found@[j] as int] == list[m];
                assert(out@[j]@ == list[m]);
            }
        }
        out
    }

    /// True when a column with the same view as `c` is among the found columns.
    fn has_found(&self, found: &Vec<usize>, c: &Column) -> (r: bool)
        requires
            forall|j: int| 0 <= j < found@.len() ==> #[trigger] found@[j] < self@.len(),
        ensures
            r == found_has(self@, found@, c@),
    {
        let mut j: usize = 0;
        while j < found.len()
            invariant
                j <= found.len(),
                forall|x: int| 0 <= x < found@.len() ==> #[trigger] found@[x] < self@.len(),
                forall|x: int| 0 <= x < j ==> self@[found@[x] as int] != c@,
            decreases found.len() - j,
        {
            assert(self@[found@[j as int] as int] == self.list@[found@[j as int] as int]@);
            if same_column(&self.list[found[j]], c) {
                return true;
            }
            j = j + 1;
        }
        false
    }
}

/// Adding a column to the found columns keeps those found before.
proof fn lemma_found_grows(list: Seq<ColumnView>, found: Seq<usize>, x: usize)
    requires
        0 <= x < list.len(),
    ensures
        forall|v: ColumnView| found_has(list, found, v) ==> #[trigger] found_has(list, found.push(x), v),
        found_has(list, found.push(x), list[x as int]),
{
    assert forall|v: ColumnView| found_has(list, found, v) implies #[trigger] found_has(list, found.push(x), v) by {
        let j = choose|j: int| 0 <= j < found.len() && #[trigger] list[found[j] as int] == v;
        assert(found.push(x)[j] == found[j]);
    }
    assert(found.push(x)[found.len() as int] == x);
}

/// Found columns are distinct list columns, so there are no more of them than columns.
proof fn lemma_found_count(list: Seq<ColumnView>, found: Seq<usize>)
    requires
        forall|j: int| 0 <= j < found.len() ==> #[trigger] found[j] < list.len(),
        forall|a: int, b: int| 0 <= a < b < found.len() ==> list[found[a] as int] != list[found[b] as int],
    ensures
        found.len() <= list.len(),
{
    let fi = found.map_values(|x: usize| x as int);
    assert forall|a: int, b: int| 0 <= a < fi.len() && 0 <= b < fi.len() && a != b implies fi[a] != fi[b] by {
        if a < b {
            assert(list[found[a] as int] != list[found[b] as int]);
        } else {
            assert(list[found[b] as int] != list[found[a] as int]);
        }
    }
    assert(fi.no_duplicates());
    fi.unique_seq_to_set();
    vstd::set_lib::lemma_int_range(0, list.len() as int);
    assert forall|x: int| fi.to_set().contains(x) implies vstd::set_lib::set_int_range(0, list.len() as int).contains(x) by {
        let j = choose|j: int| 0 <= j < fi.len() && fi[j] == x;
        assert(found[j] < list.len());
    }
    vstd::set_lib::lemma_len_subset(fi.to_set(), vstd::set_lib::set_int_range(0, list.len() as int));
}

/// Every column within reach of the start is among the found columns, when the found
/// columns include the start's direct dependents and the dependents of each of them.
proof fn lemma_closed_found(list: Seq<ColumnView>, found: Seq<usize>, start: ColumnView, m: int, n: nat)
    requires
        0 <= m < list.len(),
        forall|j: int| 0 <= j < found.len() ==> #[trigger] found[j] < list.len(),
        forall|x: int| 0 <= x < list.len() && depends_on(list[x], start) ==> found_has(list, found, #[trigger] list[x]),
        forall|p: int, x: int| 0 <= p < found.len() && 0 <= x < list.len() && #[trigger] depends_on(list[x], list[found[p] as int])
            ==> found_has(list, found, list[x]),
        reach_within(list, start, list[m], n),
    ensures
        found_has(list, found, list[m]),
    decreases n,
{
    if depends_on(list[m], start) {
    } else {
        let k = choose|k: int| 0 <= k < list.len() && depends_on(list[m], #[trigger] list[k])
            && reach_within(list, start, list[k], (n - 1) as nat);
        lemma_closed_found(list, found, start, k, (n - 1) as nat);
        let j = choose|j: int| 0 <= j < found.len() && #[trigger] list[found[j] as int] == list[k];
        assert(depends_on(list[m], list[found[j] as int]));
    }
}


/// A piece of a statement about the column table.
pub const COLUMN_TABLE_DDL_0: &'static str = "CREATE TABLE \"";
/// A piece of a statement about the column table.
pub const COLUMN_TABLE_DDL_1: &'static str = "\" (\n              _id ";
/// A piece of a statement about the column table.
pub const COLUMN_TABLE_DDL_2: &'static str = ",\n              _order INTEGER UNIQUE,\n              \"table\" TEXT,\n              \"column\" TEXT,\n              \"label\" TEXT,\n              \"description\" TEXT,\n              \"nulltype\" TEXT,\n              \"datatype\" TEXT,\n              \"structure\" TEXT\n            )";
/// A piece of a statement about the column table.
pub const COLUMNS_SQL_0: &'static str = "\n                    SELECT DISTINCT\n                      main.name AS 'table',\n                      pti.name AS 'column',\n                      col.label AS 'label',\n                      col.description AS 'description',\n                      pti.type AS 'sql_type',\n                      col.nulltype AS 'nulltype',\n                      col.datatype AS 'datatype',\n                      col.structure AS 'structure',\n                      pti.pk AS 'primary_key',\n                      (SELECT name = pti.name FROM pragma_index_info(pil.name)) AS 'unique'\n                    FROM sqlite_master AS main\n                    JOIN pragma_table_info(main.name) AS pti\n                    LEFT JOIN pragma_index_list(main.name) AS pil\n                    LEFT JOIN \"";
/// A piece of a statement about the column table.
pub const COLUMNS_SQL_1: &'static str = "\" AS col ON col.\"table\" = main.name AND col.\"column\" = pti.name\n                    WHERE main.type = 'table'\n                      AND main.name != 'sqlite_sequence'";
/// A piece of a statement about the column table.
pub const COLUMNS_SQL_2: &'static str = "\n                    ORDER BY main.name;";
/// A piece of a statement about the column table.
pub const CONFIGURED_SQL_0: &'static str = "\n              SELECT\n                \"table\",\n                \"column\",\n                \"label\",\n                \"description\",\n                \"nulltype\",\n                \"datatype\",\n                \"structure\"\n              FROM \"";
/// A piece of a statement about the column table.
pub const CONFIGURED_SQL_1: &'static str = "\"\n              WHERE \"table\" IN(";
/// A piece of a statement about the column table.
pub const CONFIGURED_SQL_2: &'static str = ")\n            ";

/// The pattern of a valid name for the column table.
pub const TABLE_NAME_PATTERN: &'static str = r"^\w+$";

/// The quoted table names, separated by commas: `'a', 'b'`.
pub open spec fn quoted_table_list(tables: Seq<Seq<char>>) -> Seq<char> {
    seq_join(tables.map_values(|t: Seq<char>| seq!['\''] + t + seq!['\'']), ", "@)
}

/// The special "column" table: where the columns' configuration is kept.
#[derive(Debug)]
pub struct ColumnTable {
    /// The name of the table, "column" by default
    table_name: String,
    /// The kind of database that holds it
    kind: crate::sql::DbKind,
}

fn quoted_tables(tables: &Vec<String>) -> (r: String)
    ensures
        r@ == quoted_table_list(crate::text::views(tables@)),
{
    let mut parts: Vec<String> = Vec::new();
    let mut i: usize = 0;
    while i < tables.len()
        invariant
            i <= tables.len(),
            crate::text::views(parts@) == crate::text::views(tables@).take(i as int).map_values(|t: Seq<char>| seq!['\''] + t + seq!['\'']),
        decreases tables.len() - i,
    {
        let mut p = String::new();
        crate::text::push_char(&mut p, '\'');
        p.append(tables[i].as_str());
        crate::text::push_char(&mut p, '\'');
        assert(p@ =~= seq!['\''] + crate::text::views(tables@)[i as int] + seq!['\'']);
        proof { crate::text::lemma_views_push(parts@, p); }
        parts.push(p);
        i = i + 1;
        assert(crate::text::views(parts@) =~= crate::text::views(tables@).take(i as int).map_values(|t: Seq<char>| seq!['\''] + t + seq!['\'']));
    }
    assert(crate::text::views(tables@).take(i as int) =~= crate::text::views(tables@));
    crate::text::join(&parts, ", ")
}

impl ColumnTable {
    /// The name of the table.
    pub closed spec fn name_view(&self) -> Seq<char> {
        self.table_name@
    }

    /// The kind of database that holds the table.
    pub closed spec fn kind_view(&self) -> crate::sql::DbKind {
        self.kind
    }

    /// The column table of a database of the given kind, named "column".
    pub fn connect(kind: &crate::sql::DbKind) -> (r: Self)
        ensures
            r.name_view() == "column"@,
            r.kind_view() == *kind,
    {
        ColumnTable { table_name: owned("column"), kind: *kind }
    }

    /// Use this name for the column table. A name that is not made of word characters is a
    /// data error.
    pub fn name(self, table_name: &str) -> (r: Result<Self, RelatableError>)
        ensures
            crate::pattern::regex_valid(TABLE_NAME_PATTERN@) ==> match r {
                Ok(t) => crate::pattern::regex_captures_spec(TABLE_NAME_PATTERN@, table_name@) is Some
                    && t.name_view() == table_name@ && t.kind_view() == self.kind_view(),
                Err(e) => crate::pattern::regex_captures_spec(TABLE_NAME_PATTERN@, table_name@) is None
                    && e is DataError && e.message_view() == "Not a valid table name: "@ + table_name@,
            },
    {
        match crate::pattern::regex_captures(TABLE_NAME_PATTERN, table_name) {
            Ok(Some(_)) => Ok(ColumnTable { table_name: owned(table_name), kind: self.kind }),
            Ok(None) => {
                let mut m = owned("Not a valid table name: ");
                m.append(table_name);
                Err(RelatableError::DataError(m))
            },
            Err(_) => Err(RelatableError::ConfigError(owned("invalid pattern for table names"))),
        }
    }

    /// The statement that creates the column table; its `_id` is the primary key.
    pub fn ddl(&self) -> (r: String)
        ensures
            r@ == COLUMN_TABLE_DDL_0@ + self.name_view() + COLUMN_TABLE_DDL_1@ + match self.kind_view() {
                crate::sql::DbKind::SQLite => "INTEGER PRIMARY KEY AUTOINCREMENT"@,
                crate::sql::DbKind::PostgreSQL => "SERIAL PRIMARY KEY"@,
            } + COLUMN_TABLE_DDL_2@,
    {
        let mut s = owned(COLUMN_TABLE_DDL_0);
        s.append(self.table_name.as_str());
        s.append(COLUMN_TABLE_DDL_1);
        match self.kind {
            crate::sql::DbKind::SQLite => s.append("INTEGER PRIMARY KEY AUTOINCREMENT"),
            crate::sql::DbKind::PostgreSQL => s.append("SERIAL PRIMARY KEY"),
        }
        s.append(COLUMN_TABLE_DDL_2);
        s
    }

    /// The statement that drops the column table, with `CASCADE` for PostgreSQL.
    pub fn drop_sql(&self) -> (r: String)
        ensures
            r@ == crate::sql::drop_table_sql(self.name_view(), self.kind_view()),
    {
        let mut s = owned("DROP TABLE IF EXISTS \"");
        s.append(self.table_name.as_str());
        match self.kind {
            crate::sql::DbKind::PostgreSQL => s.append("\" CASCADE"),
            crate::sql::DbKind::SQLite => crate::text::push_char(&mut s, '"'),
        }
        assert(s@ =~= crate::sql::drop_table_sql(self.name_view(), self.kind_view()));
        s
    }

    /// The SQLite query over the columns of the database's tables (only the given ones,
    /// when some are given), merged with their configuration in the column table.
    pub fn get_sql(&self, tables: &Vec<String>) -> (r: String)
        requires
            self.kind_view() == crate::sql::DbKind::SQLite,
        ensures
            r@ == COLUMNS_SQL_0@ + self.name_view() + COLUMNS_SQL_1@
                + (if tables@.len() > 0 {
                    "\n  AND main.name IN("@ + quoted_table_list(crate::text::views(tables@)) + ")"@
                } else {
                    Seq::empty()
                }) + COLUMNS_SQL_2@,
    {
        let mut s = owned(COLUMNS_SQL_0);
        s.append(self.table_name.as_str());
        s.append(COLUMNS_SQL_1);
        if tables.len() > 0 {
            s.append("\n  AND main.name IN(");
            s.append(quoted_tables(tables).as_str());
            s.append(")");
        }
        s.append(COLUMNS_SQL_2);
        s
    }

    /// The query over the configuration of the given tables' columns in the column table.
    pub fn get_configured_sql(&self, tables: &Vec<String>) -> (r: String)
        ensures
            r@ == CONFIGURED_SQL_0@ + self.name_view() + CONFIGURED_SQL_1@
                + quoted_table_list(crate::text::views(tables@)) + CONFIGURED_SQL_2@,
    {
        let mut s = owned(CONFIGURED_SQL_0);
        s.append(self.table_name.as_str());
        s.append(CONFIGURED_SQL_1);
        s.append(quoted_tables(tables).as_str());
        s.append(CONFIGURED_SQL_2);
        s
    }
}

} // verus!

verus! {

/// What a column's flag (`primary_key`, `unique`) reads from a stored value: a boolean as
/// it is, an integer as true when it is not zero; any other value is refused.
pub open spec fn to_bool_spec(j: crate::json::Json) -> Option<bool> {
    match j {
        crate::json::Json::Bool(b) => Some(b),
        crate::json::Json::Int(n) => Some(n != 0),
        _ => None,
    }
}

/// Reads a column's flag from a stored value (see [to_bool_spec]); an input error for a
/// value that is neither a boolean nor an integer.
pub fn to_bool(value: &crate::json::JsonValue) -> (r: Result<bool, RelatableError>)
    ensures
        match r {
            Ok(b) => to_bool_spec(value@) == Some(b),
            Err(e) => to_bool_spec(value@) is None && e.kind() == crate::error::ErrorKind::Input,
        },
{
    match value {
        crate::json::JsonValue::Bool(b) => Ok(*b),
        crate::json::JsonValue::Number(crate::json::JsonNumber::PosInt(n)) => Ok(*n != 0),
        crate::json::JsonValue::Number(crate::json::JsonNumber::NegInt(n)) => Ok(*n != 0),
        _ => Err(RelatableError::InputError(owned("invalid type, expected an integer"))),
    }
}

} // verus!
