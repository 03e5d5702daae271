//! Datatypes: named kinds of values that form a hierarchy through their parents,
//! each with an optional validation condition and SQL type.
use vstd::prelude::*;

use crate::error::RelatableError;
use crate::maps::{insert_entry, key_pos, lemma_insert_lookup, lemma_key_pos, lookup};
use crate::text::{is_empty_str, owned};

verus! {

broadcast use vstd::std_specs::vec::group_vec_axioms;

/// The identifier of a row.
pub type RowID = u64;

/// The sort position of a row.
pub type RowOrder = u64;

/// A column's datatype.
#[derive(Debug, PartialEq, Eq)]
pub struct Datatype {
    pub id: RowID,
    pub order: RowOrder,
    pub datatype: String,
    pub description: String,
    pub parent: String,
    pub condition: String,
    pub sql_type: String,
    pub format: String,
}

/// The model of a datatype.
pub struct DatatypeView {
    pub id: RowID,
    pub order: RowOrder,
    pub datatype: Seq<char>,
    pub description: Seq<char>,
    pub parent: Seq<char>,
    pub condition: Seq<char>,
    pub sql_type: Seq<char>,
    pub format: Seq<char>,
}

impl View for Datatype {
    type V = DatatypeView;

    open spec fn view(&self) -> DatatypeView {
        DatatypeView {
            id: self.id,
            order: self.order,
            datatype: self.datatype@,
            description: self.description@,
            parent: self.parent@,
            condition: self.condition@,
            sql_type: self.sql_type@,
            format: self.format@,
        }
    }
}

impl Clone for Datatype {
    fn clone(&self) -> (r: Self)
        ensures
            r@ == self@,
    {
        Datatype {
            id: self.id,
            order: self.order,
            datatype: self.datatype.clone(),
            description: self.description.clone(),
            parent: self.parent.clone(),
            condition: self.condition.clone(),
            sql_type: self.sql_type.clone(),
            format: self.format.clone(),
        }
    }
}

impl Datatype {
    /// A datatype with no name whose parent is `text`.
    pub fn default() -> (r: Self)
        ensures
            r@ == (DatatypeView {
                id: 0,
                order: 0,
                datatype: Seq::empty(),
                description: Seq::empty(),
                parent: "text"@,
                condition: Seq::empty(),
                sql_type: Seq::empty(),
                format: Seq::empty(),
            }),
    {
        Datatype {
            id: 0,
            order: 0,
            datatype: String::new(),
            description: String::new(),
            parent: String::from_str("text"),
            condition: String::new(),
            sql_type: String::new(),
            format: String::new(),
        }
    }
}

/// Builds a [Datatype]: each field not set is taken from [Datatype::default].
#[derive(Debug)]
pub struct DatatypeBuilder {
    id: Option<RowID>,
    order: Option<RowOrder>,
    datatype: Option<String>,
    description: Option<String>,
    parent: Option<String>,
    condition: Option<String>,
    sql_type: Option<String>,
    format: Option<String>,
}

/// The value of an optional builder field, or the default.
pub open spec fn or_seq(o: Option<String>, default: Seq<char>) -> Seq<char> {
    match o {
        Some(s) => s@,
        None => default,
    }
}

fn or_string(o: &Option<String>, default: &str) -> (r: String)
    ensures
        r@ == or_seq(*o, default@),
{
    match o {
        Some(s) => s.clone(),
        None => owned(default),
    }
}

fn or_empty(o: &Option<String>) -> (r: String)
    ensures
        r@ == or_seq(*o, Seq::empty()),
{
    match o {
        Some(s) => s.clone(),
        None => String::new(),
    }
}

impl DatatypeBuilder {
    /// The datatype that [DatatypeBuilder::build] makes.
    pub closed spec fn built_view(&self) -> DatatypeView {
        DatatypeView {
            id: match self.id { Some(i) => i, None => 0 },
            order: match self.order { Some(o) => o, None => 0 },
            datatype: or_seq(self.datatype, Seq::empty()),
            description: or_seq(self.description, Seq::empty()),
            parent: or_seq(self.parent, "text"@),
            condition: or_seq(self.condition, Seq::empty()),
            sql_type: or_seq(self.sql_type, Seq::empty()),
            format: or_seq(self.format, Seq::empty()),
        }
    }

    /// A builder with nothing set.
    pub fn default() -> (r: Self)
        ensures
            r.built_view() == Self::default_view(),
    {
        DatatypeBuilder {
            id: None,
            order: None,
            datatype: None,
            description: None,
            parent: None,
            condition: None,
            sql_type: None,
            format: None,
        }
    }

    /// A builder for a new datatype with the given name.
    pub fn new(datatype: &str) -> (r: Self)
        ensures
            r.built_view() == (DatatypeView { datatype: datatype@, ..Self::default_view() }),
    {
        let mut new = Self::default();
        new.datatype = Some(owned(datatype));
        new
    }

    /// The view of [Datatype::default].
    pub open spec fn default_view() -> DatatypeView {
        DatatypeView {
            id: 0,
            order: 0,
            datatype: Seq::empty(),
            description: Seq::empty(),
            parent: "text"@,
            condition: Seq::empty(),
            sql_type: Seq::empty(),
            format: Seq::empty(),
        }
    }

    pub fn id(self, id: RowID) -> (r: Self)
        ensures
            r.built_view() == (DatatypeView { id: id, ..self.built_view() }),
    {
        DatatypeBuilder { id: Some(id), ..self }
    }

    pub fn order(self, order: RowOrder) -> (r: Self)
        ensures
            r.built_view() == (DatatypeView { order: order, ..self.built_view() }),
    {
        DatatypeBuilder { order: Some(order), ..self }
    }

    pub fn datatype(self, value: &str) -> (r: Self)
        ensures
            r.built_view() == (DatatypeView { datatype: value@, ..self.built_view() }),
    {
        DatatypeBuilder { datatype: Some(owned(value)), ..self }
    }

    pub fn description(self, value: &str) -> (r: Self)
        ensures
            r.built_view() == (DatatypeView { description: value@, ..self.built_view() }),
    {
        DatatypeBuilder { description: Some(owned(value)), ..self }
    }

    pub fn parent(self, value: &str) -> (r: Self)
        ensures
            r.built_view() == (DatatypeView { parent: value@, ..self.built_view() }),
    {
        DatatypeBuilder { parent: Some(owned(value)), ..self }
    }

    pub fn condition(self, value: &str) -> (r: Self)
        ensures
            r.built_view() == (DatatypeView { condition: value@, ..self.built_view() }),
    {
        DatatypeBuilder { condition: Some(owned(value)), ..self }
    }

    pub fn sql_type(self, value: &str) -> (r: Self)
        ensures
            r.built_view() == (DatatypeView { sql_type: value@, ..self.built_view() }),
    {
        DatatypeBuilder { sql_type: Some(owned(value)), ..self }
    }

    pub fn format(self, value: &str) -> (r: Self)
        ensures
            r.built_view() == (DatatypeView { format: value@, ..self.built_view() }),
    {
        DatatypeBuilder { format: Some(owned(value)), ..self }
    }

    /// The datatype, each field not set taken from [Datatype::default]. Always succeeds.
    pub fn build(&self) -> (r: Result<Datatype, RelatableError>)
        ensures
            r matches Ok(d) && d@ == self.built_view(),
    {
        let id = match self.id { Some(i) => i, None => 0 };
        let order = match self.order { Some(o) => o, None => 0 };
        Ok(Datatype {
            id,
            order,
            datatype: or_empty(&self.datatype),
            description: or_empty(&self.description),
            parent: or_string(&self.parent, "text"),
            condition: or_empty(&self.condition),
            sql_type: or_empty(&self.sql_type),
            format: or_empty(&self.format),
        })
    }
}

// ---------------------------------------------------------------------------
// The map of datatypes
// ---------------------------------------------------------------------------

/// The entries of a map of datatypes: names and datatypes, in insertion order.
pub uninterp spec fn datatype_entries(m: indexmap::IndexMap<String, Datatype>) -> Seq<(Seq<char>, DatatypeView)>;

/// `IndexMap::new`: an empty map.
#[verifier::external_body]
fn datatype_map_new() -> (r: indexmap::IndexMap<String, Datatype>)
    ensures
        datatype_entries(r) == Seq::<(Seq<char>, DatatypeView)>::empty(),
{
    indexmap::IndexMap::new()
}

/// `IndexMap::insert`: an existing key keeps its place and takes the new value;
/// a new key goes last.
#[verifier::external_body]
fn datatype_map_insert(m: &mut indexmap::IndexMap<String, Datatype>, key: String, value: Datatype)
    ensures
        datatype_entries(*final(m)) == insert_entry(datatype_entries(*old(m)), key@, value@),
{
    m.insert(key, value);
}

/// `IndexMap::get`: the value stored under the key.
#[verifier::external_body]
fn datatype_map_get<'a>(m: &'a indexmap::IndexMap<String, Datatype>, key: &str) -> (r: Option<&'a Datatype>)
    ensures
        match r {
            Some(d) => lookup(datatype_entries(*m), key@) == Some(d@),
            None => lookup(datatype_entries(*m), key@) is None,
        },
{
    m.get(key)
}

/// `IndexMap::len`: the number of entries.
#[verifier::external_body]
fn datatype_map_len(m: &indexmap::IndexMap<String, Datatype>) -> (r: usize)
    ensures
        r == datatype_entries(*m).len(),
{
    m.len()
}

/// `IndexMap::get_index`: the entry at a position; an `IndexMap` holds each key once,
/// so no earlier entry has the same key.
#[verifier::external_body]
fn datatype_map_get_index<'a>(m: &'a indexmap::IndexMap<String, Datatype>, index: usize) -> (r: Option<(&'a String, &'a Datatype)>)
    ensures
        match r {
            Some((k, d)) => index < datatype_entries(*m).len() && datatype_entries(*m)[index as int] == (k@, d@)
                && crate::maps::key_pos(datatype_entries(*m), k@) == index,
            None => index >= datatype_entries(*m).len(),
        },
{
    m.get_index(index)
}

/// The datatypes by name, in the order they were added.
#[derive(Debug)]
pub struct Datatypes {
    map: indexmap::IndexMap<String, Datatype>,
}

impl View for Datatypes {
    type V = Seq<(Seq<char>, DatatypeView)>;

    closed spec fn view(&self) -> Seq<(Seq<char>, DatatypeView)> {
        datatype_entries(self.map)
    }
}

/// The datatype followed by its ancestors, nearest first, when the chain of parents
/// ends within `n` more steps; `None` when it does not.
pub open spec fn ancestry(e: Seq<(Seq<char>, DatatypeView)>, dt: DatatypeView, n: nat) -> Option<Seq<DatatypeView>>
    decreases n,
{
    match lookup(e, dt.parent) {
        None => Some(seq![dt]),
        Some(p) => if n == 0 {
            None
        } else {
            match ancestry(e, p, (n - 1) as nat) {
                Some(rest) => Some(seq![dt] + rest),
                None => None,
            }
        },
    }
}

/// The SQL type of the datatype: its own if it has one, else its parent's, and
/// `text` when no parent is found; `None` when that search does not end within `n` steps.
pub open spec fn sql_type_of(e: Seq<(Seq<char>, DatatypeView)>, dt: DatatypeView, n: nat) -> Option<Seq<char>>
    decreases n,
{
    if dt.sql_type.len() > 0 {
        Some(dt.sql_type)
    } else {
        match lookup(e, dt.parent) {
            None => Some("text"@),
            Some(p) => if n == 0 { None } else { sql_type_of(e, p, (n - 1) as nat) },
        }
    }
}

/// The first non-empty SQL type in a list of datatypes.
pub open spec fn first_sql_type(s: Seq<DatatypeView>) -> Option<Seq<char>>
    decreases s.len(),
{
    if s.len() == 0 {
        None
    } else if s[0].sql_type.len() > 0 {
        Some(s[0].sql_type)
    } else {
        first_sql_type(s.skip(1))
    }
}

/// The views of a list of datatype references.
pub open spec fn datatype_views(s: Seq<&Datatype>) -> Seq<DatatypeView> {
    s.map_values(|d: &Datatype| d@)
}

/// The names and descriptions, parents, conditions and SQL types of the built-in datatypes.
pub open spec fn builtin_view(name: Seq<char>, description: Seq<char>, parent: Seq<char>, condition: Seq<char>, sql_type: Seq<char>) -> (Seq<char>, DatatypeView) {
    (name, DatatypeView {
        id: 0,
        order: 0,
        datatype: name,
        description,
        parent,
        condition,
        sql_type,
        format: Seq::empty(),
    })
}

/// The built-in datatypes, in order.
pub open spec fn builtin_datatypes() -> Seq<(Seq<char>, DatatypeView)> {
    seq![
        builtin_view("text"@, "any text"@, ""@, ""@, "TEXT"@),
        builtin_view("empty"@, "the empty string"@, "text"@, "equals('')"@, ""@),
        builtin_view("line"@, "a line of text"@, "text"@, "match([^\\n]+)"@, ""@),
        builtin_view("trimmed_line"@, "a line of text that deos not begin or end with whitespace"@, "line"@,
            "match(\\S([^\\n]*\\S)*)"@, ""@),
        builtin_view("nonspace"@, "text without whitespace"@, "trimmed_line"@, "match([^\\s]+)"@, ""@),
        builtin_view("word"@, "a single word: letters, numbers, underscore"@, "nonspace"@, "match(\\w+)"@, ""@),
        builtin_view("integer"@, "an integer"@, "nonspace"@, "match(-?\\d+)"@, "INTEGER"@),
    ]
}

impl Datatypes {
    /// No datatypes.
    pub fn new() -> (r: Self)
        ensures
            r@ == Seq::<(Seq<char>, DatatypeView)>::empty(),
    {
        Datatypes { map: datatype_map_new() }
    }

    /// Add a datatype under the given name: a name already present keeps its place
    /// and takes the new datatype; a new name goes last.
    pub fn insert(&mut self, name: &str, datatype: Datatype)
        ensures
            final(self)@ == insert_entry(old(self)@, name@, datatype@),
    {
        datatype_map_insert(&mut self.map, owned(name), datatype);
    }

    /// The datatype with the given name.
    pub fn get(&self, name: &str) -> (r: Option<&Datatype>)
        ensures
            match r {
                Some(d) => lookup(self@, name@) == Some(d@),
                None => lookup(self@, name@) is None,
            },
    {
        datatype_map_get(&self.map, name)
    }

    /// The number of datatypes.
    pub fn len(&self) -> (r: usize)
        ensures
            r == self@.len(),
    {
        datatype_map_len(&self.map)
    }

    /// The datatypes, in order.
    pub fn values(&self) -> (r: Vec<&Datatype>)
        ensures
            datatype_views(r@) == self@.map_values(|p: (Seq<char>, DatatypeView)| p.1),
    {
        let n = datatype_map_len(&self.map);
        let mut out: Vec<&Datatype> = Vec::new();
        let mut i: usize = 0;
        while i < n
            invariant
                n == self@.len(),
                i <= n,
                out@.len() == i,
                forall|j: int| 0 <= j < i ==> #[trigger] out@[j]@ == self@[j].1,
            decreases n - i,
        {
            match datatype_map_get_index(&self.map, i) {
                Some((_, d)) => out.push(d),
                None => {
                    assert(false);
                },
            }
            i = i + 1;
        }
        assert(datatype_views(out@) =~= self@.map_values(|p: (Seq<char>, DatatypeView)| p.1));
        out
    }

    /// The built-in datatypes, by name: `text` (SQL type `TEXT`), `empty`, `line`,
    /// `trimmed_line`, `nonspace`, `word`, and `integer` (SQL type `INTEGER`).
    pub fn builtins() -> (r: Self)
        ensures
            r@ == builtin_datatypes(),
    {
        proof {
            reveal_strlit("text");
            reveal_strlit("empty");
            reveal_strlit("line");
            reveal_strlit("trimmed_line");
            reveal_strlit("nonspace");
            reveal_strlit("word");
            reveal_strlit("integer");
        }
        let mut r = Datatypes::new();
        proof {
            lemma_builtin_names_differ();
        }
        r.add_builtin("text", "any text", "", "", "TEXT");
        r.add_builtin("empty", "the empty string", "text", "equals('')", "");
        r.add_builtin("line", "a line of text", "text", "match([^\\n]+)", "");
        r.add_builtin("trimmed_line", "a line of text that deos not begin or end with whitespace", "line",
            "match(\\S([^\\n]*\\S)*)", "");
        r.add_builtin("nonspace", "text without whitespace", "trimmed_line", "match([^\\s]+)", "");
        r.add_builtin("word", "a single word: letters, numbers, underscore", "nonspace", "match(\\w+)", "");
        r.add_builtin("integer", "an integer", "nonspace", "match(-?\\d+)", "INTEGER");
        assert(r@ =~= builtin_datatypes());
        r
    }

    /// Adds a built-in datatype whose name is not yet present.
    fn add_builtin(&mut self, name: &str, description: &str, parent: &str, condition: &str, sql_type: &str)
        requires
            forall|j: int| 0 <= j < old(self)@.len() ==> old(self)@[j].0 != name@,
        ensures
            final(self)@ == old(self)@.push(builtin_view(name@, description@, parent@, condition@, sql_type@)),
    {
        let d = DatatypeBuilder::new(name).description(description).parent(parent).condition(condition)
            .sql_type(sql_type).build();
        proof {
            lemma_key_pos(self@, name@);
        }
        match d {
            Ok(d) => self.insert(name, d),
            Err(_) => {},
        }
    }

    /// The parent of the datatype, if it is among these datatypes.
    pub fn parent(&self, datatype: &Datatype) -> (r: Option<&Datatype>)
        ensures
            match r {
                Some(d) => lookup(self@, datatype.parent@) == Some(d@),
                None => lookup(self@, datatype.parent@) is None,
            },
    {
        self.get(datatype.parent.as_str())
    }

    /// The datatype followed by its ancestors, nearest first. The chain of parents
    /// must end: no datatype may be its own ancestor.
    pub fn ancestors<'a>(&'a self, datatype: &'a Datatype) -> (r: Vec<&'a Datatype>)
        requires
            ancestry(self@, datatype@, self@.len()) is Some,
        ensures
            Some(datatype_views(r@)) == ancestry(self@, datatype@, self@.len()),
    {
        let n = self.len();
        let mut out: Vec<&'a Datatype> = Vec::new();
        let mut cur: &'a Datatype = datatype;
        let mut left: usize = n;
        loop
            invariant
                n == self@.len(),
                left <= n,
                ancestry(self@, cur@, left as nat) is Some,
                ancestry(self@, datatype@, n as nat) == Some(datatype_views(out@) + ancestry(self@, cur@, left as nat)->0),
            decreases left,
        {
            let ghost before = out@;
            out.push(cur);
            assert(datatype_views(out@) == datatype_views(before).push(cur@)) by {
                assert(datatype_views(out@) =~= datatype_views(before).push(cur@));
            }
            match self.parent(cur) {
                None => {
                    assert(datatype_views(out@) =~= datatype_views(before) + seq![cur@]);
                    return out;
                },
                Some(p) => {
                    let ghost rest = ancestry(self@, p@, (left - 1) as nat)->0;
                    assert(datatype_views(before) + (seq![cur@] + rest) =~= datatype_views(out@) + rest);
                    cur = p;
                    left = left - 1;
                },
            }
        }
    }

    /// The SQL type of the datatype, or of its nearest ancestor that has one;
    /// `text` when none has one. The search must end: it may not run into a cycle
    /// of datatypes without an SQL type.
    pub fn sql_type(&self, datatype: &Datatype) -> (r: String)
        requires
            sql_type_of(self@, datatype@, self@.len()) is Some,
        ensures
            Some(r@) == sql_type_of(self@, datatype@, self@.len()),
    {
        let n = self.len();
        let mut cur: &Datatype = datatype;
        let mut left: usize = n;
        loop
            invariant
                n == self@.len(),
                left <= n,
                sql_type_of(self@, cur@, left as nat) == sql_type_of(self@, datatype@, n as nat),
                sql_type_of(self@, cur@, left as nat) is Some,
            decreases left,
        {
            if !is_empty_str(cur.sql_type.as_str()) {
                return cur.sql_type.clone();
            }
            match self.parent(cur) {
                None => {
                    return String::from_str("text");
                },
                Some(p) => {
                    cur = p;
                    left = left - 1;
                },
            }
        }
    }

    /// The datatypes read from the datatype table, each under its own name, with the
    /// built-in datatypes put over them: a built-in keeps the place of a row with its
    /// name but replaces the row.
    pub fn with_builtins(rows: Vec<Datatype>) -> (r: Self)
        ensures
            r@ == builtins_over(rows@.map_values(|d: Datatype| d@)),
    {
        let ghost views = rows@.map_values(|d: Datatype| d@);
        let total = rows.len();
        assert(views.len() == total);
        let mut r = Datatypes::new();
        let mut rows = rows;
        let mut taken: Vec<Datatype> = Vec::new();
        // Keep the rows' order: take them from the back, then insert from the front.
        while rows.len() > 0
            invariant
                rows@.len() + taken@.len() == views.len(),
                views.len() <= usize::MAX,
                forall|j: int| 0 <= j < rows@.len() ==> #[trigger] rows@[j]@ == views[j],
                forall|j: int| 0 <= j < taken@.len() ==> #[trigger] taken@[j]@ == views[views.len() - 1 - j],
            decreases rows@.len(),
        {
            let d = rows.pop().unwrap();
            taken.push(d);
        }
        let mut i: usize = 0;
        while taken.len() > 0
            invariant
                i + taken@.len() == views.len(),
                views.len() <= usize::MAX,
                forall|j: int| 0 <= j < taken@.len() ==> #[trigger] taken@[j]@ == views[views.len() - 1 - j],
                r@ == rows_map(views.take(i as int)),
            decreases taken@.len(),
        {
            let d = taken.pop().unwrap();
            assert(d@ == views[i as int]);
            let name = d.datatype.clone();
            r.insert(name.as_str(), d);
            i = i + 1;
            assert(views.take(i as int).drop_last() =~= views.take((i - 1) as int));
        }
        assert(views.take(i as int) =~= views);
        let builtins = Datatypes::builtins();
        let b = builtins.values();
        assert(builtin_datatypes().len() == 7);
        assert(datatype_views(b@).len() == b@.len());
        let mut k: usize = 0;
        while k < b.len()
            invariant
                b@.len() == 7,
                datatype_views(b@) == builtin_datatypes().map_values(|p: (Seq<char>, DatatypeView)| p.1),
                k <= b.len(),
                r@ == overlay(rows_map(views), builtin_datatypes().take(k as int)),
            decreases b.len() - k,
        {
            assert(datatype_views(b@)[k as int] == b@[k as int]@);
            let d: Datatype = b[k].clone();
            assert(d@ == builtin_datatypes()[k as int].1);
            assert(builtin_datatypes()[k as int].0 == d@.datatype);
            let name = d.datatype.clone();
            r.insert(name.as_str(), d);
            k = k + 1;
            assert(builtin_datatypes().take(k as int).drop_last() =~= builtin_datatypes().take((k - 1) as int));
        }
        assert(builtin_datatypes().take(7) =~= builtin_datatypes());
        r
    }
}

/// The map made by inserting each datatype under its name, in order.
pub open spec fn rows_map(rows: Seq<DatatypeView>) -> Seq<(Seq<char>, DatatypeView)>
    decreases rows.len(),
{
    if rows.len() == 0 {
        Seq::empty()
    } else {
        insert_entry(rows_map(rows.drop_last()), rows.last().datatype, rows.last())
    }
}

/// The map `base` with the given entries inserted over it, in order.
pub open spec fn overlay(base: Seq<(Seq<char>, DatatypeView)>, entries: Seq<(Seq<char>, DatatypeView)>) -> Seq<(Seq<char>, DatatypeView)>
    decreases entries.len(),
{
    if entries.len() == 0 {
        base
    } else {
        let last = entries.last();
        insert_entry(overlay(base, entries.drop_last()), last.0, last.1)
    }
}

/// The rows of the datatype table, with the built-in datatypes put over them.
pub open spec fn builtins_over(rows: Seq<DatatypeView>) -> Seq<(Seq<char>, DatatypeView)> {
    overlay(rows_map(rows), builtin_datatypes())
}

// ---------------------------------------------------------------------------
// Laws
// ---------------------------------------------------------------------------

/// The SQL type of a datatype whose ancestry ends is the first SQL type found among
/// the datatype and its ancestors, nearest first, or `text` when none has one.
pub proof fn lemma_sql_type_from_ancestors(e: Seq<(Seq<char>, DatatypeView)>, dt: DatatypeView, n: nat)
    requires
        ancestry(e, dt, n) is Some,
    ensures
        sql_type_of(e, dt, n) == Some(match first_sql_type(ancestry(e, dt, n)->0) {
            Some(t) => t,
            None => "text"@,
        }),
    decreases n,
{
    let a = ancestry(e, dt, n)->0;
    match lookup(e, dt.parent) {
        None => {
            assert(a == seq![dt]);
            assert(a.skip(1) =~= Seq::<DatatypeView>::empty());
            assert(first_sql_type(a.skip(1)) is None);
            assert(a[0] == dt);
        },
        Some(p) => {
            assert(n > 0);
            lemma_sql_type_from_ancestors(e, p, (n - 1) as nat);
            let rest = ancestry(e, p, (n - 1) as nat)->0;
            assert(a == seq![dt] + rest);
            assert(a.skip(1) =~= rest);
            assert(a[0] == dt);
        },
    }
}

/// The names of the built-in datatypes differ from one another.
proof fn lemma_builtin_names_differ()
    ensures
        "text"@ != "empty"@ && "text"@ != "line"@ && "text"@ != "trimmed_line"@ && "text"@ != "nonspace"@
            && "text"@ != "word"@ && "text"@ != "integer"@,
        "empty"@ != "line"@ && "empty"@ != "trimmed_line"@ && "empty"@ != "nonspace"@
            && "empty"@ != "word"@ && "empty"@ != "integer"@,
        "line"@ != "trimmed_line"@ && "line"@ != "nonspace"@ && "line"@ != "word"@ && "line"@ != "integer"@,
        "trimmed_line"@ != "nonspace"@ && "trimmed_line"@ != "word"@ && "trimmed_line"@ != "integer"@,
        "nonspace"@ != "word"@ && "nonspace"@ != "integer"@ && "word"@ != "integer"@,
{
    reveal_strlit("text");
    reveal_strlit("empty");
    reveal_strlit("line");
    reveal_strlit("trimmed_line");
    reveal_strlit("nonspace");
    reveal_strlit("word");
    reveal_strlit("integer");
    assert("text"@[0] == 't' && "text"@[1] == 'e');
    assert("empty"@[0] == 'e');
    assert("line"@[0] == 'l');
    assert("trimmed_line"@[0] == 't' && "trimmed_line"@[1] == 'r');
    assert("nonspace"@[0] == 'n');
    assert("word"@[0] == 'w');
    assert("integer"@[0] == 'i');
}

/// Built-in datatypes take priority over rows of the datatype table: whatever the rows,
/// each built-in name maps to the built-in datatype.
pub proof fn lemma_builtins_take_priority(rows: Seq<DatatypeView>, i: int)
    requires
        0 <= i < builtin_datatypes().len(),
    ensures
        lookup(builtins_over(rows), builtin_datatypes()[i].0) == Some(builtin_datatypes()[i].1),
{
    let b = builtin_datatypes();
    reveal_strlit("text");
    reveal_strlit("empty");
    reveal_strlit("line");
    reveal_strlit("trimmed_line");
    reveal_strlit("nonspace");
    reveal_strlit("word");
    reveal_strlit("integer");
    assert(b.len() == 7);
    assert(b[0].0 == "text"@ && b[1].0 == "empty"@ && b[2].0 == "line"@ && b[3].0 == "trimmed_line"@
        && b[4].0 == "nonspace"@ && b[5].0 == "word"@ && b[6].0 == "integer"@);
    lemma_builtin_names_differ();
    assert forall|j: int, k: int| 0 <= j < k < b.len() implies b[j].0 != b[k].0 by {
        assert(j == 0 || j == 1 || j == 2 || j == 3 || j == 4 || j == 5);
        assert(k == 1 || k == 2 || k == 3 || k == 4 || k == 5 || k == 6);
    }
    lemma_overlay_keeps(rows_map(rows), b, i);
}

proof fn lemma_overlay_keeps(base: Seq<(Seq<char>, DatatypeView)>, entries: Seq<(Seq<char>, DatatypeView)>, i: int)
    requires
        0 <= i < entries.len(),
        forall|j: int, k: int| 0 <= j < k < entries.len() ==> entries[j].0 != entries[k].0,
    ensures
        lookup(overlay(base, entries), entries[i].0) == Some(entries[i].1),
    decreases entries.len(),
{
    let last = entries.last();
    let prev = entries.drop_last();
    if i == entries.len() - 1 {
        lemma_insert_lookup(overlay(base, prev), last.0, last.1, last.0);
    } else {
        lemma_overlay_keeps(base, prev, i);
        lemma_insert_lookup(overlay(base, prev), last.0, last.1, entries[i].0);
    }
}


// ---------------------------------------------------------------------------
// Validating a column against its datatype's condition
// ---------------------------------------------------------------------------

/// The condition `equals(value)`.
pub const EQUALS_PATTERN: &'static str = r"^equals\((.+?)\)$";

/// The condition `in(value, ...)`.
pub const IN_CONDITION_PATTERN: &'static str = r"^in\((.+?)\)$";

/// The condition `match(pattern)`.
pub const MATCH_PATTERN: &'static str = r"^match\((.+?)\)$";

/// True when the patterns of conditions are valid.
pub open spec fn condition_patterns_valid() -> bool {
    &&& crate::pattern::regex_valid(EQUALS_PATTERN@)
    &&& crate::pattern::regex_valid(MATCH_PATTERN@)
    &&& crate::pattern::regex_valid(IN_CONDITION_PATTERN@)
    &&& crate::pattern::regex_valid(crate::structure::UNQUOTED_PATTERN@)
    &&& crate::pattern::regex_valid(crate::select::LIST_SEPARATOR@)
}

/// Whether the patterns of conditions are valid (see [condition_patterns_valid]).
pub fn condition_patterns_ok() -> (r: bool)
    ensures
        r == condition_patterns_valid(),
{
    crate::pattern::pattern_valid(EQUALS_PATTERN) && crate::pattern::pattern_valid(MATCH_PATTERN)
        && crate::pattern::pattern_valid(IN_CONDITION_PATTERN)
        && crate::pattern::pattern_valid(crate::structure::UNQUOTED_PATTERN)
        && crate::pattern::pattern_valid(crate::select::LIST_SEPARATOR)
}

/// The parameters every validation message of a datatype has: the table, the column,
/// the rule `datatype:name` and the message `column must be a name`.
pub open spec fn condition_params(dt: DatatypeView, table: Seq<char>, column: Seq<char>) -> Seq<crate::json::Json> {
    seq![
        crate::json::Json::Str(table),
        crate::json::Json::Str(column),
        crate::json::Json::Str("datatype:"@ + dt.datatype),
        crate::json::Json::Str(column + " must be a "@ + dt.datatype),
    ]
}

/// The statement that adds a message for each row (of the given ones, or all when none are
/// given) whose value breaks the datatype's condition, and its parameters: for `equals(v)`
/// the value must be `v`, for `in(a, b, ...)` one of the items, for `match(p)` it must match
/// the regular expression `p` (quotes removed). Conditions of other forms give no statement.
pub open spec fn validation_spec(dt: DatatypeView, table: Seq<char>, column: Seq<char>, rows: Seq<u64>, kind: crate::sql::DbKind) -> Option<(Seq<char>, Seq<crate::json::Json>)> {
    let c = dt.condition;
    let casted = crate::sql::cast_text_spec(column, kind);
    let head = crate::sql::message_insert_sql(
        crate::sql::placeholder(kind, 1), crate::sql::placeholder(kind, 2), casted,
        crate::sql::placeholder(kind, 3), crate::sql::placeholder(kind, 4), table);
    let row_params = rows.map_values(|r: u64| crate::json::Json::Int(r as int));
    if "equals("@.is_prefix_of(c) {
        match crate::pattern::regex_captures_spec(EQUALS_PATTERN@, c) {
            None => None,
            Some(g) => Some((
                head + casted + " != "@ + crate::sql::placeholder(kind, 5)
                    + crate::sql::rows_clause(kind, crate::sql::advance(kind, 0, 5), rows.len()) + crate::sql::RETURNING_SQL@,
                condition_params(dt, table, column)
                    + seq![crate::json::Json::Str(crate::structure::unquote_spec(crate::sql::group_or_empty(g, 1)))] + row_params,
            )),
        }
    } else if "match("@.is_prefix_of(c) {
        match crate::pattern::regex_captures_spec(MATCH_PATTERN@, c) {
            None => None,
            Some(g) => Some((
                head + crate::sql::regexp_spec(column, kind, crate::sql::placeholder(kind, 5), false)
                    + crate::sql::rows_clause(kind, crate::sql::advance(kind, 0, 5), rows.len()) + crate::sql::RETURNING_SQL@,
                condition_params(dt, table, column)
                    + seq![crate::json::Json::Str(crate::structure::unquote_spec(crate::sql::group_or_empty(g, 1)))] + row_params,
            )),
        }
    } else if "in("@.is_prefix_of(c) {
        match crate::pattern::regex_captures_spec(IN_CONDITION_PATTERN@, c) {
            None => None,
            Some(g) => {
                let items = crate::pattern::regex_split_spec(crate::select::LIST_SEPARATOR@, crate::sql::group_or_empty(g, 1))
                    .map_values(|x: Seq<char>| crate::structure::unquote_spec(x));
                if 4 + items.len() + rows.len() <= usize::MAX {
                    Some((
                        head + casted + " NOT IN ("@ + crate::text::seq_join(crate::sql::placeholders(kind, 4, items.len()), ", "@) + ")"@
                            + crate::sql::rows_clause(kind, crate::sql::advance(kind, 0, 4 + items.len()), rows.len())
                            + crate::sql::RETURNING_SQL@,
                        condition_params(dt, table, column) + items.map_values(|x: Seq<char>| crate::json::Json::Str(x)) + row_params,
                    ))
                } else {
                    None
                }
            },
        }
    } else {
        None
    }
}

fn condition_params_of(dt: &Datatype, table: &str, column: &str) -> (r: Vec<crate::json::JsonValue>)
    ensures
        crate::json::json_views(r@) == condition_params(dt@, table@, column@),
{
    let rule = crate::text::cat("datatype:", dt.datatype.as_str());
    let message = crate::text::cat3(column, " must be a ", dt.datatype.as_str());
    let r = vec![
        crate::json::json_str(table),
        crate::json::json_str(column),
        crate::json::JsonValue::String(rule),
        crate::json::JsonValue::String(message),
    ];
    assert(crate::json::json_views(r@) =~= condition_params(dt@, table@, column@));
    r
}

impl Datatype {
    /// The statement that finds the values of the column (in the given rows, or in all rows
    /// when none are given) that break this datatype's condition and adds an error message
    /// for each, with its parameters; `None` when the condition calls for no statement.
    pub fn validation_sql(&self, column: &crate::column::Column, rows: &Vec<RowID>, kind: &crate::sql::DbKind) -> (r: Option<(String, Vec<crate::json::JsonValue>)>)
        requires
            rows@.len() + 5 <= usize::MAX,
        ensures
            condition_patterns_valid() ==> match r {
                Some((sql, params)) => validation_spec(self@, column@.table, column@.column, rows@, *kind)
                    == Some((sql@, crate::json::json_views(params@))),
                None => validation_spec(self@, column@.table, column@.column, rows@, *kind) is None,
            },
    {
        let condition = self.condition.as_str();
        let casted = crate::sql::cast_column_as_text(column.column.as_str(), kind);
        if crate::text::starts_with(condition, "equals(") {
            let groups = match crate::pattern::regex_captures(EQUALS_PATTERN, condition) {
                Ok(Some(g)) => g,
                _ => return None,
            };
            let value = match crate::structure::unquote_name(crate::sql::group_text(&groups, 1).as_str()) {
                Ok(v) => v,
                Err(_) => return None,
            };
            let mut gen = crate::sql::SqlParam::new(kind);
            let mut sql = crate::sql::message_insert(&mut gen, casted.as_str(), column.table.as_str());
            sql.append(casted.as_str());
            sql.append(" != ");
            sql.append(gen.next().as_str());
            let mut params = condition_params_of(self, column.table.as_str(), column.column.as_str());
            params.push(crate::json::JsonValue::String(value));
            crate::sql::finish_message_insert(&mut sql, &mut params, rows, &mut gen);
            Some((sql, params))
        } else if crate::text::starts_with(condition, "match(") {
            let groups = match crate::pattern::regex_captures(MATCH_PATTERN, condition) {
                Ok(Some(g)) => g,
                _ => return None,
            };
            let value = match crate::structure::unquote_name(crate::sql::group_text(&groups, 1).as_str()) {
                Ok(v) => v,
                Err(_) => return None,
            };
            let mut gen = crate::sql::SqlParam::new(kind);
            let mut sql = crate::sql::message_insert(&mut gen, casted.as_str(), column.table.as_str());
            let clause = crate::sql::regexp_mismatch(column.column.as_str(), &mut gen);
            sql.append(clause.as_str());
            let mut params = condition_params_of(self, column.table.as_str(), column.column.as_str());
            params.push(crate::json::JsonValue::String(value));
            crate::sql::finish_message_insert(&mut sql, &mut params, rows, &mut gen);
            Some((sql, params))
        } else if crate::text::starts_with(condition, "in(") {
            let groups = match crate::pattern::regex_captures(IN_CONDITION_PATTERN, condition) {
                Ok(Some(g)) => g,
                _ => return None,
            };
            let list = crate::sql::group_text(&groups, 1);
            let pieces = match crate::pattern::regex_split(crate::select::LIST_SEPARATOR, list.as_str()) {
                Ok(p) => p,
                Err(_) => return None,
            };
            let mut items: Vec<String> = Vec::new();
            let mut i: usize = 0;
            while i < pieces.len()
                invariant
                    i <= pieces.len(),
                    items@.len() == i,
                    forall|k: int| 0 <= k < i ==> crate::pattern::regex_valid(crate::structure::UNQUOTED_PATTERN@)
                        ==> #[trigger] items@[k]@ == crate::structure::unquote_spec(pieces@[k]@),
                decreases pieces.len() - i,
            {
                match crate::structure::unquote_name(pieces[i].as_str()) {
                    Ok(v) => items.push(v),
                    Err(_) => return None,
                }
                i = i + 1;
            }
            if items.len() > usize::MAX - 4 - rows.len() {
                return None;
            }
            let mut gen = crate::sql::SqlParam::new(kind);
            let mut sql = crate::sql::message_insert(&mut gen, casted.as_str(), column.table.as_str());
            sql.append(casted.as_str());
            sql.append(" NOT IN (");
            assert(crate::sql::placeholders(*kind, crate::sql::advance(*kind, 0, 4), items@.len())
                =~= crate::sql::placeholders(*kind, 4, items@.len()));
            sql.append(gen.get_as_list(items.len()).as_str());
            sql.append(")");
            let mut params = condition_params_of(self, column.table.as_str(), column.column.as_str());
            let ghost p0 = crate::json::json_views(params@);
            let mut k: usize = 0;
            while k < items.len()
                invariant
                    k <= items.len(),
                    crate::json::json_views(params@) == p0 + items@.take(k as int).map_values(|x: String| crate::json::Json::Str(x@)),
                decreases items.len() - k,
            {
                let ghost before = params@;
                let v = crate::json::json_str(items[k].as_str());
                params.push(v);
                assert(crate::json::json_views(params@) =~= crate::json::json_views(before).push(v@));
                assert(items@.take(k + 1).map_values(|x: String| crate::json::Json::Str(x@))
                    =~= items@.take(k as int).map_values(|x: String| crate::json::Json::Str(x@)).push(crate::json::Json::Str(items@[k as int]@)));
                k = k + 1;
            }
            assert(items@.take(k as int) =~= items@);
            crate::sql::finish_message_insert(&mut sql, &mut params, rows, &mut gen);
            let ghost iv = crate::pattern::regex_split_spec(crate::select::LIST_SEPARATOR@, list@)
                .map_values(|x: Seq<char>| crate::structure::unquote_spec(x));
            assert(condition_patterns_valid() ==> items@.map_values(|x: String| crate::json::Json::Str(x@))
                =~= iv.map_values(|x: Seq<char>| crate::json::Json::Str(x)));
            assert(condition_patterns_valid() ==> iv.len() == items@.len());
            Some((sql, params))
        } else {
            None
        }
    }
}

} // verus!

verus! {

/// A text column of the datatype table.
pub open spec fn datatype_column_view(table: Seq<char>, column: Seq<char>, description: Seq<char>, datatype: Seq<char>) -> crate::column::ColumnView {
    crate::column::ColumnView {
        table,
        column,
        description,
        datatype,
        sql_type: "TEXT"@,
        ..crate::column::empty_column_view()
    }
}

/// The columns of the datatype table.
pub open spec fn datatype_table_columns(table: Seq<char>) -> Seq<crate::column::ColumnView> {
    seq![
        datatype_column_view(table, "datatype"@, "the name of this datatype"@, "word"@),
        datatype_column_view(table, "parent"@, "the parent datatype"@, "word"@),
        datatype_column_view(table, "condition"@, "the validation condition"@, "trimmed_line"@),
        datatype_column_view(table, "sql_type"@, "the validation condition"@, "trimmed_line"@),
        datatype_column_view(table, "format"@, "the SQL type for this datatype"@, "word"@),
        datatype_column_view(table, "description"@, "the description of this datatype"@, "trimmed_line"@),
    ]
}

/// The special "datatype" table, where datatypes are configured.
#[derive(Debug)]
pub struct DatatypeTable {
    /// The name of the table, "datatype" by default
    pub name: String,
}

impl DatatypeTable {
    /// The datatype table, named "datatype".
    pub fn connect() -> (r: Self)
        ensures
            r.name@ == "datatype"@,
    {
        DatatypeTable { name: owned("datatype") }
    }

    /// The table's identifier: its name.
    pub fn id(&self) -> (r: String)
        ensures
            r@ == self.name@,
    {
        self.name.clone()
    }

    fn push_column(list: &mut Vec<crate::column::Column>, table: &str, column: &str, description: &str, datatype: &str)
        ensures
            final(list)@.map_values(|c: crate::column::Column| c@)
                == old(list)@.map_values(|c: crate::column::Column| c@).push(datatype_column_view(table@, column@, description@, datatype@)),
    {
        let built = crate::column::ColumnBuilder::new(table, column).description(description).datatype(datatype)
            .sql_type("TEXT").build();
        if let Ok(c) = built {
            list.push(c);
        }
        assert(list@.map_values(|c: crate::column::Column| c@)
            =~= old(list)@.map_values(|c: crate::column::Column| c@).push(datatype_column_view(table@, column@, description@, datatype@)));
    }

    /// The columns of the datatype table: `datatype`, `parent`, `condition`, `sql_type`,
    /// `format` and `description`, all of SQL type `TEXT`.
    pub fn columns(&self) -> (r: crate::column::Columns)
        ensures
            r@ == datatype_table_columns(self.name@),
    {
        let t = self.name.as_str();
        let mut list: Vec<crate::column::Column> = Vec::new();
        Self::push_column(&mut list, t, "datatype", "the name of this datatype", "word");
        Self::push_column(&mut list, t, "parent", "the parent datatype", "word");
        Self::push_column(&mut list, t, "condition", "the validation condition", "trimmed_line");
        Self::push_column(&mut list, t, "sql_type", "the validation condition", "trimmed_line");
        Self::push_column(&mut list, t, "format", "the SQL type for this datatype", "word");
        Self::push_column(&mut list, t, "description", "the description of this datatype", "trimmed_line");
        let r = crate::column::Columns::new(list);
        assert(r@ =~= datatype_table_columns(self.name@));
        r
    }
}

} // verus!
