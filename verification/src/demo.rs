//! The demonstration table of penguins: its statements, and the batching of its rows into
//! inserts that stay within the database's limit on parameters.
use vstd::prelude::*;

use crate::json::{Json, JsonNumber, JsonValue};
use crate::sql::{advance, placeholder, placeholders, DbKind, SqlParam};
use crate::text::{nat_text, owned, seq_join, u64_text};

verus! {

broadcast use vstd::std_specs::vec::group_vec_axioms;

/// A penguin drawn at random for the demonstration table: its island (an index into
/// [island_name]), its bill's length and depth in tenths of a millimetre, its body mass.
#[derive(Clone, Copy, Debug, PartialEq, Eq, Structural)]
pub struct PenguinSample {
    pub island: usize,
    pub bill_length: u64,
    pub bill_depth: u64,
    pub body_mass: u64,
}

/// The islands a demonstration penguin lives on.
pub open spec fn island_spec(i: usize) -> Seq<char> {
    if i == 0 { "Biscoe"@ } else if i == 1 { "Dream"@ } else { "Torgersen"@ }
}

/// The island of the given index: `Biscoe`, `Dream` or `Torgersen`.
pub fn island_name(i: usize) -> (r: &'static str)
    requires
        i < 3,
    ensures
        r@ == island_spec(i),
{
    if i == 0 { "Biscoe" } else if i == 1 { "Dream" } else { "Torgersen" }
}

/// The piece of the statement that creates the demonstration table, before its key clause.
pub const PENGUIN_TABLE_SQL_0: &'static str = "CREATE TABLE \"";
/// The piece of the statement that creates the demonstration table, between its name and its
/// key clause.
pub const PENGUIN_TABLE_SQL_1: &'static str = "\" (\n             _id ";
/// The piece of the statement that creates the demonstration table, after its key clause.
pub const PENGUIN_TABLE_SQL_2: &'static str = ",\n             _order INTEGER UNIQUE,\n             study_name TEXT,\n             sample_number INTEGER,\n             species TEXT,\n             island TEXT,\n             individual_id TEXT,\n             bill_length REAL,\n             bill_depth NUMERIC,\n             body_mass BIGINT\n           )";

/// The key clause of a table's `_id`.
pub open spec fn key_clause(kind: DbKind) -> Seq<char> {
    match kind {
        DbKind::SQLite => "INTEGER PRIMARY KEY AUTOINCREMENT"@,
        DbKind::PostgreSQL => "SERIAL PRIMARY KEY"@,
    }
}

/// The statements that set up the demonstration table, in order: where `force` is set, the
/// one that drops it; the one that lists it in the `table` table with its path
/// `<table>.tsv`; the one that creates it. (The triggers of its meta columns come after
/// them.)
pub open spec fn penguin_table_spec(table: Seq<char>, kind: DbKind, force: bool) -> Seq<Seq<char>> {
    (if force { seq![crate::sql::drop_table_sql(table, kind)] } else { Seq::empty() })
        + seq![
            "INSERT INTO \"table\" (\"table\", \"path\") VALUES ('"@ + table + "', '"@ + table + ".tsv')"@,
            PENGUIN_TABLE_SQL_0@ + table + PENGUIN_TABLE_SQL_1@ + key_clause(kind) + PENGUIN_TABLE_SQL_2@,
        ]
}

/// The statements that set up the demonstration table (see [penguin_table_spec]).
pub fn penguin_table_statements(table: &str, kind: &DbKind, force: bool) -> (r: Vec<String>)
    ensures
        crate::text::views(r@) == penguin_table_spec(table@, *kind, force),
{
    let mut r: Vec<String> = Vec::new();
    if force {
        let mut d = owned("DROP TABLE IF EXISTS \"");
        d.append(table);
        match kind {
            DbKind::PostgreSQL => d.append("\" CASCADE"),
            DbKind::SQLite => crate::text::push_char(&mut d, '"'),
        }
        assert(d@ =~= crate::sql::drop_table_sql(table@, *kind));
        r.push(d);
    }
    let mut listed = owned("INSERT INTO \"table\" (\"table\", \"path\") VALUES ('");
    listed.append(table);
    listed.append("', '");
    listed.append(table);
    listed.append(".tsv')");
    r.push(listed);
    let mut create = owned(PENGUIN_TABLE_SQL_0);
    create.append(table);
    create.append(PENGUIN_TABLE_SQL_1);
    match kind {
        DbKind::SQLite => create.append("INTEGER PRIMARY KEY AUTOINCREMENT"),
        DbKind::PostgreSQL => create.append("SERIAL PRIMARY KEY"),
    }
    create.append(PENGUIN_TABLE_SQL_2);
    r.push(create);
    assert(crate::text::views(r@) =~= penguin_table_spec(table@, *kind, force));
    r
}

/// The most parameters bound to one statement.
pub open spec fn max_params(kind: DbKind) -> nat {
    match kind {
        DbKind::SQLite => crate::sql::MAX_PARAMS_SQLITE as nat,
        DbKind::PostgreSQL => crate::sql::MAX_PARAMS_POSTGRES as nat,
    }
}

/// How many rows go in one insert: a row binds 8 parameters, and a statement is sent as
/// soon as another row would bring its parameters up to the limit.
pub open spec fn batch_rows(kind: DbKind) -> nat {
    ((max_params(kind) - 1) / 8) as nat
}

/// The values of the row at position `p` of an insert: the placeholders of its id, its
/// order, its sample number, its island, its individual id, its bill length and depth and
/// its body mass, with the study name and species written out.
pub open spec fn row_value_sql(kind: DbKind, p: nat) -> Seq<char> {
    "("@ + seq_join(placeholders(kind, advance(kind, 0, 8 * p), 2), ", "@) + ", 'FAKE123', "@
        + placeholder(kind, advance(kind, 0, 8 * p + 2) + 1) + ", 'Pygoscelis adeliae', "@
        + seq_join(placeholders(kind, advance(kind, 0, 8 * p + 3), 5), ", "@) + ")"@
}

/// A number of tenths written as a decimal number with one decimal: `345` is `34.5`.
pub open spec fn tenths_text(t: nat) -> Seq<char> {
    nat_text(t / 10) + "."@ + nat_text(t % 10)
}

/// The parameters of the row of the `i`-th sample (counting from 0): its id `i + 1`, its
/// order, its sample number (the id again), its island, its individual id `N<n>A<a>` (two
/// penguins to a nest), its bill length and depth and its body mass.
pub open spec fn row_params(i: nat, s: PenguinSample, order_multiplier: nat) -> Seq<Json> {
    seq![
        Json::Int((i + 1) as int),
        Json::Int(((i + 1) * order_multiplier) as int),
        Json::Int((i + 1) as int),
        Json::Str(island_spec(s.island)),
        Json::Str("N"@ + nat_text(i / 2 + 1) + "A"@ + nat_text(i % 2 + 1)),
        Json::Float(tenths_text(s.bill_length as nat)),
        Json::Float(tenths_text(s.bill_depth as nat)),
        Json::Int(s.body_mass as int),
    ]
}

/// The parameters of the rows of the `k` samples from `lo` on.
pub open spec fn rows_params(samples: Seq<PenguinSample>, order_multiplier: nat, lo: nat, k: nat) -> Seq<Json>
    decreases k,
{
    if k == 0 {
        Seq::empty()
    } else {
        rows_params(samples, order_multiplier, lo, (k - 1) as nat)
            + row_params((lo + k - 1) as nat, samples[lo + k - 1], order_multiplier)
    }
}

/// The insert of the `k` samples from `lo` on, and its parameters.
pub open spec fn batch_insert(table: Seq<char>, kind: DbKind, samples: Seq<PenguinSample>, order_multiplier: nat, lo: nat, k: nat) -> (Seq<char>, Seq<Json>) {
    (
        "INSERT INTO \""@ + table + "\" VALUES  "@ + seq_join(Seq::new(k, |p: int| row_value_sql(kind, p as nat)), ", "@),
        rows_params(samples, order_multiplier, lo, k),
    )
}

/// The inserts of the demonstration rows: the samples in batches of [batch_rows], in order,
/// the last batch holding the rest.
pub open spec fn penguin_inserts_spec(table: Seq<char>, kind: DbKind, samples: Seq<PenguinSample>, order_multiplier: nat) -> Seq<(Seq<char>, Seq<Json>)> {
    let b = batch_rows(kind);
    let n = samples.len();
    Seq::new(((n + b - 1) as int / b as int) as nat, |j: int| {
        let lo = (j * b) as nat;
        batch_insert(table, kind, samples, order_multiplier, lo, if lo + b <= n { b } else { (n - lo) as nat })
    })
}

/// The text of a number of tenths (see [tenths_text]).
fn tenths(t: u64) -> (r: String)
    ensures
        r@ == tenths_text(t as nat),
{
    let mut s = u64_text(t / 10);
    s.append(".");
    s.append(u64_text(t % 10).as_str());
    s
}

/// The parameters of the row of the `i`-th sample (see [row_params]).
fn row_params_of(i: usize, s: &PenguinSample, order_multiplier: u64) -> (r: Vec<JsonValue>)
    requires
        s.island < 3,
        i < i32::MAX,
        (i + 1) * order_multiplier <= i32::MAX,
    ensures
        crate::json::json_views(r@) == row_params(i as nat, *s, order_multiplier as nat),
{
    let id: u64 = (i as u64) + 1;
    let order: u64 = id * order_multiplier;
    let mut individual = owned("N");
    individual.append(u64_text((i as u64) / 2 + 1).as_str());
    individual.append("A");
    individual.append(u64_text((i as u64) % 2 + 1).as_str());
    let r = vec![
        crate::json::json_u64(id),
        crate::json::json_u64(order),
        crate::json::json_u64(id),
        crate::json::json_str(island_name(s.island)),
        JsonValue::String(individual),
        JsonValue::Number(JsonNumber::Float(tenths(s.bill_length))),
        JsonValue::Number(JsonNumber::Float(tenths(s.bill_depth))),
        crate::json::json_u64(s.body_mass),
    ];
    assert(crate::json::json_views(r@) =~= row_params(i as nat, *s, order_multiplier as nat));
    r
}

/// The values of the row at position `p` of an insert (see [row_value_sql]).
fn row_value(gen: &mut SqlParam, p: usize) -> (r: String)
    requires
        old(gen).index == advance(old(gen).kind, 0, 8 * p as nat),
        8 * p + 8 <= usize::MAX,
    ensures
        final(gen).kind == old(gen).kind,
        final(gen).index == advance(old(gen).kind, 0, 8 * p as nat + 8),
        r@ == row_value_sql(old(gen).kind, p as nat),
{
    let ghost kind = gen.kind;
    let mut s = owned("(");
    s.append(gen.get_as_list(2).as_str());
    s.append(", 'FAKE123', ");
    s.append(gen.next().as_str());
    s.append(", 'Pygoscelis adeliae', ");
    s.append(gen.get_as_list(5).as_str());
    s.append(")");
    assert(s@ =~= row_value_sql(kind, p as nat));
    s
}

/// The insert of the `k` samples from `lo` on (see [batch_insert]).
fn batch_insert_of(table: &str, kind: &DbKind, samples: &Vec<PenguinSample>, order_multiplier: u64, lo: usize, k: usize) -> (r: (String, Vec<JsonValue>))
    requires
        lo + k <= samples@.len(),
        k <= 4095,
        forall|i: int| 0 <= i < samples@.len() ==> (#[trigger] samples@[i]).island < 3,
        samples@.len() <= i32::MAX,
        samples@.len() * order_multiplier <= i32::MAX,
    ensures
        (r.0@, crate::json::json_views(r.1@)) == batch_insert(table@, *kind, samples@, order_multiplier as nat, lo as nat, k as nat),
{
    let mut gen = SqlParam::new(kind);
    let mut parts: Vec<String> = Vec::new();
    let mut params: Vec<JsonValue> = Vec::new();
    let mut p: usize = 0;
    while p < k
        invariant
            p <= k,
            k <= 4095,
            lo + k <= samples@.len(),
            forall|i: int| 0 <= i < samples@.len() ==> (#[trigger] samples@[i]).island < 3,
            samples@.len() * order_multiplier <= i32::MAX,
            samples@.len() <= i32::MAX,
            gen.kind == *kind,
            gen.index == advance(*kind, 0, 8 * p as nat),
            crate::text::views(parts@) == Seq::new(p as nat, |q: int| row_value_sql(*kind, q as nat)),
            crate::json::json_views(params@) == rows_params(samples@, order_multiplier as nat, lo as nat, p as nat),
        decreases k - p,
    {
        let v = row_value(&mut gen, p);
        let ghost before = parts@;
        parts.push(v);
        proof { crate::text::lemma_views_push(before, v); }
        assert(crate::text::views(parts@) =~= Seq::new((p + 1) as nat, |q: int| row_value_sql(*kind, q as nat)));
        assert((lo + p + 1) * order_multiplier <= samples@.len() * order_multiplier) by (nonlinear_arith)
            requires
                lo + p + 1 <= samples@.len();
        assert(lo + p < samples@.len());
        let mut rp = row_params_of(lo + p, &samples[lo + p], order_multiplier);
        let ghost pb = params@;
        let ghost rpb = rp@;
        params.append(&mut rp);
        assert(params@ == pb + rpb);
        assert(crate::json::json_views(params@) =~= crate::json::json_views(pb) + crate::json::json_views(rpb));
        assert(rows_params(samples@, order_multiplier as nat, lo as nat, (p + 1) as nat)
            == rows_params(samples@, order_multiplier as nat, lo as nat, p as nat)
                + row_params((lo + p) as nat, samples@[lo + p], order_multiplier as nat));
        p = p + 1;
    }
    let mut sql = owned("INSERT INTO \"");
    sql.append(table);
    sql.append("\" VALUES  ");
    sql.append(crate::text::join(&parts, ", ").as_str());
    (sql, params)
}

/// The inserts of the demonstration rows (see [penguin_inserts_spec]), each with its
/// parameters; the order of a row is its id times `order_multiplier`. The rows' ids and
/// orders are 32-bit integers, which `requires` keeps from overflowing.
pub fn penguin_insert_statements(table: &str, kind: &DbKind, samples: &Vec<PenguinSample>, order_multiplier: u64) -> (r: Vec<(String, Vec<JsonValue>)>)
    requires
        forall|i: int| 0 <= i < samples@.len() ==> (#[trigger] samples@[i]).island < 3,
        samples@.len() <= i32::MAX,
        samples@.len() * order_multiplier <= i32::MAX,
    ensures
        r@.len() == penguin_inserts_spec(table@, *kind, samples@, order_multiplier as nat).len(),
        forall|j: int| 0 <= j < r@.len() ==> (r@[j].0@, crate::json::json_views(r@[j].1@))
            == #[trigger] penguin_inserts_spec(table@, *kind, samples@, order_multiplier as nat)[j],
{
    let ghost spec = penguin_inserts_spec(table@, *kind, samples@, order_multiplier as nat);
    assert(batch_rows(*kind) == 4095);
    let b: usize = 4095;
    let n = samples.len();
    let nb: usize = (n + b - 1) / b;
    assert(spec.len() == nb);
    let mut out: Vec<(String, Vec<JsonValue>)> = Vec::new();
    let mut j: usize = 0;
    while j < nb
        invariant
            j <= nb,
            n == samples@.len(),
            nb == (n + 4094) / 4095,
            b == 4095,
            n <= i32::MAX,
            spec == penguin_inserts_spec(table@, *kind, samples@, order_multiplier as nat),
            spec.len() == nb,
            forall|i: int| 0 <= i < samples@.len() ==> (#[trigger] samples@[i]).island < 3,
            samples@.len() * order_multiplier <= i32::MAX,
            out@.len() == j,
            forall|x: int| 0 <= x < j ==> (out@[x].0@, crate::json::json_views(out@[x].1@)) == #[trigger] spec[x],
        decreases nb - j,
    {
        assert(j * 4095 < n) by (nonlinear_arith)
            requires
                j < (n + 4094) / 4095;
        let lo: usize = j * b;
        let k: usize = if lo + b <= n { b } else { n - lo };
        let stmt = batch_insert_of(table, kind, samples, order_multiplier, lo, k);
        assert((stmt.0@, crate::json::json_views(stmt.1@)) == spec[j as int]);
        out.push(stmt);
        j = j + 1;
    }
    out
}

} // verus!

verus! {

/// The piece of the statement that creates the demonstration table of islands, between its
/// name and its key clause.
pub const ISLAND_TABLE_SQL_1: &'static str = "\" (\n                 _id ";
/// The piece of the statement that creates the demonstration table of islands, after its
/// key clause.
pub const ISLAND_TABLE_SQL_2: &'static str = ",\n                 _order INTEGER UNIQUE,\n                 island_id INTEGER,\n                 island TEXT\n               )";
/// The rows of the demonstration table of islands.
pub const ISLAND_ROWS_SQL: &'static str = "\" (\"island_id\", \"island\")\n               VALUES (1, 'Torgersen'), (2, 'Biscoe'), (3, 'Dream')";

/// The statements that set up the demonstration table of islands, in order: for PostgreSQL
/// where `force` is set, the one that drops it; the one that lists it in the `table` table
/// with its path `<table>.tsv`; the one that creates it; the one that adds its three
/// islands. (The triggers of its meta columns come before the last one.)
pub open spec fn island_table_spec(table: Seq<char>, kind: DbKind, force: bool) -> Seq<Seq<char>> {
    (if force && kind == DbKind::PostgreSQL { seq![crate::sql::drop_table_sql(table, kind)] } else { Seq::empty() })
        + seq![
            "INSERT INTO \"table\" (\"table\", \"path\") VALUES ('"@ + table + "', '"@ + table + ".tsv')"@,
            PENGUIN_TABLE_SQL_0@ + table + ISLAND_TABLE_SQL_1@ + key_clause(kind) + ISLAND_TABLE_SQL_2@,
            "INSERT INTO \""@ + table + ISLAND_ROWS_SQL@,
        ]
}

/// The statements that set up the demonstration table of islands (see [island_table_spec]).
pub fn island_table_statements(table: &str, kind: &DbKind, force: bool) -> (r: Vec<String>)
    ensures
        crate::text::views(r@) == island_table_spec(table@, *kind, force),
{
    let mut r: Vec<String> = Vec::new();
    if force && *kind == DbKind::PostgreSQL {
        let mut d = owned("DROP TABLE IF EXISTS \"");
        d.append(table);
        d.append("\" CASCADE");
        r.push(d);
    }
    let mut listed = owned("INSERT INTO \"table\" (\"table\", \"path\") VALUES ('");
    listed.append(table);
    listed.append("', '");
    listed.append(table);
    listed.append(".tsv')");
    r.push(listed);
    let mut create = owned(PENGUIN_TABLE_SQL_0);
    create.append(table);
    create.append(ISLAND_TABLE_SQL_1);
    match kind {
        DbKind::SQLite => create.append("INTEGER PRIMARY KEY AUTOINCREMENT"),
        DbKind::PostgreSQL => create.append("SERIAL PRIMARY KEY"),
    }
    create.append(ISLAND_TABLE_SQL_2);
    r.push(create);
    let mut rows = owned("INSERT INTO \"");
    rows.append(table);
    rows.append(ISLAND_ROWS_SQL);
    r.push(rows);
    assert(crate::text::views(r@) =~= island_table_spec(table@, *kind, force));
    r
}

} // verus!
