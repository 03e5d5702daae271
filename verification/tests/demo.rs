use rltbl::demo::{penguin_insert_statements, penguin_table_statements, PenguinSample};
use rltbl::json::{JsonNumber, JsonValue};
use rltbl::sql::DbKind;

fn sample(island: usize) -> PenguinSample {
    PenguinSample { island, bill_length: 345, bill_depth: 279, body_mass: 3237 }
}

#[test]
fn penguin_table_setup() {
    let statements = penguin_table_statements("penguin", &DbKind::SQLite, true);
    assert_eq!(statements.len(), 3);
    assert_eq!(statements[0], "DROP TABLE IF EXISTS \"penguin\"");
    assert_eq!(statements[1], "INSERT INTO \"table\" (\"table\", \"path\") VALUES ('penguin', 'penguin.tsv')");
    assert!(statements[2].starts_with("CREATE TABLE \"penguin\" (\n             _id INTEGER PRIMARY KEY AUTOINCREMENT,"));
    let statements = penguin_table_statements("penguin", &DbKind::PostgreSQL, false);
    assert_eq!(statements.len(), 2);
    assert!(statements[1].contains("_id SERIAL PRIMARY KEY,"));
}

#[test]
fn penguin_rows_in_batches() {
    let samples = vec![sample(2), sample(0)];
    let inserts = penguin_insert_statements("penguin", &DbKind::PostgreSQL, &samples, 1000);
    assert_eq!(inserts.len(), 1);
    assert_eq!(
        inserts[0].0,
        "INSERT INTO \"penguin\" VALUES  ($1, $2, 'FAKE123', $3, 'Pygoscelis adeliae', $4, $5, $6, $7, $8), \
         ($9, $10, 'FAKE123', $11, 'Pygoscelis adeliae', $12, $13, $14, $15, $16)"
    );
    let int = |n: u64| JsonValue::Number(JsonNumber::PosInt(n));
    let float = |t: &str| JsonValue::Number(JsonNumber::Float(t.to_string()));
    let text = |s: &str| JsonValue::String(s.to_string());
    assert_eq!(
        inserts[0].1,
        vec![
            int(1), int(1000), int(1), text("Torgersen"), text("N1A1"), float("34.5"), float("27.9"), int(3237),
            int(2), int(2000), int(2), text("Biscoe"), text("N1A2"), float("34.5"), float("27.9"), int(3237),
        ]
    );
    let many: Vec<PenguinSample> = (0..4096).map(|i| sample(i % 3)).collect();
    let inserts = penguin_insert_statements("penguin", &DbKind::SQLite, &many, 1000);
    assert_eq!(inserts.len(), 2);
    assert_eq!(inserts[0].1.len(), 4095 * 8);
    assert_eq!(inserts[1].1.len(), 8);
    assert_eq!(inserts[1].1[0], int(4096));
    assert!(penguin_insert_statements("penguin", &DbKind::SQLite, &vec![], 1000).is_empty());
}

#[test]
fn island_table_setup() {
    let statements = rltbl::demo::island_table_statements("island", &DbKind::SQLite, true);
    assert_eq!(statements.len(), 3);
    assert_eq!(statements[0], "INSERT INTO \"table\" (\"table\", \"path\") VALUES ('island', 'island.tsv')");
    assert_eq!(
        statements[2],
        "INSERT INTO \"island\" (\"island_id\", \"island\")\n               VALUES (1, 'Torgersen'), (2, 'Biscoe'), (3, 'Dream')"
    );
    let statements = rltbl::demo::island_table_statements("island", &DbKind::PostgreSQL, true);
    assert_eq!(statements.len(), 4);
    assert_eq!(statements[0], "DROP TABLE IF EXISTS \"island\" CASCADE");
    assert!(statements[2].contains("_id SERIAL PRIMARY KEY,\n                 _order INTEGER UNIQUE,"));
}
