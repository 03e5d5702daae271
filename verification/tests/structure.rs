use rltbl::structure::{Structure, Structures};

#[test]
fn test_structure() {
    let string = "from(tbl.col)";
    let structure = Structure::from_str(&string).expect("get structure");
    assert_eq!(structure, Structure::From(Some("tbl".to_owned()), "col".to_owned()));
    assert_eq!(structure.to_string(), string);

    let structure = Structure::from_str(string).expect("valid structure");
    assert_eq!(structure, Structure::From(Some("tbl".to_owned()), "col".to_owned()));
}

#[test]
fn test_structures() {
    let string = "";
    let structures = Structures::from_str(&string).expect("get structure");
    assert_eq!(structures, Structures::new(vec![]));
    assert_eq!(structures.to_string(), string);

    let string = "from(tbl.col)";
    let structures = Structures::from_str(&string).expect("get structure");
    assert_eq!(
        structures,
        Structures::new(vec![Structure::From(Some("tbl".to_owned()), "col".to_owned())])
    );
    assert_eq!(structures.to_string(), string);

    let structures = Structures::from(string);
    assert_eq!(
        structures,
        Structures::new(vec![Structure::From(Some("tbl".to_owned()), "col".to_owned())])
    );
}

#[test]
fn structure_without_table() {
    let structure = Structure::from_str("from(col)").expect("get structure");
    assert_eq!(structure, Structure::From(None, "col".to_owned()));
    assert_eq!(structure.to_string(), "from(col)");
}

#[test]
fn structure_quotes_are_removed() {
    let structure = Structure::from_str("from('tbl'.\"col\")").expect("get structure");
    assert_eq!(structure, Structure::From(Some("tbl".to_owned()), "col".to_owned()));
}

#[test]
fn invalid_structures_are_input_errors() {
    assert!(matches!(
        Structure::from_str("to(tbl.col)"),
        Err(rltbl::error::RelatableError::InputError(_))
    ));
    assert!(matches!(
        Structure::from_str("from()"),
        Err(rltbl::error::RelatableError::InputError(_))
    ));
    assert_eq!(Structures::from("nonsense"), Structures::new(vec![]));
}

#[test]
fn blank_structures_text() {
    let structures = rltbl::structure::Structures::from_str("   ").unwrap();
    assert_eq!(structures.list().len(), 0);
}

#[test]
fn unicode_white_space_is_blank_structures_text() {
    let structures = rltbl::structure::Structures::from_str("\t\u{3000}\u{2009}\n").unwrap();
    assert_eq!(structures.list().len(), 0);
}
