use sysml_v2_sql::import::{
    classify_attribute, element_cell, element_edges, element_edges_of_any_name, element_row, get_table_columns,
    is_relation_object, looks_like_flag, parse_column_type, AttributeClass, ColumnInfo,
    ColumnType, Edges, Element, ExtendedProperty, ImportError, ImporterConfiguration, Relation,
    SqlValue,
};
use sysml_v2_sql::json::{JsonNumber, JsonValue};
use sysml_v2_sql::json_schema_to_sql::sql::SqlRepresentation;
use sysml_v2_sql::store::{store_for_schema, Store};
use sysml_v2_sql::synchronizer::{import_from_iter, import_from_slice};
use sysml_v2_sql::util::stream_json::decode_all;
use sysml_v2_sql::util::CloneableJsonArrayStreamIterator;

fn text(s: &str) -> JsonValue {
    JsonValue::String(s.to_string())
}

fn reference(id: &str) -> JsonValue {
    JsonValue::Object(vec![("@id".to_string(), text(id))])
}

fn element(id: &str, rest: Vec<(&str, JsonValue)>) -> Element {
    Element { id: id.to_string(), rest: rest.into_iter().map(|(n, v)| (n.to_string(), v)).collect() }
}

fn relation(name: &str, origin: &str, target: &str) -> Relation {
    Relation {
        name: name.to_string(),
        origin_id: origin.to_string(),
        target_id: target.to_string(),
    }
}

fn extended(id: &str, name: &str, value: &str) -> ExtendedProperty {
    ExtendedProperty {
        element_id: id.to_string(),
        property_name: name.to_string(),
        value: value.to_string(),
    }
}

fn columns(list: &[(&str, ColumnType)]) -> Vec<(String, ColumnType)> {
    list.iter().map(|(n, t)| (n.to_string(), *t)).collect()
}

fn store() -> Store {
    Store::new(
        columns(&[("@id", ColumnType::Text), ("name", ColumnType::Text), ("value", ColumnType::Text)]),
        columns(&[("@id", ColumnType::Text), ("aliases", ColumnType::Text)]),
        vec!["owner".to_string(), "member".to_string(), "value".to_string()],
    )
}

fn config() -> ImporterConfiguration {
    ImporterConfiguration {
        disable_fk_checks: false,
        vacuum: false,
        syside_automator_compat_mode: false,
    }
}

fn sorted_relations(store: &Store) -> Vec<(String, String, String)> {
    let mut all: Vec<_> = store
        .relations()
        .iter()
        .map(|r| (r.name.clone(), r.origin_id.clone(), r.target_id.clone()))
        .collect();
    all.sort();
    all
}

fn sorted_rows(store: &Store) -> Vec<(String, Vec<SqlValue>)> {
    let mut all: Vec<_> = store.elements().iter().map(|(id, row)| (id.clone(), row.clone())).collect();
    all.sort_by(|a, b| a.0.cmp(&b.0));
    all
}

#[test]
fn column_types_are_read_from_their_declaration() {
    assert_eq!(parse_column_type("INTEGER"), Some(ColumnType::Integer));
    assert_eq!(parse_column_type("REAL"), Some(ColumnType::Real));
    assert_eq!(parse_column_type("TEXT"), Some(ColumnType::Text));
    assert_eq!(parse_column_type("BLOB"), Some(ColumnType::Blob));
    assert_eq!(parse_column_type("ANY"), Some(ColumnType::Text));
    assert_eq!(parse_column_type("text"), None);
    assert_eq!(parse_column_type(""), None);
}

#[test]
fn table_columns_keep_the_order_of_the_store() {
    let info = |index: usize, name: &str, declared: &str| ColumnInfo {
        index,
        name: name.to_string(),
        declared: declared.to_string(),
    };
    let reported = vec![info(0, "@id", "TEXT"), info(1, "size", "INTEGER"), info(2, "value", "ANY")];
    assert_eq!(
        get_table_columns(&reported).unwrap(),
        columns(&[("@id", ColumnType::Text), ("size", ColumnType::Integer), ("value", ColumnType::Text)])
    );
    assert_eq!(get_table_columns(&Vec::new()).unwrap(), Vec::new());
    assert_eq!(
        get_table_columns(&vec![info(0, "@id", "TEXT"), info(1, "when", "DATETIME")]).unwrap_err(),
        ImportError::UnknownColumnType
    );
    assert_eq!(
        get_table_columns(&vec![info(1, "@id", "TEXT")]).unwrap_err(),
        ImportError::ColumnOrder
    );
}

#[test]
fn flag_names_begin_with_is_and_an_uppercase_letter() {
    assert!(looks_like_flag("isAbstract"));
    assert!(looks_like_flag("isÄ"));
    assert!(!looks_like_flag("island"));
    assert!(!looks_like_flag("is"));
    assert!(!looks_like_flag("is_"));
    assert!(!looks_like_flag("IsAbstract"));
    assert!(!looks_like_flag("name"));
}

#[test]
fn cells_of_every_kind() {
    let e = element(
        "x",
        vec![
            ("name", text("n")),
            ("none", JsonValue::Null),
            ("on", JsonValue::Bool(true)),
            ("off", JsonValue::Bool(false)),
            ("isAbstract", text("true")),
            ("isLibraryElement", text("false")),
            ("isOdd", text("maybe")),
            ("island", text("true")),
            ("size", JsonValue::Number(JsonNumber::PosInt(3))),
            ("edge", JsonValue::Number(JsonNumber::PosInt(9223372036854775807))),
            ("big", JsonValue::Number(JsonNumber::PosInt(9223372036854775808))),
            ("debt", JsonValue::Number(JsonNumber::NegInt(-7))),
            ("ratio", JsonValue::Number(JsonNumber::Float("1.5".to_string()))),
            ("tags", JsonValue::Array(vec![text("a")])),
            ("value", reference("y")),
        ],
    );
    let cell = |name: &str| element_cell(name, &e);
    assert_eq!(cell("@id").unwrap(), SqlValue::Text("x".to_string()));
    assert_eq!(cell("name").unwrap(), SqlValue::Text("n".to_string()));
    assert_eq!(cell("absent").unwrap(), SqlValue::Null);
    assert_eq!(cell("none").unwrap(), SqlValue::Null);
    assert_eq!(cell("on").unwrap(), SqlValue::Integer(1));
    assert_eq!(cell("off").unwrap(), SqlValue::Integer(0));
    assert_eq!(cell("isAbstract").unwrap(), SqlValue::Integer(1));
    assert_eq!(cell("isLibraryElement").unwrap(), SqlValue::Integer(0));
    assert_eq!(cell("isOdd").unwrap_err(), ImportError::BooleanText);
    assert_eq!(cell("island").unwrap(), SqlValue::Text("true".to_string()));
    assert_eq!(cell("size").unwrap(), SqlValue::Integer(3));
    assert_eq!(cell("edge").unwrap(), SqlValue::Integer(i64::MAX));
    assert_eq!(cell("big").unwrap_err(), ImportError::IntegerRange);
    assert_eq!(cell("debt").unwrap(), SqlValue::Integer(-7));
    assert_eq!(cell("ratio").unwrap(), SqlValue::Real("1.5".to_string()));
    assert_eq!(cell("tags").unwrap(), SqlValue::Null);
    assert_eq!(cell("value").unwrap(), SqlValue::Null);
}

#[test]
fn rows_have_one_cell_for_each_column() {
    let e = element("x", vec![("size", JsonValue::Number(JsonNumber::PosInt(3))), ("name", text("n"))]);
    let row = element_row(
        &columns(&[("name", ColumnType::Text), ("@id", ColumnType::Text), ("gone", ColumnType::Text)]),
        &e,
    )
    .unwrap();
    assert_eq!(
        row,
        vec![SqlValue::Text("n".to_string()), SqlValue::Text("x".to_string()), SqlValue::Null]
    );
    assert_eq!(element_row(&Vec::new(), &e).unwrap(), Vec::new());
    let odd = element("x", vec![("isOdd", text("maybe"))]);
    assert_eq!(
        element_row(&columns(&[("@id", ColumnType::Text), ("isOdd", ColumnType::Integer)]), &odd)
            .unwrap_err(),
        ImportError::BooleanText
    );
}

#[test]
fn references_are_objects_with_nothing_but_an_id() {
    assert!(is_relation_object(&vec![("@id".to_string(), text("a"))]));
    assert!(!is_relation_object(&vec![("@id".to_string(), JsonValue::Null)]));
    assert!(!is_relation_object(&vec![("id".to_string(), text("a"))]));
    assert!(!is_relation_object(&vec![
        ("@id".to_string(), text("a")),
        ("name".to_string(), text("n"))
    ]));
    assert!(!is_relation_object(&Vec::new()));
}

#[test]
fn attributes_are_classified_by_their_shape() {
    let ext = columns(&[("@id", ColumnType::Text), ("aliases", ColumnType::Text), ("sizes", ColumnType::Integer)]);
    let classify = |name: &str, value: JsonValue| classify_attribute(name, &value, &ext);
    assert!(matches!(classify("a", JsonValue::Null), Ok(AttributeClass::Empty)));
    assert!(matches!(classify("a", JsonValue::Bool(true)), Ok(AttributeClass::Primitive)));
    assert!(matches!(classify("a", text("s")), Ok(AttributeClass::Primitive)));
    assert!(matches!(
        classify("a", JsonValue::Number(JsonNumber::NegInt(-1))),
        Ok(AttributeClass::Primitive)
    ));
    assert!(matches!(
        classify("owner", reference("t")),
        Ok(AttributeClass::Relations(targets)) if targets == vec!["t".to_string()]
    ));
    assert!(matches!(
        classify("member", JsonValue::Array(vec![reference("t"), reference("u")])),
        Ok(AttributeClass::Relations(targets)) if targets == vec!["t".to_string(), "u".to_string()]
    ));
    // the empty array is a relation to nothing, whatever its name
    assert!(matches!(
        classify("aliases", JsonValue::Array(Vec::new())),
        Ok(AttributeClass::Relations(targets)) if targets.is_empty()
    ));
    assert!(matches!(
        classify("aliases", JsonValue::Array(vec![text("x"), text("y")])),
        Ok(AttributeClass::Extended(values)) if values == vec!["x".to_string(), "y".to_string()]
    ));
    assert_eq!(
        classify("aliases", JsonValue::Array(vec![text("x"), JsonValue::Bool(true)])).unwrap_err(),
        ImportError::ExtendedValue
    );
    assert_eq!(
        classify("sizes", JsonValue::Array(vec![text("x")])).unwrap_err(),
        ImportError::ExtendedColumnType
    );
    assert!(matches!(
        classify("other", JsonValue::Array(vec![text("x")])),
        Ok(AttributeClass::Complex)
    ));
    assert!(matches!(
        classify("other", JsonValue::Array(vec![reference("t"), text("x")])),
        Ok(AttributeClass::Complex)
    ));
    assert!(matches!(
        classify("other", JsonValue::Object(vec![("name".to_string(), text("n"))])),
        Ok(AttributeClass::Complex)
    ));
}

#[test]
fn edges_of_an_element() {
    let e = element(
        "x",
        vec![
            ("name", text("n")),
            ("owner", reference("o")),
            ("aliases", JsonValue::Array(vec![text("a"), text("b")])),
            ("member", JsonValue::Array(vec![reference("m1"), reference("m2")])),
        ],
    );
    let ext = columns(&[("@id", ColumnType::Text), ("aliases", ColumnType::Text)]);
    let names = vec!["owner".to_string(), "member".to_string()];
    let mut edges = Edges { relations: Vec::new(), extended: Vec::new() };
    element_edges(&e, &ext, &names, &mut edges).unwrap();
    assert_eq!(
        edges.relations,
        vec![relation("owner", "x", "o"), relation("member", "x", "m1"), relation("member", "x", "m2")]
    );
    assert_eq!(edges.extended, vec![extended("x", "aliases", "a"), extended("x", "aliases", "b")]);

    let mut edges = Edges { relations: Vec::new(), extended: Vec::new() };
    assert_eq!(
        element_edges(&e, &ext, &vec!["owner".to_string()], &mut edges).unwrap_err(),
        ImportError::RelationName
    );
}

#[test]
fn importing_puts_in_rows_relations_and_extended_properties() {
    let mut store = store();
    let batch = vec![
        element("1", vec![("name", text("root")), ("aliases", JsonValue::Array(vec![text("r")]))]),
        element("2", vec![("name", text("child")), ("owner", reference("1"))]),
    ];
    import_from_slice(&batch, &mut store, &config()).unwrap();
    assert_eq!(
        sorted_rows(&store),
        vec![
            (
                "1".to_string(),
                vec![SqlValue::Text("1".to_string()), SqlValue::Text("root".to_string()), SqlValue::Null]
            ),
            (
                "2".to_string(),
                vec![SqlValue::Text("2".to_string()), SqlValue::Text("child".to_string()), SqlValue::Null]
            ),
        ]
    );
    assert_eq!(*store.relations(), vec![relation("owner", "2", "1")]);
    assert_eq!(*store.extended(), vec![extended("1", "aliases", "r")]);
    assert!(store.holds_element("1"));
    assert!(!store.holds_element("3"));
    assert!(store.holds_relation(&relation("owner", "2", "1")));
    assert_eq!(store.row_of("2").unwrap()[1], SqlValue::Text("child".to_string()));
    assert!(store.row_of("3").is_none());
}

#[test]
fn importing_twice_is_importing_once() {
    let batch = vec![
        element("1", vec![("name", text("root")), ("aliases", JsonValue::Array(vec![text("r"), text("r")]))]),
        element("2", vec![("name", text("child")), ("owner", reference("1")), ("member", JsonValue::Array(vec![reference("1"), reference("1")]))]),
        element("2", vec![("name", text("child")), ("owner", reference("1")), ("member", JsonValue::Array(vec![reference("1"), reference("1")]))]),
    ];
    let mut once = store();
    import_from_slice(&batch, &mut once, &config()).unwrap();
    let mut twice = store();
    import_from_slice(&batch, &mut twice, &config()).unwrap();
    import_from_slice(&batch, &mut twice, &config()).unwrap();
    assert_eq!(sorted_rows(&once), sorted_rows(&twice));
    assert_eq!(sorted_relations(&once), sorted_relations(&twice));
    assert_eq!(*once.extended(), *twice.extended());
    assert_eq!(once.elements().len(), 2);
    assert_eq!(once.relations().len(), 2);
}

#[test]
fn a_new_import_supersedes_the_relations_of_its_elements() {
    let mut store = store();
    let first = vec![
        element("1", vec![]),
        element("2", vec![]),
        element("3", vec![("owner", reference("1")), ("aliases", JsonValue::Array(vec![text("old")]))]),
        element("4", vec![("owner", reference("1")), ("member", JsonValue::Array(vec![reference("1"), reference("2")]))]),
    ];
    import_from_slice(&first, &mut store, &config()).unwrap();
    let second = vec![element(
        "4",
        vec![("name", text("four")), ("member", JsonValue::Array(vec![reference("2"), reference("3")])), ("aliases", JsonValue::Array(vec![text("new")]))],
    )];
    import_from_slice(&second, &mut store, &config()).unwrap();
    assert_eq!(
        sorted_relations(&store),
        vec![
            ("member".to_string(), "4".to_string(), "2".to_string()),
            ("member".to_string(), "4".to_string(), "3".to_string()),
            ("owner".to_string(), "3".to_string(), "1".to_string()),
        ]
    );
    assert_eq!(
        *store.extended(),
        vec![extended("3", "aliases", "old"), extended("4", "aliases", "new")]
    );
    assert_eq!(store.row_of("4").unwrap()[1], SqlValue::Text("four".to_string()));
    assert_eq!(store.elements().len(), 4);
}

#[test]
fn a_failing_import_leaves_the_store_as_it_was() {
    let mut store = store();
    let first = vec![element("1", vec![("name", text("root"))]), element("2", vec![("owner", reference("1"))])];
    import_from_slice(&first, &mut store, &config()).unwrap();
    let rows = sorted_rows(&store);
    let relations = sorted_relations(&store);

    // a relation to an element that is nowhere
    let dangling = vec![element("2", vec![("name", text("changed")), ("owner", reference("nowhere"))])];
    assert_eq!(
        import_from_slice(&dangling, &mut store, &config()).unwrap_err(),
        ImportError::MissingElement
    );
    assert_eq!(sorted_rows(&store), rows);
    assert_eq!(sorted_relations(&store), relations);

    // a relation of a name that is not allowed
    let unnamed = vec![element("3", vec![("friend", reference("1"))])];
    assert_eq!(
        import_from_slice(&unnamed, &mut store, &config()).unwrap_err(),
        ImportError::RelationName
    );
    // an extended property that is no string
    let odd = vec![element("3", vec![("aliases", JsonValue::Array(vec![JsonValue::Null]))])];
    assert_eq!(
        import_from_slice(&odd, &mut store, &config()).unwrap_err(),
        ImportError::ExtendedValue
    );
    assert_eq!(sorted_rows(&store), rows);
    assert_eq!(sorted_relations(&store), relations);
    assert!(!store.holds_element("3"));

    // without the check of foreign keys the dangling relation is taken
    let lenient = ImporterConfiguration { disable_fk_checks: true, ..config() };
    import_from_slice(&dangling, &mut store, &lenient).unwrap();
    assert!(store.holds_relation(&relation("owner", "2", "nowhere")));
}

#[test]
fn a_relation_may_point_at_an_element_of_its_own_batch() {
    let mut store = store();
    let batch = vec![element("2", vec![("owner", reference("1"))]), element("1", vec![])];
    import_from_slice(&batch, &mut store, &config()).unwrap();
    assert_eq!(*store.relations(), vec![relation("owner", "2", "1")]);
}

#[test]
fn a_batch_with_conflicting_elements_is_refused() {
    let mut store = store();
    let batch = vec![element("1", vec![("name", text("a"))]), element("1", vec![("name", text("b"))])];
    assert_eq!(
        import_from_slice(&batch, &mut store, &config()).unwrap_err(),
        ImportError::ConflictingElements
    );
    assert!(store.elements().is_empty());
    let same = vec![element("1", vec![("name", text("a"))]), element("1", vec![("name", text("a"))])];
    import_from_slice(&same, &mut store, &config()).unwrap();
    assert_eq!(store.elements().len(), 1);
}

#[test]
fn a_document_is_imported_in_two_passes() {
    let document = br#"[
        {"@id":"1","name":"root","aliases":["r1","r2"]},
        {"@id":"2","name":"child","owner":{"@id":"1"}}
    ]"#;
    let mut streamed = store();
    let stream = CloneableJsonArrayStreamIterator::new(document.to_vec());
    import_from_iter(&stream, &mut streamed, &config()).unwrap();
    let mut direct = store();
    import_from_slice(&decode_all(document).unwrap(), &mut direct, &config()).unwrap();
    assert_eq!(sorted_rows(&streamed), sorted_rows(&direct));
    assert_eq!(sorted_relations(&streamed), sorted_relations(&direct));
    assert_eq!(*streamed.extended(), *direct.extended());
    assert_eq!(streamed.elements().len(), 2);
    assert_eq!(*streamed.relations(), vec![relation("owner", "2", "1")]);
}

#[test]
fn a_malformed_document_is_not_imported() {
    let mut store = store();
    let stream = CloneableJsonArrayStreamIterator::new(br#"[{"@id":"1"},{"@id":"2"},]"#.to_vec());
    assert_eq!(
        import_from_iter(&stream, &mut store, &config()).unwrap_err(),
        ImportError::MalformedDocument
    );
    assert!(store.elements().is_empty());
    // a flaw of the document goes before a row that cannot be built
    let mut flags = Store::new(
        columns(&[("@id", ColumnType::Text), ("isOdd", ColumnType::Integer)]),
        columns(&[("@id", ColumnType::Text)]),
        Vec::new(),
    );
    let stream = CloneableJsonArrayStreamIterator::new(br#"[{"@id":"1","isOdd":"maybe"},]"#.to_vec());
    assert_eq!(
        import_from_iter(&stream, &mut flags, &config()).unwrap_err(),
        ImportError::MalformedDocument
    );
    let stream = CloneableJsonArrayStreamIterator::new(br#"[{"@id":"1","isOdd":"maybe"}]"#.to_vec());
    assert_eq!(
        import_from_iter(&stream, &mut flags, &config()).unwrap_err(),
        ImportError::BooleanText
    );
    assert!(flags.elements().is_empty());
}

#[test]
fn a_store_is_laid_out_as_the_schema_wants_it() {
    let columns = vec![
        ("@id".to_string(), repr_column(true, false, "TEXT")),
        ("kind".to_string(), repr_column(false, false, "TEXT CHECK(\"kind\" IN ('a', 'b'))")),
        ("member".to_string(), SqlRepresentation::RelationsTable),
        ("ratio".to_string(), repr_column(false, true, "REAL")),
        ("tags".to_string(), SqlRepresentation::ExtendedPropertiesTable),
        ("value".to_string(), repr_column(false, true, "ANY")),
    ];
    let store = store_for_schema(&columns).unwrap();
    assert_eq!(
        *store.element_columns(),
        vec![
            ("@id".to_string(), ColumnType::Text),
            ("kind".to_string(), ColumnType::Text),
            ("ratio".to_string(), ColumnType::Real),
            ("value".to_string(), ColumnType::Text),
        ]
    );
    assert_eq!(
        *store.extended_columns(),
        vec![("@id".to_string(), ColumnType::Text), ("tags".to_string(), ColumnType::Text)]
    );
    assert_eq!(
        *store.relation_names(),
        vec!["member".to_string(), "value".to_string()]
    );
    let odd = vec![("when".to_string(), repr_column(false, true, "DATETIME"))];
    assert!(store_for_schema(&odd).is_none());
}

fn repr_column(unique: bool, null: bool, ty: &str) -> SqlRepresentation {
    SqlRepresentation::Column {
        unique,
        null,
        id_foreign_key_constraint: false,
        ty: ty.to_string(),
    }
}

#[test]
fn a_document_with_conflicting_elements_is_refused() {
    let mut store = store();
    import_from_slice(&vec![element("z", vec![("name", text("kept"))])], &mut store, &config()).unwrap();
    let rows = sorted_rows(&store);
    let document = br#"[{"@id":"a","name":"x"},{"@id":"a","name":"y"}]"#;
    let stream = CloneableJsonArrayStreamIterator::new(document.to_vec());
    assert_eq!(
        import_from_iter(&stream, &mut store, &config()).unwrap_err(),
        ImportError::ConflictingElements
    );
    assert_eq!(sorted_rows(&store), rows);
    assert!(!store.holds_element("a"));
    // the same element twice is no conflict
    let same = br#"[{"@id":"a","name":"x"},{"@id":"a","name":"x"}]"#;
    let stream = CloneableJsonArrayStreamIterator::new(same.to_vec());
    import_from_iter(&stream, &mut store, &config()).unwrap();
    assert_eq!(store.elements().len(), 2);
}

#[test]
fn a_document_and_its_elements_are_imported_alike() {
    let documents: [&[u8]; 4] = [
        br#"[{"@id":"1","name":"root"},{"@id":"2","owner":{"@id":"1"}}]"#,
        br#"[{"@id":"1","name":"x"},{"@id":"1","name":"y"}]"#,
        br#"[{"@id":"2","owner":{"@id":"nowhere"}}]"#,
        br#"[{"@id":"2","friend":{"@id":"2"}}]"#,
    ];
    for document in documents {
        let mut by_document = store();
        let mut by_slice = store();
        let stream = CloneableJsonArrayStreamIterator::new(document.to_vec());
        let streamed = import_from_iter(&stream, &mut by_document, &config());
        let sliced = import_from_slice(&decode_all(document).unwrap(), &mut by_slice, &config());
        assert_eq!(streamed, sliced);
        assert_eq!(sorted_rows(&by_document), sorted_rows(&by_slice));
        assert_eq!(sorted_relations(&by_document), sorted_relations(&by_slice));
        assert_eq!(*by_document.extended(), *by_slice.extended());
    }
}

#[test]
fn edges_for_a_store_that_checks_names_itself() {
    let e = element(
        "x",
        vec![("friend", reference("f")), ("aliases", JsonValue::Array(vec![text("a")]))],
    );
    let ext = columns(&[("@id", ColumnType::Text), ("aliases", ColumnType::Text)]);
    let mut edges = Edges { relations: Vec::new(), extended: Vec::new() };
    element_edges_of_any_name(&e, &ext, &mut edges).unwrap();
    assert_eq!(edges.relations, vec![relation("friend", "x", "f")]);
    assert_eq!(edges.extended, vec![extended("x", "aliases", "a")]);
    let odd = element("x", vec![("aliases", JsonValue::Array(vec![JsonValue::Null]))]);
    assert_eq!(
        element_edges_of_any_name(&odd, &ext, &mut edges).unwrap_err(),
        ImportError::ExtendedValue
    );
}
