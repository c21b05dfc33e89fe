use sysml_v2_sql::import::{ColumnType, ImportError, ImporterConfiguration, Relation, SqlValue};
use sysml_v2_sql::json_schema_to_sql::json_schema::{
    CompositeType, ConcreteType, Definition, Root, Type,
};
use sysml_v2_sql::json_schema_to_sql::sql::SqlRepresentation;
use sysml_v2_sql::json_schema_to_sql::infer_columns;
use sysml_v2_sql::store::{store_for_schema, Store};
use sysml_v2_sql::synchronizer::{import_from_iter, import_from_slice};
use sysml_v2_sql::util::stream_json::decode_all;
use sysml_v2_sql::util::CloneableJsonArrayStreamIterator;

const EXAMPLE_DUMP: &[u8] = br#"[
    {"@id":"0a5ffc13-5e79-4a0b-9f0a-5b7e2f6d1c01","@type":"Package","name":"Vehicles",
     "isLibraryElement":false,"aliases":["cars","trucks"]},
    {"@id":"0a5ffc13-5e79-4a0b-9f0a-5b7e2f6d1c02","@type":"PartDefinition","name":"Vehicle",
     "isLibraryElement":false,"owner":{"@id":"0a5ffc13-5e79-4a0b-9f0a-5b7e2f6d1c01"},
     "ownedMember":[{"@id":"0a5ffc13-5e79-4a0b-9f0a-5b7e2f6d1c03"}]},
    {"@id":"0a5ffc13-5e79-4a0b-9f0a-5b7e2f6d1c03","@type":"AttributeUsage","name":"mass",
     "isLibraryElement":false,"owner":{"@id":"0a5ffc13-5e79-4a0b-9f0a-5b7e2f6d1c02"},
     "value":1500}
]"#;

fn schema() -> Root {
    let string = |format: Option<&str>| {
        Type::Concrete(ConcreteType::String {
            enumeration: None,
            format: format.map(str::to_string),
            constant: None,
        })
    };
    let identified =
        || Type::Composite(CompositeType::Ref { reference: "#/$defs/Identified".to_string() });
    let object = |properties: Vec<(&str, Type)>| {
        Type::Concrete(ConcreteType::Object {
            properties: properties.into_iter().map(|(n, t)| (n.to_string(), t)).collect(),
            required: vec!["@id".to_string()],
            additional_properties: false,
        })
    };
    let definition = |name: &str, ty: Type| {
        (name.to_string(), Definition { id: format!("#/$defs/{name}"), title: None, ty })
    };
    Root {
        schema: "https://json-schema.org/draft/2020-12/schema".to_string(),
        defs: vec![
            definition(
                "Element",
                object(vec![
                    ("@id", string(Some("uuid"))),
                    ("@type", string(None)),
                    ("aliases", Type::Concrete(ConcreteType::Array { items: Box::new(string(None)) })),
                    (
                        "isLibraryElement",
                        Type::Composite(CompositeType::OneOf {
                            one_of: vec![
                                Type::Concrete(ConcreteType::Boolean),
                                Type::Concrete(ConcreteType::Null),
                            ],
                        }),
                    ),
                    ("name", string(None)),
                    ("ownedMember", Type::Concrete(ConcreteType::Array { items: Box::new(identified()) })),
                    ("owner", identified()),
                ]),
            ),
            definition("Identified", object(vec![("@id", string(Some("uuid")))])),
        ],
    }
}

fn config() -> ImporterConfiguration {
    ImporterConfiguration {
        disable_fk_checks: false,
        vacuum: false,
        syside_automator_compat_mode: false,
    }
}

fn new_store() -> Store {
    store_for_schema(&infer_columns(&schema()).unwrap().columns).unwrap()
}

#[test]
fn init_db() {
    let store = new_store();
    let names: Vec<&str> = store.element_columns().iter().map(|(n, _)| n.as_str()).collect();
    assert_eq!(names, vec!["@id", "@type", "isLibraryElement", "name", "value"]);
    assert_eq!(store.element_columns()[2].1, ColumnType::Integer);
    let extended: Vec<&str> = store.extended_columns().iter().map(|(n, _)| n.as_str()).collect();
    assert_eq!(extended, vec!["@id", "aliases"]);
    assert_eq!(
        *store.relation_names(),
        vec!["ownedMember".to_string(), "owner".to_string(), "value".to_string()]
    );
    assert!(store.elements().is_empty());
}

#[test]
fn import() {
    let mut store = new_store();
    let stream = CloneableJsonArrayStreamIterator::new(EXAMPLE_DUMP.to_vec());
    assert!(import_from_iter(&stream, &mut store, &config()).is_ok());
    assert_eq!(store.elements().len(), 3);
    assert_eq!(store.relations().len(), 3);
    assert_eq!(store.extended().len(), 2);
    let mass = store.row_of("0a5ffc13-5e79-4a0b-9f0a-5b7e2f6d1c03").unwrap();
    assert_eq!(
        *mass,
        vec![
            SqlValue::Text("0a5ffc13-5e79-4a0b-9f0a-5b7e2f6d1c03".to_string()),
            SqlValue::Text("AttributeUsage".to_string()),
            SqlValue::Integer(0),
            SqlValue::Text("mass".to_string()),
            SqlValue::Integer(1500),
        ]
    );
}

#[test]
fn import_twice() {
    let mut store = new_store();
    let stream = CloneableJsonArrayStreamIterator::new(EXAMPLE_DUMP.to_vec());
    for _ in 0..2 {
        assert!(import_from_iter(&stream, &mut store, &config()).is_ok());
    }
    assert_eq!(store.elements().len(), 3);
    assert_eq!(store.relations().len(), 3);
    assert_eq!(store.extended().len(), 2);
}

#[test]
fn import_missing_schema() {
    // a store that was never given the tables of the schema allows no relation
    let mut store = Store::new(Vec::new(), Vec::new(), Vec::new());
    let stream = CloneableJsonArrayStreamIterator::new(EXAMPLE_DUMP.to_vec());
    assert_eq!(
        import_from_iter(&stream, &mut store, &config()).unwrap_err(),
        ImportError::RelationName
    );
    assert!(store.elements().is_empty());
}

#[test]
fn end_to_end() {
    let string = |format: Option<&str>| {
        Type::Concrete(ConcreteType::String {
            enumeration: None,
            format: format.map(str::to_string),
            constant: None,
        })
    };
    let root = Root {
        schema: String::new(),
        defs: vec![(
            "Thing".to_string(),
            Definition {
                id: "#/$defs/Thing".to_string(),
                title: Some("Thing".to_string()),
                ty: Type::Concrete(ConcreteType::Object {
                    properties: vec![
                        ("@id".to_string(), string(Some("uuid"))),
                        ("name".to_string(), string(None)),
                        (
                            "owner".to_string(),
                            Type::Composite(CompositeType::Ref {
                                reference: "#/$defs/Identified".to_string(),
                            }),
                        ),
                    ],
                    required: Vec::new(),
                    additional_properties: false,
                }),
            },
        )],
    };
    let inference = infer_columns(&root).unwrap();
    assert_eq!(inference.columns[2], ("owner".to_string(), SqlRepresentation::RelationsTable));
    let mut store = store_for_schema(&inference.columns).unwrap();

    let first = decode_all(br#"[{"@id":"1","name":"root"},{"@id":"2","name":"child","owner":{"@id":"1"}}]"#)
        .unwrap();
    import_from_slice(&first, &mut store, &config()).unwrap();
    assert_eq!(store.elements().len(), 2);
    assert_eq!(
        *store.relations(),
        vec![Relation {
            name: "owner".to_string(),
            origin_id: "2".to_string(),
            target_id: "1".to_string()
        }]
    );
    let root_row = store.row_of("1").unwrap().clone();
    assert_eq!(
        root_row,
        vec![SqlValue::Text("1".to_string()), SqlValue::Text("root".to_string()), SqlValue::Null]
    );

    let second = decode_all(br#"[{"@id":"2","name":"child"}]"#).unwrap();
    import_from_slice(&second, &mut store, &config()).unwrap();
    assert!(store.relations().is_empty());
    assert_eq!(store.elements().len(), 2);
    assert_eq!(*store.row_of("1").unwrap(), root_row);
    assert_eq!(
        *store.row_of("2").unwrap(),
        vec![SqlValue::Text("2".to_string()), SqlValue::Text("child".to_string()), SqlValue::Null]
    );
}
