use sysml_v2_sql::json_schema_to_sql::json_schema::{
    CompositeType, ConcreteType, Definition, Root, Type,
};
use sysml_v2_sql::json_schema_to_sql::sql::{
    create_index, identified_ref, identified_str, json_schema_type_to_sql_type, to_create_table,
    ClassificationError, FusionConflict, SqlRepresentation,
};
use sysml_v2_sql::json_schema_to_sql::{
    consume_json_schema, force_polymorphic, fuse_columns, handle_properties, infer_columns,
    PrimaryKeyFault, SchemaError,
};

fn column(unique: bool, null: bool, fk: bool, ty: &str) -> SqlRepresentation {
    SqlRepresentation::Column { unique, null, id_foreign_key_constraint: fk, ty: ty.to_string() }
}

fn plain_string() -> Type {
    Type::Concrete(ConcreteType::String { enumeration: None, format: None, constant: None })
}

fn uuid() -> Type {
    Type::Concrete(ConcreteType::String {
        enumeration: None,
        format: Some("uuid".to_string()),
        constant: None,
    })
}

fn identified() -> Type {
    Type::Composite(CompositeType::Ref { reference: "#/$defs/Identified".to_string() })
}

fn object(properties: Vec<(&str, Type)>) -> Type {
    Type::Concrete(ConcreteType::Object {
        properties: properties.into_iter().map(|(n, t)| (n.to_string(), t)).collect(),
        required: Vec::new(),
        additional_properties: false,
    })
}

fn definition(name: &str, ty: Type) -> (String, Definition) {
    (name.to_string(), Definition { id: format!("#/$defs/{name}"), title: None, ty })
}

fn schema(defs: Vec<(String, Definition)>) -> Root {
    Root { schema: "https://json-schema.org/draft/2020-12/schema".to_string(), defs }
}

#[test]
fn fusing_text_columns_keeps_the_wider_nullability() {
    let mut a = column(false, false, false, "TEXT");
    let b = column(false, true, false, "TEXT");
    assert_eq!(a.fuse(&b, "p").unwrap(), true);
    assert_eq!(a, column(false, true, false, "TEXT"));
}

#[test]
fn fusing_identical_representations_does_nothing() {
    let mut a = column(false, true, false, "INTEGER");
    let b = column(false, true, false, "INTEGER");
    assert_eq!(a.fuse(&b, "p").unwrap(), false);
    assert_eq!(a, column(false, true, false, "INTEGER"));
    let mut r = SqlRepresentation::RelationsTable;
    assert_eq!(r.fuse(&SqlRepresentation::RelationsTable, "p").unwrap(), false);
}

#[test]
fn fusing_text_subtypes_gives_plain_text() {
    let mut a = column(false, false, false, "TEXT CHECK(\"p\" IN ('a', 'b'))");
    let b = column(false, false, false, "TEXT");
    assert_eq!(a.fuse(&b, "p").unwrap(), true);
    assert_eq!(a, column(false, false, false, "TEXT"));
}

#[test]
fn fusing_reference_column_with_relations_table_gives_relations_table() {
    let mut a = column(false, false, true, "TEXT");
    assert_eq!(a.fuse(&SqlRepresentation::RelationsTable, "p").unwrap(), true);
    assert_eq!(a, SqlRepresentation::RelationsTable);

    let mut r = SqlRepresentation::RelationsTable;
    assert_eq!(r.fuse(&column(false, false, true, "TEXT"), "p").unwrap(), true);
    assert_eq!(r, SqlRepresentation::RelationsTable);
}

#[test]
fn fusing_integer_with_text_is_an_error_that_names_the_property() {
    let mut a = column(false, false, false, "INTEGER");
    let b = column(false, false, false, "TEXT");
    let error = a.fuse(&b, "P").unwrap_err();
    assert_eq!(error.property, "P");
    assert_eq!(error.conflict, FusionConflict::Type);
    assert_eq!(error.left, column(false, false, false, "INTEGER"));
    assert_eq!(error.right, column(false, false, false, "TEXT"));
    // the left side is as it was
    assert_eq!(a, column(false, false, false, "INTEGER"));
}

#[test]
fn fusion_conflicts_of_every_kind() {
    let mut a = column(false, false, true, "TEXT");
    assert_eq!(
        a.fuse(&column(false, false, false, "TEXT"), "p").unwrap_err().conflict,
        FusionConflict::ForeignKey
    );
    // the polymorphic property is exempt
    let mut v = column(false, false, true, "TEXT");
    assert_eq!(v.fuse(&column(false, false, false, "TEXT"), "value").unwrap(), true);
    assert_eq!(v, column(false, false, true, "TEXT"));

    let mut u = column(true, false, false, "TEXT");
    assert_eq!(
        u.fuse(&column(false, false, false, "TEXT"), "p").unwrap_err().conflict,
        FusionConflict::Uniqueness
    );
    // the relations table prevails over a column that refers to an element, from either side
    let mut r = SqlRepresentation::RelationsTable;
    assert_eq!(r.fuse(&column(false, false, true, "INTEGER"), "p").unwrap(), true);
    assert_eq!(r, SqlRepresentation::RelationsTable);
    let mut i = column(false, false, true, "INTEGER");
    assert_eq!(i.fuse(&SqlRepresentation::RelationsTable, "p").unwrap(), true);
    assert_eq!(i, SqlRepresentation::RelationsTable);
    let mut r = SqlRepresentation::RelationsTable;
    assert_eq!(
        r.fuse(&column(false, false, false, "TEXT"), "p").unwrap_err().conflict,
        FusionConflict::Incompatible
    );
    let mut e = SqlRepresentation::ExtendedPropertiesTable;
    assert_eq!(
        e.fuse(&SqlRepresentation::RelationsTable, "p").unwrap_err().conflict,
        FusionConflict::Incompatible
    );
    let mut c = column(false, false, false, "TEXT");
    assert_eq!(
        c.fuse(&SqlRepresentation::RelationsTable, "p").unwrap_err().conflict,
        FusionConflict::Incompatible
    );
}

#[test]
fn identified_references_are_recognised() {
    assert!(identified_str("#/$defs/Identified"));
    assert!(!identified_str("#/$defs/Element"));
    assert!(!identified_str("Identified"));
    assert!(identified_ref(&identified()));
    assert!(!identified_ref(&plain_string()));
}

#[test]
fn column_types_of_scalar_types() {
    assert_eq!(json_schema_type_to_sql_type(&plain_string(), "c").unwrap(), "TEXT");
    assert_eq!(
        json_schema_type_to_sql_type(&Type::Concrete(ConcreteType::Integer), "c").unwrap(),
        "INTEGER"
    );
    assert_eq!(
        json_schema_type_to_sql_type(&Type::Concrete(ConcreteType::Boolean), "c").unwrap(),
        "INTEGER"
    );
    assert_eq!(
        json_schema_type_to_sql_type(&Type::Concrete(ConcreteType::Number), "c").unwrap(),
        "REAL"
    );
    assert_eq!(
        json_schema_type_to_sql_type(&uuid(), "my\"col").unwrap(),
        "TEXT CHECK(\"my\"\"col\" LIKE ('________-____-____-____-____________'))"
    );
    let enumerated = Type::Concrete(ConcreteType::String {
        enumeration: Some(vec!["in".to_string(), "o'ut".to_string()]),
        format: None,
        constant: None,
    });
    assert_eq!(
        json_schema_type_to_sql_type(&enumerated, "direction").unwrap(),
        "TEXT CHECK(\"direction\" IN ('in', 'o''ut'))"
    );
    let constant = Type::Concrete(ConcreteType::String {
        enumeration: None,
        format: None,
        constant: Some("Thing".to_string()),
    });
    assert_eq!(
        json_schema_type_to_sql_type(&constant, "@type").unwrap(),
        "TEXT CHECK(\"@type\" = ('Thing'))"
    );
    let date = Type::Concrete(ConcreteType::String {
        enumeration: None,
        format: Some("date-time".to_string()),
        constant: None,
    });
    assert_eq!(
        json_schema_type_to_sql_type(&date, "c").unwrap_err(),
        ClassificationError::UnknownFormat
    );
    assert_eq!(
        json_schema_type_to_sql_type(&Type::Concrete(ConcreteType::Null), "c").unwrap_err(),
        ClassificationError::NoSqlType
    );
}

#[test]
fn classification_follows_the_rules_in_order() {
    let classify = |t: &Type| SqlRepresentation::try_from_json_schema_ty("p", t);
    let array = |items: Type| Type::Concrete(ConcreteType::Array { items: Box::new(items) });
    let one_of = |members: Vec<Type>| Type::Composite(CompositeType::OneOf { one_of: members });
    let null = || Type::Concrete(ConcreteType::Null);

    assert_eq!(classify(&array(identified())).unwrap(), SqlRepresentation::RelationsTable);
    assert_eq!(
        classify(&array(plain_string())).unwrap(),
        SqlRepresentation::ExtendedPropertiesTable
    );
    assert_eq!(
        classify(&array(Type::Concrete(ConcreteType::Integer))).unwrap_err(),
        ClassificationError::Unrepresentable
    );
    assert_eq!(
        classify(&uuid()).unwrap(),
        column(true, false, false, "TEXT CHECK(\"p\" LIKE ('________-____-____-____-____________'))")
    );
    assert_eq!(
        SqlRepresentation::try_from_json_schema_ty("@id", &uuid()).unwrap(),
        column(true, false, false, "TEXT CHECK(\"@id\" LIKE ('________-____-____-____-____________'))")
    );
    assert_eq!(classify(&plain_string()).unwrap(), column(false, false, false, "TEXT"));
    assert_eq!(classify(&identified()).unwrap(), SqlRepresentation::RelationsTable);
    assert_eq!(
        classify(&Type::Composite(CompositeType::Ref { reference: "#/$defs/Other".to_string() }))
            .unwrap_err(),
        ClassificationError::Unrepresentable
    );
    assert_eq!(
        classify(&one_of(vec![null(), identified()])).unwrap(),
        SqlRepresentation::RelationsTable
    );
    assert_eq!(
        classify(&one_of(vec![identified(), null()])).unwrap(),
        SqlRepresentation::RelationsTable
    );
    assert_eq!(
        classify(&one_of(vec![Type::Concrete(ConcreteType::Integer), null()])).unwrap(),
        column(false, true, false, "INTEGER")
    );
    assert_eq!(
        classify(&one_of(vec![null(), Type::Concrete(ConcreteType::Boolean)])).unwrap(),
        column(false, true, false, "INTEGER")
    );
    assert_eq!(
        classify(&one_of(vec![null(), null()])).unwrap_err(),
        ClassificationError::Unrepresentable
    );
    assert_eq!(
        classify(&one_of(vec![plain_string(), identified()])).unwrap_err(),
        ClassificationError::Unrepresentable
    );
    assert_eq!(
        classify(&one_of(vec![null(), array(plain_string())])).unwrap_err(),
        ClassificationError::NoSqlType
    );
    assert_eq!(
        classify(&Type::Concrete(ConcreteType::Integer)).unwrap_err(),
        ClassificationError::Unrepresentable
    );
}

#[test]
fn properties_are_collected_in_the_order_of_their_names() {
    let mut columns = Vec::new();
    let mut problems = Vec::new();
    let properties = vec![
        ("name".to_string(), plain_string()),
        ("@id".to_string(), uuid()),
        ("odd".to_string(), Type::Concrete(ConcreteType::Integer)),
        ("owner".to_string(), identified()),
    ];
    handle_properties(&properties, &mut columns, &mut problems).unwrap();
    let names: Vec<&str> = columns.iter().map(|(n, _)| n.as_str()).collect();
    assert_eq!(names, vec!["@id", "name", "owner"]);
    assert_eq!(problems.len(), 1);

    // a second shape of a property joins the first, in ascending order
    let more = vec![(
        "name".to_string(),
        Type::Composite(CompositeType::OneOf {
            one_of: vec![Type::Concrete(ConcreteType::Null), plain_string()],
        }),
    )];
    handle_properties(&more, &mut columns, &mut problems).unwrap();
    assert_eq!(
        columns[1].1,
        vec![column(false, false, false, "TEXT"), column(false, true, false, "TEXT")]
    );
    let fused = fuse_columns(&columns).unwrap();
    assert_eq!(fused[1], ("name".to_string(), column(false, true, false, "TEXT")));
}

#[test]
fn a_primary_key_that_is_no_proper_key_is_refused() {
    let mut columns = Vec::new();
    let mut problems = Vec::new();
    let plain = vec![("@id".to_string(), plain_string())];
    assert!(matches!(
        handle_properties(&plain, &mut columns, &mut problems),
        Err(SchemaError::PrimaryKey(PrimaryKeyFault::NotUnique))
    ));
    let reference = vec![("@id".to_string(), identified())];
    assert!(matches!(
        handle_properties(&reference, &mut columns, &mut problems),
        Err(SchemaError::PrimaryKey(PrimaryKeyFault::NotColumn))
    ));
    assert!(columns.is_empty());
}

#[test]
fn a_schema_without_primary_key_is_refused() {
    let root = schema(vec![definition("Thing", object(vec![("name", plain_string())]))]);
    assert!(matches!(
        infer_columns(&root),
        Err(SchemaError::PrimaryKey(PrimaryKeyFault::Missing))
    ));
}

#[test]
fn unexpected_definitions_are_refused() {
    let root = schema(vec![definition("Odd", Type::Concrete(ConcreteType::Integer))]);
    match consume_json_schema(&root) {
        Err(SchemaError::UnexpectedDefinition { definition }) => assert_eq!(definition, "Odd"),
        other => panic!("unexpected outcome: {other:?}"),
    }
    let root = schema(vec![definition(
        "Union",
        Type::Composite(CompositeType::AnyOf {
            any_of: vec![identified(), Type::Concrete(ConcreteType::Integer)],
        }),
    )]);
    match consume_json_schema(&root) {
        Err(SchemaError::UnexpectedMember { definition }) => assert_eq!(definition, "Union"),
        other => panic!("unexpected outcome: {other:?}"),
    }
}

#[test]
fn a_fusion_conflict_stops_the_inference() {
    let root = schema(vec![
        definition("A", object(vec![("@id", uuid()), ("size", plain_string())])),
        definition(
            "B",
            Type::Composite(CompositeType::OneOf {
                one_of: vec![
                    identified(),
                    object(vec![(
                        "size",
                        Type::Composite(CompositeType::OneOf {
                            one_of: vec![
                                Type::Concrete(ConcreteType::Null),
                                Type::Concrete(ConcreteType::Integer),
                            ],
                        }),
                    )]),
                ],
            }),
        ),
    ]);
    match infer_columns(&root) {
        Err(SchemaError::Fusion(error)) => {
            assert_eq!(error.property, "size");
            assert_eq!(error.conflict, FusionConflict::Type);
            assert_eq!(error.left, column(false, false, false, "TEXT"));
            assert_eq!(error.right, column(false, true, false, "INTEGER"));
        }
        other => panic!("unexpected outcome: {other:?}"),
    }
}

#[test]
fn the_polymorphic_property_gets_its_fixed_column() {
    let root = schema(vec![definition(
        "Thing",
        object(vec![("@id", uuid()), ("value", identified()), ("zeta", plain_string())]),
    )]);
    let inference = infer_columns(&root).unwrap();
    let names: Vec<&str> = inference.columns.iter().map(|(n, _)| n.as_str()).collect();
    assert_eq!(names, vec!["@id", "value", "zeta"]);
    assert_eq!(inference.columns[1].1, column(false, true, false, "ANY"));

    // a representation that is already there is a collision
    let mut columns = vec![("value".to_string(), SqlRepresentation::RelationsTable)];
    match force_polymorphic(&mut columns) {
        Err(SchemaError::PolymorphicCollision { property }) => assert_eq!(property, "value"),
        other => panic!("unexpected outcome: {other:?}"),
    }
    assert_eq!(columns.len(), 1);
}

#[test]
fn string_definitions_are_problematic_cases() {
    let root = schema(vec![
        definition("Kind", plain_string()),
        definition("Thing", object(vec![("@id", uuid())])),
    ]);
    let inference = infer_columns(&root).unwrap();
    assert_eq!(inference.problematic_cases.len(), 1);
    assert!(inference.problematic_cases[0].is_plain_string());
}

#[test]
fn index_statements() {
    let indexes = create_index();
    assert!(indexes.starts_with(
        "DROP INDEX IF EXISTS \"elements.@type\";\nCREATE INDEX \"elements.@type\" ON \"elements\"(\"@type\");\n\n"
    ));
    assert!(indexes.ends_with(
        "DROP INDEX IF EXISTS \"relations.target_id\";\nCREATE INDEX \"relations.target_id\" ON \"relations\"(\"target_id\");\n\n"
    ));
    assert_eq!(indexes.matches("CREATE INDEX").count(), 9);
}

#[test]
fn the_script_of_a_small_schema() {
    let root = schema(vec![
        definition("Identified", object(vec![("@id", uuid())])),
        definition(
            "Thing",
            object(vec![
                ("@id", uuid()),
                ("aliases", Type::Concrete(ConcreteType::Array { items: Box::new(plain_string()) })),
                ("name", plain_string()),
                ("owner", identified()),
            ]),
        ),
    ]);
    let script = consume_json_schema(&root).unwrap();
    let expected = String::new()
        + "CREATE TABLE \"elements\" (\n"
        + "\t\"@id\" TEXT CHECK(\"@id\" LIKE ('________-____-____-____-____________')) PRIMARY KEY UNIQUE,\n"
        + "\t\"name\" TEXT,\n"
        + "\t\"value\" ANY\n"
        + ") STRICT;\n"
        + "\n\n"
        + "CREATE TABLE \"relations\" (\n"
        + "    \"name\" TEXT NOT NULL CHECK(\"name\" IN ('owner',\n\t\t'value')),\n"
        + "\t\"origin_id\" TEXT NOT NULL,\n"
        + "\t\"target_id\" TEXT NOT NULL,\n"
        + "\tFOREIGN KEY(\"origin_id\") REFERENCES \"elements\"(\"@id\") DEFERRABLE INITIALLY DEFERRED,\n"
        + "\tFOREIGN KEY(\"target_id\") REFERENCES \"elements\"(\"@id\") DEFERRABLE INITIALLY DEFERRED,\n"
        + "\tPRIMARY KEY(\"name\",\"origin_id\",\"target_id\")\n"
        + ") STRICT;\n"
        + "\n\n"
        + "CREATE TABLE \"extended_properties\" (\n"
        + "\t\"@id\" TEXT NOT NULL,\n"
        + "\t\"aliases\" TEXT,\n"
        + "\tFOREIGN KEY(\"@id\") REFERENCES \"elements\"(\"@id\") DEFERRABLE INITIALLY DEFERRED\n"
        + ") STRICT;\n"
        + "\n\n"
        + &create_index();
    assert_eq!(script, expected);
    // the same schema gives the same script
    assert_eq!(consume_json_schema(&root).unwrap(), script);
}

#[test]
fn a_column_that_refers_to_an_element_is_written_with_its_reference() {
    let columns = vec![("part".to_string(), column(true, false, true, "TEXT"))];
    let script = to_create_table(&columns);
    assert!(script.starts_with(
        "CREATE TABLE \"elements\" (\n\t\"part\" TEXT UNIQUE REFERENCES \"elements\" (\"@id\")\n) STRICT;\n"
    ));
}

#[test]
fn a_problematic_type_is_noted_once() {
    let odd = || Type::Concrete(ConcreteType::Array { items: Box::new(Type::Concrete(ConcreteType::Null)) });
    let root = schema(vec![
        definition("A", object(vec![("@id", uuid()), ("x", odd()), ("y", odd())])),
        definition("B", object(vec![("z", odd()), ("w", Type::Concrete(ConcreteType::Integer))])),
    ]);
    let inference = infer_columns(&root).unwrap();
    assert_eq!(inference.problematic_cases.len(), 2);
    assert!(inference.problematic_cases[0] == odd());
    assert!(inference.problematic_cases[1] == Type::Concrete(ConcreteType::Integer));
}

#[test]
fn types_are_compared_part_by_part() {
    let a = object(vec![("@id", uuid()), ("name", plain_string())]);
    assert!(a == a.clone());
    assert!(a != object(vec![("@id", uuid()), ("name", uuid())]));
    assert!(a != object(vec![("@id", uuid())]));
    assert!(identified() != plain_string());
    let any = Type::Composite(CompositeType::AnyOf { any_of: vec![identified(), a.clone()] });
    let one = Type::Composite(CompositeType::OneOf { one_of: vec![identified(), a.clone()] });
    assert!(any != one);
    assert!(any == any.clone());
    assert!(Type::from(ConcreteType::Null).is_null());
    assert!(Type::from(CompositeType::Ref { reference: "r".to_string() })
        == Type::Composite(CompositeType::Ref { reference: "r".to_string() }));
}
