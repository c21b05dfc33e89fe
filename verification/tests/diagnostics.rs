use sysml_v2_sql::config::{is_polymorphic_prop, PAGE_CHANNEL_CAPACITY};
use sysml_v2_sql::diagnostics::Diagnostics;
use sysml_v2_sql::fetch::FetchError;
use sysml_v2_sql::import::ImportError;
use sysml_v2_sql::json_schema_to_sql::sql::{ClassificationError, FusionConflict};
use sysml_v2_sql::json_schema_to_sql::PrimaryKeyFault;
use sysml_v2_sql::util::stream_json::StreamError;
use sysml_v2_sql::import::{AttributeClass, ColumnType, Element};
use sysml_v2_sql::json::{clone_json, json_eq, JsonNumber, JsonValue};
use sysml_v2_sql::statements::{insert_element_statement, insert_extended_statement};
use sysml_v2_sql::synchronizer::{next_step, ImportStep};
use sysml_v2_sql::tweaks::{after_bulk_insert, before_bulk_insert, PragmaValue};
use sysml_v2_sql::util::{
    ends_with, parse_bool, starts_with, str_lt, to_chars, ReportTimer,
};

fn text(s: &str) -> JsonValue {
    JsonValue::String(s.to_string())
}

fn element(id: &str, rest: Vec<(&str, JsonValue)>) -> Element {
    Element { id: id.to_string(), rest: rest.into_iter().map(|(n, v)| (n.to_string(), v)).collect() }
}

fn columns(list: &[&str]) -> Vec<(String, ColumnType)> {
    list.iter().map(|n| (n.to_string(), ColumnType::Text)).collect()
}

fn sorted(names: &[String]) -> Vec<&str> {
    let mut all: Vec<&str> = names.iter().map(String::as_str).collect();
    all.sort();
    all
}

#[test]
fn columns_are_unused_until_an_element_fills_them() {
    let cols = columns(&["@id", "name", "size", "value", "tags"]);
    let mut diagnostics = Diagnostics::new(&cols);
    assert_eq!(sorted(diagnostics.unused_db_columns()), vec!["@id", "name", "size", "tags", "value"]);
    let e = element(
        "x",
        vec![
            ("name", JsonValue::Null),
            ("value", JsonValue::Array(Vec::new())),
            ("tags", JsonValue::Array(Vec::new())),
            ("other", text("o")),
        ],
    );
    diagnostics.note_row(&cols, &e);
    assert_eq!(sorted(diagnostics.unused_db_columns()), vec!["size"]);
    // the polymorphic column may hold an array, any other may not
    assert_eq!(sorted(diagnostics.mismatched_columns()), vec!["tags"]);
}

#[test]
fn attributes_are_noted_by_their_class() {
    let mut diagnostics = Diagnostics::new(&columns(&["@id", "name"]));
    diagnostics.note_attribute("none", &AttributeClass::Empty);
    diagnostics.note_attribute("name", &AttributeClass::Primitive);
    diagnostics.note_attribute("mixed", &AttributeClass::Primitive);
    diagnostics.note_attribute("value", &AttributeClass::Primitive);
    diagnostics.note_attribute("owner", &AttributeClass::Relations(vec!["1".to_string()]));
    diagnostics.note_attribute("member", &AttributeClass::Relations(Vec::new()));
    diagnostics.note_attribute("aliases", &AttributeClass::Extended(vec!["a".to_string()]));
    diagnostics.note_attribute("mixed", &AttributeClass::Complex);
    diagnostics.note_attribute("value", &AttributeClass::Complex);
    diagnostics.note_attribute("blob", &AttributeClass::Complex);
    diagnostics.note_attribute("member", &AttributeClass::Complex);
    diagnostics.note_attribute("owner", &AttributeClass::Relations(vec!["2".to_string()]));

    assert_eq!(
        sorted(diagnostics.observed_json_attrs()),
        vec!["aliases", "blob", "member", "mixed", "name", "none", "owner", "value"]
    );
    assert_eq!(sorted(diagnostics.observed_primitive_attrs()), vec!["mixed", "name", "value"]);
    assert_eq!(sorted(diagnostics.observed_relational_attrs()), vec!["member", "owner"]);
    assert_eq!(sorted(diagnostics.observed_unexpected_polymorph_attrs()), vec!["mixed"]);
    assert_eq!(
        sorted(diagnostics.observed_unexpected_complex_attrs()),
        vec!["blob", "member", "value"]
    );
    assert_eq!(
        sorted(&diagnostics.problematic_attributes(&columns(&["@id", "name"]))),
        vec!["aliases", "blob", "member", "mixed", "none", "value"]
    );
}

#[test]
fn the_attributes_of_an_element_are_noted_in_turn() {
    let extended = columns(&["@id", "aliases"]);
    let mut diagnostics = Diagnostics::new(&columns(&["@id"]));
    let e = element(
        "x",
        vec![
            ("name", text("n")),
            ("owner", JsonValue::Object(vec![("@id".to_string(), text("o"))])),
            ("aliases", JsonValue::Array(vec![text("a"), JsonValue::Null])),
            ("later", text("l")),
        ],
    );
    diagnostics.note_attributes(&e, &extended);
    // the attribute that cannot be classified ends the notes
    assert_eq!(sorted(diagnostics.observed_json_attrs()), vec!["name", "owner"]);
    assert_eq!(sorted(diagnostics.observed_relational_attrs()), vec!["owner"]);
}

#[test]
fn settings_around_a_bulk_import() {
    let before = before_bulk_insert();
    let names: Vec<&str> = before.iter().map(|p| p.name.as_str()).collect();
    assert_eq!(names, vec!["cache_size", "page_size", "synchronous"]);
    assert!(matches!(before[0].value, PragmaValue::Number(134217728)));
    assert!(matches!(before[1].value, PragmaValue::Number(4096)));
    assert!(matches!(&before[2].value, PragmaValue::Word(w) if w == "OFF"));

    let after = after_bulk_insert(false);
    assert_eq!(after.pragmas.len(), 1);
    assert_eq!(after.pragmas[0].name, "synchronous");
    assert!(matches!(&after.pragmas[0].value, PragmaValue::Word(w) if w == "NORMAL"));
    assert_eq!(after.statements, vec!["ANALYZE".to_string()]);
    assert_eq!(
        after_bulk_insert(true).statements,
        vec!["VACUUM".to_string(), "ANALYZE".to_string()]
    );
}

#[test]
fn reports_come_no_more_often_than_their_interval() {
    let mut timer = ReportTimer::new(5000);
    assert!(!timer.maybe_time_report(5000, 10));
    assert!(!timer.maybe_time_report(6000, 0));
    assert!(timer.maybe_time_report(5001, 10));
    assert_eq!(timer.wait_ms, 10000);
    assert!(!timer.maybe_time_report(9000, 20));
    assert!(timer.maybe_time_report(10001, 20));
    assert_eq!(timer.wait_ms, 15000);
    let mut last = ReportTimer::new(u64::MAX - 1);
    assert!(last.maybe_time_report(u64::MAX, 1));
    assert_eq!(last.wait_ms, u64::MAX);
    assert_eq!(PAGE_CHANNEL_CAPACITY, 32);
}

#[test]
fn the_steps_of_an_import_follow_each_other() {
    let mut step = ImportStep::Begin;
    let mut seen = vec![step];
    while step != ImportStep::Succeeded {
        step = next_step(step, true);
        seen.push(step);
    }
    assert_eq!(
        seen,
        vec![
            ImportStep::Begin,
            ImportStep::InsertElements,
            ImportStep::DeleteStale,
            ImportStep::InsertEdges,
            ImportStep::Commit,
            ImportStep::Succeeded
        ]
    );
    for failing in [
        ImportStep::Begin,
        ImportStep::InsertElements,
        ImportStep::DeleteStale,
        ImportStep::InsertEdges,
        ImportStep::Commit,
    ] {
        assert_eq!(next_step(failing, false), ImportStep::RollBack);
    }
    assert_eq!(next_step(ImportStep::RollBack, true), ImportStep::Failed);
    assert_eq!(next_step(ImportStep::RollBack, false), ImportStep::Failed);
    assert_eq!(next_step(ImportStep::Failed, true), ImportStep::Failed);
    assert_eq!(next_step(ImportStep::Succeeded, false), ImportStep::Succeeded);
}

#[test]
fn values_are_compared_and_copied_part_by_part() {
    let value = JsonValue::Object(vec![
        ("a".to_string(), JsonValue::Array(vec![JsonValue::Null, JsonValue::Bool(true)])),
        ("b".to_string(), JsonValue::Number(JsonNumber::Float("0.5".to_string()))),
        ("c".to_string(), text("s")),
    ]);
    let copy = clone_json(&value);
    assert!(json_eq(&value, &copy));
    assert_eq!(value, value.clone());
    let other = JsonValue::Object(vec![
        ("a".to_string(), JsonValue::Array(vec![JsonValue::Null, JsonValue::Bool(false)])),
        ("b".to_string(), JsonValue::Number(JsonNumber::Float("0.5".to_string()))),
        ("c".to_string(), text("s")),
    ]);
    assert!(!json_eq(&value, &other));
    assert!(!json_eq(&JsonValue::Array(Vec::new()), &JsonValue::Object(Vec::new())));
    assert!(!json_eq(
        &JsonValue::Number(JsonNumber::PosInt(1)),
        &JsonValue::Number(JsonNumber::NegInt(1))
    ));
    assert!(!json_eq(&JsonValue::Array(vec![JsonValue::Null]), &JsonValue::Array(Vec::new())));
}

#[test]
fn texts_are_compared_by_their_characters() {
    assert!(starts_with("TEXT CHECK", "TEXT"));
    assert!(starts_with("TEXT", "TEXT"));
    assert!(starts_with("TEXT", ""));
    assert!(!starts_with("TEX", "TEXT"));
    assert!(!starts_with("INTEGER", "TEXT"));
    assert!(ends_with("#/$defs/Identified", "/Identified"));
    assert!(ends_with("abc", ""));
    assert!(!ends_with("ab", "abc"));
    assert!(!ends_with("Identified/x", "/Identified"));
    assert!(str_lt("", "a"));
    assert!(str_lt("@id", "name"));
    assert!(str_lt("Zeta", "alpha"));
    assert!(str_lt("name", "names"));
    assert!(str_lt("a", "ä"));
    assert!(!str_lt("b", "a"));
    assert!(!str_lt("a", "a"));
    assert!(!str_lt("", ""));
    assert_eq!(to_chars("aäb"), vec!['a', 'ä', 'b']);
    assert_eq!(parse_bool("true"), Some(true));
    assert_eq!(parse_bool("false"), Some(false));
    assert_eq!(parse_bool("True"), None);
    assert_eq!(parse_bool(""), None);
    assert!(is_polymorphic_prop("value"));
    assert!(!is_polymorphic_prop("values"));
}

#[test]
fn statements_of_an_import() {
    assert_eq!(insert_element_statement(3), "INSERT OR REPLACE INTO \"elements\" VALUES (?, ?, ?)");
    assert_eq!(insert_element_statement(1), "INSERT OR REPLACE INTO \"elements\" VALUES (?)");
    assert_eq!(insert_element_statement(0), "INSERT OR REPLACE INTO \"elements\" VALUES ()");
    assert_eq!(
        insert_extended_statement("ali\"ases"),
        "INSERT INTO \"extended_properties\"(\"@id\", \"ali\"\"ases\") VALUES (?, ?)"
    );
}

#[test]
fn errors_say_what_went_wrong() {
    assert_eq!(FetchError::TrailingSlash.describe(), "base_url must not end with /");
    assert_eq!(FetchError::AmbiguousBranch.describe(), "error finding exactly one matching branch");
    assert_eq!(StreamError::ArrayStartNotFound.describe(), "`[` not found");
    assert_eq!(StreamError::SeparatorNotFound.describe(), "`,` or `]` not found");
    assert_eq!(StreamError::PrematureEof.describe(), "premature EOF");
    assert_eq!(
        ImportError::ExtendedColumnType.describe(),
        "found unexpected SQLite type in the extended_properties table"
    );
    assert_eq!(
        ImportError::ConflictingElements.describe(),
        "Differing Elements with colliding ids where found"
    );
    assert_eq!(
        PrimaryKeyFault::NotColumn.describe(),
        "the \"@id\" property must be resolved to a column!"
    );
    assert_eq!(FusionConflict::Uniqueness.describe(), "Uniqueness must not differ");
    assert_eq!(ClassificationError::Unrepresentable.describe(), "Unsure how to represent the type");
}
