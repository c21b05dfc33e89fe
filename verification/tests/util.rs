use sysml_v2_sql::util::{escape_sql, escape_sql_ident, escape_sql_str_lit, join, u32_to_decimal};

#[test]
fn escape_sql_doubles_the_delimiter() {
    assert_eq!(escape_sql('\'', "it's"), "'it''s'");
    assert_eq!(escape_sql_str_lit("plain"), "'plain'");
    assert_eq!(escape_sql_ident("a\"b"), "\"a\"\"b\"");
    assert_eq!(escape_sql_ident("@id"), "\"@id\"");
    assert_eq!(escape_sql_ident(""), "\"\"");
}

#[test]
fn join_puts_the_separator_between_neighbours() {
    let parts = vec!["a".to_string(), "b".to_string(), "c".to_string()];
    assert_eq!(join(&parts, ", "), "a, b, c");
    assert_eq!(join(&Vec::new(), ", "), "");
    assert_eq!(join(&vec!["only".to_string()], ", "), "only");
}

#[test]
fn decimal_numerals() {
    assert_eq!(u32_to_decimal(0), "0");
    assert_eq!(u32_to_decimal(7), "7");
    assert_eq!(u32_to_decimal(10), "10");
    assert_eq!(u32_to_decimal(4294967295), "4294967295");
}
