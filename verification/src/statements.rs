//! The text of the statements by which an import is carried out in a store
//! that speaks SQL.

use vstd::prelude::*;
use vstd::string::StringExecFns;
use crate::util::{escape_sql_ident, ident, join, joined, views};

verus! {

/// Opens the list of the elements that an import touches.
pub const CREATE_TRACKING_TABLE: &'static str =
    "CREATE TEMPORARY TABLE \"inserted_elements\"(\"@id\")";

/// Notes an element that the import touches.
pub const TRACK_ELEMENT: &'static str = "INSERT INTO \"inserted_elements\" VALUES (?)";

/// Removes the relations that start at a touched element.
pub const DELETE_STALE_RELATIONS: &'static str =
    "DELETE FROM \"relations\" WHERE \"origin_id\" IN (SELECT \"@id\" FROM \"inserted_elements\")";

/// Removes the extended properties of the touched elements.
pub const DELETE_STALE_EXTENDED: &'static str =
    "DELETE FROM \"extended_properties\" WHERE \"@id\" IN (SELECT \"@id\" FROM \"inserted_elements\")";

/// Closes the list of touched elements.
pub const DROP_TRACKING_TABLE: &'static str = "DROP TABLE \"inserted_elements\"";

/// Puts in a relation. A relation that is there already is replaced.
pub const INSERT_RELATION: &'static str =
    "INSERT OR REPLACE INTO \"relations\"(\"name\", \"origin_id\", \"target_id\") VALUES (?, ?, ?)";

/// `count` placeholders.
pub open spec fn placeholders(count: nat) -> Seq<Seq<char>> {
    Seq::new(count, |i: int| "?"@)
}

/// The statement that puts in the row of an element, or replaces the one
/// that is there, with one placeholder for each column.
pub open spec fn insert_element_text(column_count: nat) -> Seq<char> {
    "INSERT OR REPLACE INTO \"elements\" VALUES ("@ + joined(placeholders(column_count), ", "@)
        + ")"@
}

/// The statement that puts in one value of an extended property.
pub open spec fn insert_extended_text(column_name: Seq<char>) -> Seq<char> {
    "INSERT INTO \"extended_properties\"(\"@id\", "@ + ident(column_name) + ") VALUES (?, ?)"@
}

/// Writes the statement that puts in the row of an element.
pub fn insert_element_statement(column_count: usize) -> (r: String)
    ensures
        r@ == insert_element_text(column_count as nat),
{
    let mut marks: Vec<String> = Vec::new();
    let mut i: usize = 0;
    while i < column_count
        invariant
            i <= column_count,
            marks@.len() == i,
            forall|k: int| 0 <= k < i ==> (#[trigger] marks@[k])@ == "?"@,
        decreases column_count - i,
    {
        marks.push(String::from_str("?"));
        i += 1;
    }
    assert(views(marks@) =~= placeholders(column_count as nat));
    let list = join(&marks, ", ");
    let mut statement = String::from_str("INSERT OR REPLACE INTO \"elements\" VALUES (");
    statement.append(list.as_str());
    statement.append(")");
    statement
}

/// Writes the statement that puts in one value of the extended property of
/// the given column.
pub fn insert_extended_statement(column_name: &str) -> (r: String)
    ensures
        r@ == insert_extended_text(column_name@),
{
    let mut statement = String::from_str("INSERT INTO \"extended_properties\"(\"@id\", ");
    let column = escape_sql_ident(column_name);
    statement.append(column.as_str());
    statement.append(") VALUES (?, ?)");
    statement
}

} // verus!
