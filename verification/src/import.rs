//! Elements and how they are laid into the rows of the store: one row of
//! scalar columns for each element, and its relations and extended
//! properties beside it.

use vstd::prelude::*;
use vstd::std_specs::cmp::PartialEqSpecImpl;
use vstd::string::StringExecFns;
use crate::config::ELEMENT_PK_COL;
use crate::json::{JsonNumber, JsonNumberView, JsonValue, JsonValueView};
use crate::json::{array_view, clone_entries, entries_eq, entry_of, get_entry, object_view};
use crate::util::{char_is_uppercase, contains_text, is_uppercase, parse_bool, spelled_bool};
use crate::util::{starts_with, to_chars, views};

verus! {

/// One model entity: its identity and its attributes, by name.
///
/// Two elements are equal when they have the same id and hold the same
/// attributes with the same values in the same order. Elements that are
/// decoded from a document are well-formed ([`element_wf`]) and hold their
/// attributes in the order in which the decoder hands them out.
#[derive(Debug)]
pub struct Element {
    pub id: String,
    pub rest: Vec<(String, JsonValue)>,
}

/// What an [`Element`] stands for.
pub ghost struct ElementView {
    pub id: Seq<char>,
    pub rest: Seq<(Seq<char>, JsonValueView)>,
}

impl View for Element {
    type V = ElementView;

    open spec fn view(&self) -> ElementView {
        ElementView { id: self.id@, rest: object_view(self.rest) }
    }
}

impl PartialEq for Element {
    fn eq(&self, other: &Self) -> (r: bool) {
        self.id == other.id && entries_eq(&self.rest, &other.rest)
    }
}

impl PartialEqSpecImpl for Element {
    open spec fn obeys_eq_spec() -> bool {
        true
    }

    open spec fn eq_spec(&self, other: &Self) -> bool {
        self@ == other@
    }
}

impl Clone for Element {
    fn clone(&self) -> (r: Self)
        ensures
            r@ == self@,
    {
        Element { id: self.id.clone(), rest: clone_entries(&self.rest) }
    }
}

/// Whether an element is well-formed: no attribute bears the name of the
/// key, each name occurs once, and every value is well-formed.
pub open spec fn element_wf(element: ElementView) -> bool {
    &&& crate::json::names_once(element.rest)
    &&& forall|i: int|
        0 <= i < element.rest.len() ==> (#[trigger] element.rest[i]).0 != ELEMENT_PK_COL@
            && crate::json::json_wf(element.rest[i].1)
}

/// What a list of elements stands for.
pub open spec fn elements_view(elements: Seq<Element>) -> Seq<ElementView> {
    Seq::new(elements.len(), |i: int| elements[i]@)
}

/// How an import is to be run.
#[derive(Debug, Clone, Copy, PartialEq, Eq, Structural)]
pub struct ImporterConfiguration {
    /// Do not check that both ends of a relation exist.
    pub disable_fk_checks: bool,
    /// Compact the store after the import.
    pub vacuum: bool,
    /// Be tolerant of documents in a slightly different flavor.
    pub syside_automator_compat_mode: bool,
}

/// Why an import failed. After any of these the store is as it was before.
#[derive(Debug, Clone, Copy, PartialEq, Eq, Structural)]
pub enum ImportError {
    /// The source document is malformed.
    MalformedDocument,
    /// Two elements share an id and differ in content.
    ConflictingElements,
    /// A column of the store is declared with a type that is not known.
    UnknownColumnType,
    /// The columns of a table were not reported in their order.
    ColumnOrder,
    /// A flag column holds a text that is neither `true` nor `false`.
    BooleanText,
    /// An integer is too large for a column.
    IntegerRange,
    /// A column of the extended-properties table is not of text type.
    ExtendedColumnType,
    /// An extended property holds something that is not a string.
    ExtendedValue,
    /// A relation has a name that the store does not allow.
    RelationName,
    /// A relation points at an element that the store does not hold.
    MissingElement,
}

/// The words for a failed import.
pub open spec fn import_error_text(error: ImportError) -> Seq<char> {
    match error {
        ImportError::MalformedDocument => "the document is malformed"@,
        ImportError::ConflictingElements => "Differing Elements with colliding ids where found"@,
        ImportError::UnknownColumnType => "unexpected SQLite data type encountered in schema"@,
        ImportError::ColumnOrder => "index of a column must be equal to the number of columns before it"@,
        ImportError::BooleanText => "provided string was not `true` or `false`"@,
        ImportError::IntegerRange => "integer number out of range"@,
        ImportError::ExtendedColumnType => "found unexpected SQLite type in the extended_properties table"@,
        ImportError::ExtendedValue => "an extended property holds a value that is no string"@,
        ImportError::RelationName => "a relation bears a name that the store does not allow"@,
        ImportError::MissingElement => "a relation points at an element that is not in the store"@,
    }
}

impl ImportError {
    /// Says in words what went wrong.
    pub fn describe(&self) -> (r: String)
        ensures
            r@ == import_error_text(*self),
    {
        match self {
            ImportError::MalformedDocument => String::from_str("the document is malformed"),
            ImportError::ConflictingElements => String::from_str("Differing Elements with colliding ids where found"),
            ImportError::UnknownColumnType => String::from_str("unexpected SQLite data type encountered in schema"),
            ImportError::ColumnOrder => String::from_str("index of a column must be equal to the number of columns before it"),
            ImportError::BooleanText => String::from_str("provided string was not `true` or `false`"),
            ImportError::IntegerRange => String::from_str("integer number out of range"),
            ImportError::ExtendedColumnType => String::from_str("found unexpected SQLite type in the extended_properties table"),
            ImportError::ExtendedValue => String::from_str("an extended property holds a value that is no string"),
            ImportError::RelationName => String::from_str("a relation bears a name that the store does not allow"),
            ImportError::MissingElement => String::from_str("a relation points at an element that is not in the store"),
        }
    }
}

/// The type of a column of the store.
#[derive(Debug, Clone, Copy, PartialEq, Eq, Structural)]
pub enum ColumnType {
    Integer,
    Real,
    Text,
    Blob,
}

/// The column type that a declaration names. A column declared `ANY` is read
/// as text.
pub open spec fn declared_type(declared: Seq<char>) -> Option<ColumnType> {
    if declared == "INTEGER"@ {
        Some(ColumnType::Integer)
    } else if declared == "REAL"@ {
        Some(ColumnType::Real)
    } else if declared == "TEXT"@ {
        Some(ColumnType::Text)
    } else if declared == "BLOB"@ {
        Some(ColumnType::Blob)
    } else if declared == "ANY"@ {
        Some(ColumnType::Text)
    } else {
        None
    }
}

/// Reads the type of a column from its declaration.
pub fn parse_column_type(declared: &str) -> (r: Option<ColumnType>)
    ensures
        r == declared_type(declared@),
{
    if *declared == *"INTEGER" {
        Some(ColumnType::Integer)
    } else if *declared == *"REAL" {
        Some(ColumnType::Real)
    } else if *declared == *"TEXT" {
        Some(ColumnType::Text)
    } else if *declared == *"BLOB" {
        Some(ColumnType::Blob)
    } else if *declared == *"ANY" {
        Some(ColumnType::Text)
    } else {
        None
    }
}

/// What the store reports about one column of a table.
#[derive(Debug)]
pub struct ColumnInfo {
    /// The position of the column in its table.
    pub index: usize,
    pub name: String,
    /// The type as it was declared.
    pub declared: String,
}

/// A column of the store: its name and its type.
pub type ColumnView = (Seq<char>, ColumnType);

/// What a list of columns stands for.
pub open spec fn columns_view(columns: Seq<(String, ColumnType)>) -> Seq<ColumnView> {
    Seq::new(columns.len(), |i: int| (columns[i].0@, columns[i].1))
}

/// The first thing wrong with the reported columns from position `from` on:
/// a column out of its place, or a type that is not known.
pub open spec fn columns_fault(infos: Seq<ColumnInfo>, from: int) -> Option<ImportError>
    decreases infos.len() - from,
{
    if from < 0 || from >= infos.len() {
        None
    } else if infos[from].index != from {
        Some(ImportError::ColumnOrder)
    } else if declared_type(infos[from].declared@) is None {
        Some(ImportError::UnknownColumnType)
    } else {
        columns_fault(infos, from + 1)
    }
}

/// The columns that the reports describe.
pub open spec fn reported_columns(infos: Seq<ColumnInfo>) -> Seq<ColumnView> {
    Seq::new(infos.len(), |i: int| (infos[i].name@, declared_type(infos[i].declared@)->0))
}

/// Reads the columns of a table, with name and type, from what the store
/// reports about them. The order of the store is kept.
pub fn get_table_columns(table_info: &Vec<ColumnInfo>) -> (r: Result<
    Vec<(String, ColumnType)>,
    ImportError,
>)
    ensures
        match columns_fault(table_info@, 0) {
            Some(e) => r == Err::<Vec<(String, ColumnType)>, ImportError>(e),
            None => r is Ok && columns_view(r->Ok_0@) == reported_columns(table_info@),
        },
{
    let mut columns_typed: Vec<(String, ColumnType)> = Vec::new();
    let mut i: usize = 0;
    while i < table_info.len()
        invariant
            i <= table_info.len(),
            columns_typed@.len() == i,
            columns_fault(table_info@, 0) == columns_fault(table_info@, i as int),
            forall|k: int|
                0 <= k < i ==> columns_typed@[k].0@ == table_info@[k].name@ && declared_type(
                    table_info@[k].declared@,
                ) == Some(columns_typed@[k].1),
        decreases table_info.len() - i,
    {
        if table_info[i].index != i {
            return Err(ImportError::ColumnOrder);
        }
        match parse_column_type(table_info[i].declared.as_str()) {
            Some(parsed_ty) => {
                columns_typed.push((table_info[i].name.clone(), parsed_ty));
            },
            None => {
                return Err(ImportError::UnknownColumnType);
            },
        }
        i += 1;
    }
    assert(columns_view(columns_typed@) =~= reported_columns(table_info@));
    Ok(columns_typed)
}

/// A value of a scalar column. A real number is kept as its numeral.
#[derive(Debug)]
pub enum SqlValue {
    Null,
    Integer(i64),
    Real(String),
    Text(String),
}

/// What a [`SqlValue`] stands for.
pub ghost enum SqlValueView {
    Null,
    Integer(i64),
    Real(Seq<char>),
    Text(Seq<char>),
}

impl View for SqlValue {
    type V = SqlValueView;

    open spec fn view(&self) -> SqlValueView {
        match self {
            SqlValue::Null => SqlValueView::Null,
            SqlValue::Integer(n) => SqlValueView::Integer(*n),
            SqlValue::Real(numeral) => SqlValueView::Real(numeral@),
            SqlValue::Text(s) => SqlValueView::Text(s@),
        }
    }
}

impl Clone for SqlValue {
    fn clone(&self) -> (r: Self)
        ensures
            r@ == self@,
    {
        match self {
            SqlValue::Null => SqlValue::Null,
            SqlValue::Integer(n) => SqlValue::Integer(*n),
            SqlValue::Real(numeral) => SqlValue::Real(numeral.clone()),
            SqlValue::Text(s) => SqlValue::Text(s.clone()),
        }
    }
}

impl PartialEq for SqlValue {
    fn eq(&self, other: &Self) -> (r: bool) {
        match (self, other) {
            (SqlValue::Null, SqlValue::Null) => true,
            (SqlValue::Integer(a), SqlValue::Integer(b)) => *a == *b,
            (SqlValue::Real(a), SqlValue::Real(b)) => *a == *b,
            (SqlValue::Text(a), SqlValue::Text(b)) => *a == *b,
            _ => false,
        }
    }
}

impl PartialEqSpecImpl for SqlValue {
    open spec fn obeys_eq_spec() -> bool {
        true
    }

    open spec fn eq_spec(&self, other: &Self) -> bool {
        self@ == other@
    }
}

/// A row of scalar values.
pub type RowView = Seq<SqlValueView>;

/// What a row stands for.
pub open spec fn row_view(row: Seq<SqlValue>) -> RowView {
    Seq::new(row.len(), |i: int| row[i]@)
}

/// Whether a column name looks like that of a flag: `is`, then an uppercase
/// letter.
pub open spec fn is_flag_name(column: Seq<char>) -> bool {
    "is"@.is_prefix_of(column) && column.len() > 2 && is_uppercase(column[2])
}

/// Tells whether a column name looks like that of a flag.
pub fn looks_like_flag(column_name: &str) -> (r: bool)
    ensures
        r == is_flag_name(column_name@),
{
    if !starts_with(column_name, "is") {
        return false;
    }
    let chars = to_chars(column_name);
    chars.len() > 2 && char_is_uppercase(chars[2])
}

/// `1` for true and `0` for false.
pub open spec fn bool_value(b: bool) -> SqlValueView {
    SqlValueView::Integer(
        if b {
            1
        } else {
            0
        },
    )
}

/// What the column `column` holds for an element.
///
/// The key column holds the id. Any other column holds the attribute of its
/// name: null where the element has none, or where it is null, an array or
/// an object; `0` or `1` for a boolean, and for the text `false` or `true`
/// in a flag column; the integer or the numeral of a number; the text of a
/// string.
pub open spec fn cell(column: Seq<char>, element: ElementView) -> Result<
    SqlValueView,
    ImportError,
> {
    if column == ELEMENT_PK_COL@ {
        Ok(SqlValueView::Text(element.id))
    } else {
        match entry_of(element.rest, column) {
            None => Ok(SqlValueView::Null),
            Some(JsonValueView::Null) => Ok(SqlValueView::Null),
            Some(JsonValueView::Bool(b)) => Ok(bool_value(b)),
            Some(JsonValueView::String(s)) => {
                if is_flag_name(column) {
                    match spelled_bool(s) {
                        Some(b) => Ok(bool_value(b)),
                        None => Err(ImportError::BooleanText),
                    }
                } else {
                    Ok(SqlValueView::Text(s))
                }
            },
            Some(JsonValueView::Number(JsonNumberView::Float(numeral))) => Ok(
                SqlValueView::Real(numeral),
            ),
            Some(JsonValueView::Number(JsonNumberView::PosInt(n))) => {
                if n <= i64::MAX {
                    Ok(SqlValueView::Integer(n as i64))
                } else {
                    Err(ImportError::IntegerRange)
                }
            },
            Some(JsonValueView::Number(JsonNumberView::NegInt(n))) => Ok(
                SqlValueView::Integer(n),
            ),
            Some(JsonValueView::Array(_)) => Ok(SqlValueView::Null),
            Some(JsonValueView::Object(_)) => Ok(SqlValueView::Null),
        }
    }
}

/// The first failure among the cells of the columns from position `from` on.
pub open spec fn row_fault(columns: Seq<ColumnView>, element: ElementView, from: int) -> Option<
    ImportError,
>
    decreases columns.len() - from,
{
    if from < 0 || from >= columns.len() {
        None
    } else {
        match cell(columns[from].0, element) {
            Err(e) => Some(e),
            Ok(_) => row_fault(columns, element, from + 1),
        }
    }
}

/// The row of an element: one cell for each column, in the order of the
/// columns.
pub open spec fn element_row_view(columns: Seq<ColumnView>, element: ElementView) -> RowView {
    Seq::new(columns.len(), |i: int| cell(columns[i].0, element)->Ok_0)
}

fn bool_cell(b: bool) -> (r: SqlValue)
    ensures
        r@ == bool_value(b),
{
    SqlValue::Integer(
        if b {
            1
        } else {
            0
        },
    )
}

/// Finds what a column holds for an element.
pub fn element_cell(column_name: &str, element: &Element) -> (r: Result<SqlValue, ImportError>)
    ensures
        match cell(column_name@, element@) {
            Ok(v) => r is Ok && r->Ok_0@ == v,
            Err(e) => r == Err::<SqlValue, ImportError>(e),
        },
{
    // the id is not among the attributes
    if *column_name == *ELEMENT_PK_COL {
        return Ok(SqlValue::Text(element.id.clone()));
    }
    match get_entry(&element.rest, column_name) {
        None => Ok(SqlValue::Null),
        Some(JsonValue::Null) => Ok(SqlValue::Null),
        Some(JsonValue::Bool(b)) => Ok(bool_cell(*b)),
        Some(JsonValue::String(s)) => {
            if looks_like_flag(column_name) {
                match parse_bool(s.as_str()) {
                    Some(b) => Ok(bool_cell(b)),
                    None => Err(ImportError::BooleanText),
                }
            } else {
                Ok(SqlValue::Text(s.clone()))
            }
        },
        Some(JsonValue::Number(JsonNumber::Float(numeral))) => Ok(SqlValue::Real(numeral.clone())),
        Some(JsonValue::Number(JsonNumber::PosInt(n))) => {
            if *n <= 0x7fff_ffff_ffff_ffff {
                Ok(SqlValue::Integer(*n as i64))
            } else {
                Err(ImportError::IntegerRange)
            }
        },
        Some(JsonValue::Number(JsonNumber::NegInt(n))) => Ok(SqlValue::Integer(*n)),
        // an array or an object fits no scalar column
        Some(JsonValue::Array(_)) => Ok(SqlValue::Null),
        Some(JsonValue::Object(_)) => Ok(SqlValue::Null),
    }
}

/// Builds the row of an element for the given columns of the elements table.
pub fn element_row(columns: &Vec<(String, ColumnType)>, element: &Element) -> (r: Result<
    Vec<SqlValue>,
    ImportError,
>)
    ensures
        match row_fault(columns_view(columns@), element@, 0) {
            Some(e) => r == Err::<Vec<SqlValue>, ImportError>(e),
            None => r is Ok && row_view(r->Ok_0@) == element_row_view(
                columns_view(columns@),
                element@,
            ),
        },
{
    let ghost all = columns_view(columns@);
    let mut db_row_values: Vec<SqlValue> = Vec::new();
    let mut i: usize = 0;
    while i < columns.len()
        invariant
            i <= columns.len(),
            all == columns_view(columns@),
            db_row_values@.len() == i,
            row_fault(all, element@, 0) == row_fault(all, element@, i as int),
            forall|k: int|
                0 <= k < i ==> cell(all[k].0, element@) == Ok::<SqlValueView, ImportError>(
                    db_row_values@[k]@,
                ),
        decreases columns.len() - i,
    {
        assert(all[i as int].0 == columns@[i as int].0@);
        let db_value = element_cell(columns[i].0.as_str(), element)?;
        db_row_values.push(db_value);
        i += 1;
    }
    assert(row_view(db_row_values@) =~= element_row_view(all, element@));
    Ok(db_row_values)
}

/// A directed, named edge between two elements.
#[derive(Debug)]
pub struct Relation {
    pub name: String,
    pub origin_id: String,
    pub target_id: String,
}

/// What a [`Relation`] stands for.
pub ghost struct RelationView {
    pub name: Seq<char>,
    pub origin_id: Seq<char>,
    pub target_id: Seq<char>,
}

impl View for Relation {
    type V = RelationView;

    open spec fn view(&self) -> RelationView {
        RelationView { name: self.name@, origin_id: self.origin_id@, target_id: self.target_id@ }
    }
}

impl Clone for Relation {
    fn clone(&self) -> (r: Self)
        ensures
            r@ == self@,
    {
        Relation {
            name: self.name.clone(),
            origin_id: self.origin_id.clone(),
            target_id: self.target_id.clone(),
        }
    }
}

impl PartialEq for Relation {
    fn eq(&self, other: &Self) -> (r: bool) {
        self.name == other.name && self.origin_id == other.origin_id && self.target_id
            == other.target_id
    }
}

impl PartialEqSpecImpl for Relation {
    open spec fn obeys_eq_spec() -> bool {
        true
    }

    open spec fn eq_spec(&self, other: &Self) -> bool {
        self@ == other@
    }
}

/// One of several plain values that a property of an element holds.
#[derive(Debug)]
pub struct ExtendedProperty {
    pub element_id: String,
    pub property_name: String,
    pub value: String,
}

/// What an [`ExtendedProperty`] stands for.
pub ghost struct ExtendedPropertyView {
    pub element_id: Seq<char>,
    pub property_name: Seq<char>,
    pub value: Seq<char>,
}

impl View for ExtendedProperty {
    type V = ExtendedPropertyView;

    open spec fn view(&self) -> ExtendedPropertyView {
        ExtendedPropertyView {
            element_id: self.element_id@,
            property_name: self.property_name@,
            value: self.value@,
        }
    }
}

impl Clone for ExtendedProperty {
    fn clone(&self) -> (r: Self)
        ensures
            r@ == self@,
    {
        ExtendedProperty {
            element_id: self.element_id.clone(),
            property_name: self.property_name.clone(),
            value: self.value.clone(),
        }
    }
}

impl PartialEq for ExtendedProperty {
    fn eq(&self, other: &Self) -> (r: bool) {
        self.element_id == other.element_id && self.property_name == other.property_name
            && self.value == other.value
    }
}

impl PartialEqSpecImpl for ExtendedProperty {
    open spec fn obeys_eq_spec() -> bool {
        true
    }

    open spec fn eq_spec(&self, other: &Self) -> bool {
        self@ == other@
    }
}

/// What a list of relations stands for.
pub open spec fn relations_view(relations: Seq<Relation>) -> Seq<RelationView> {
    Seq::new(relations.len(), |i: int| relations[i]@)
}

/// What a list of extended properties stands for.
pub open spec fn extended_view(extended: Seq<ExtendedProperty>) -> Seq<ExtendedPropertyView> {
    Seq::new(extended.len(), |i: int| extended[i]@)
}

/// Whether a value has the shape of a reference to an element: an object
/// whose only entry is an `@id` that holds a string.
pub open spec fn is_reference(value: JsonValueView) -> bool {
    value matches JsonValueView::Object(entries) && entries.len() == 1 && entry_of(
        entries,
        ELEMENT_PK_COL@,
    ) matches Some(JsonValueView::String(_))
}

/// The id that a reference points at.
pub open spec fn reference_target(value: JsonValueView) -> Seq<char> {
    entry_of(value->Object_0, ELEMENT_PK_COL@)->0->String_0
}

/// Whether every value has the shape of a reference.
pub open spec fn all_references(items: Seq<JsonValueView>) -> bool {
    forall|i: int| 0 <= i < items.len() ==> is_reference(#[trigger] items[i])
}

/// Whether every value is a string.
pub open spec fn all_strings(items: Seq<JsonValueView>) -> bool {
    forall|i: int| 0 <= i < items.len() ==> #[trigger] items[i] is String
}

/// The position of the first column named `name` from `from` on, or the
/// number of columns if there is none.
pub open spec fn column_position(columns: Seq<ColumnView>, name: Seq<char>, from: int) -> int
    decreases columns.len() - from,
{
    if from < 0 || from >= columns.len() || columns[from].0 == name {
        from
    } else {
        column_position(columns, name, from + 1)
    }
}

/// What an attribute is to the store.
#[derive(Debug)]
pub enum AttributeClass {
    /// Null: nothing to store.
    Empty,
    /// A boolean, a number or a string: a scalar, which a column holds if
    /// there is one of its name.
    Primitive,
    /// One reference or an array of references: the ids that they point at.
    Relations(Vec<String>),
    /// An array of strings under the name of an extended property: the
    /// strings.
    Extended(Vec<String>),
    /// Any other object or array. It is not stored.
    Complex,
}

/// What an [`AttributeClass`] stands for.
pub ghost enum AttributeClassView {
    Empty,
    Primitive,
    Relations(Seq<Seq<char>>),
    Extended(Seq<Seq<char>>),
    Complex,
}

impl View for AttributeClass {
    type V = AttributeClassView;

    open spec fn view(&self) -> AttributeClassView {
        match self {
            AttributeClass::Empty => AttributeClassView::Empty,
            AttributeClass::Primitive => AttributeClassView::Primitive,
            AttributeClass::Relations(targets) => AttributeClassView::Relations(
                views(targets@),
            ),
            AttributeClass::Extended(values) => AttributeClassView::Extended(
                views(values@),
            ),
            AttributeClass::Complex => AttributeClassView::Complex,
        }
    }
}

/// What the attribute `name` with the given value is to a store with the
/// given columns of extended properties.
///
/// Null is nothing, a scalar is a primitive, a reference is a relation. An
/// array of references, the empty array among them, is a relation to each.
/// Any other array under the name of an extended property must hold strings
/// only, and the column must be of text type. Everything else is complex.
pub open spec fn attribute_class(
    name: Seq<char>,
    value: JsonValueView,
    extended_columns: Seq<ColumnView>,
) -> Result<AttributeClassView, ImportError> {
    match value {
        JsonValueView::Null => Ok(AttributeClassView::Empty),
        JsonValueView::Bool(_) => Ok(AttributeClassView::Primitive),
        JsonValueView::Number(_) => Ok(AttributeClassView::Primitive),
        JsonValueView::String(_) => Ok(AttributeClassView::Primitive),
        JsonValueView::Object(_) => {
            if is_reference(value) {
                Ok(AttributeClassView::Relations(seq![reference_target(value)]))
            } else {
                Ok(AttributeClassView::Complex)
            }
        },
        JsonValueView::Array(items) => {
            let column = column_position(extended_columns, name, 0);
            if all_references(items) {
                Ok(
                    AttributeClassView::Relations(
                        items.map_values(|v: JsonValueView| reference_target(v)),
                    ),
                )
            } else if column < extended_columns.len() {
                if extended_columns[column].1 != ColumnType::Text {
                    Err(ImportError::ExtendedColumnType)
                } else if all_strings(items) {
                    Ok(
                        AttributeClassView::Extended(
                            items.map_values(|v: JsonValueView| v->String_0),
                        ),
                    )
                } else {
                    Err(ImportError::ExtendedValue)
                }
            } else {
                Ok(AttributeClassView::Complex)
            }
        },
    }
}

/// Checks whether an object is a reference to an element: it has a single
/// attribute, which is named `@id` and holds a string.
pub fn is_relation_object(json_object: &Vec<(String, JsonValue)>) -> (r: bool)
    ensures
        r == is_reference(JsonValueView::Object(object_view(*json_object))),
{
    let maybe_id_attribute = get_entry(json_object, ELEMENT_PK_COL);
    let contains_text = match maybe_id_attribute {
        Some(JsonValue::String(_)) => true,
        _ => false,
    };
    contains_text && json_object.len() == 1
}

fn reference_id(value: &JsonValue) -> (r: Option<String>)
    ensures
        match r {
            Some(id) => is_reference(value@) && id@ == reference_target(value@),
            None => !is_reference(value@),
        },
{
    match value {
        JsonValue::Object(entries) => {
            if entries.len() != 1 {
                return None;
            }
            match get_entry(entries, ELEMENT_PK_COL) {
                Some(JsonValue::String(id)) => Some(id.clone()),
                _ => None,
            }
        },
        _ => None,
    }
}

fn reference_ids(items: &Vec<JsonValue>) -> (r: Option<Vec<String>>)
    ensures
        match r {
            Some(ids) => all_references(array_view(*items)) && views(ids@)
                == array_view(*items).map_values(|v: JsonValueView| reference_target(v)),
            None => !all_references(array_view(*items)),
        },
{
    let ghost all = array_view(*items);
    let mut ids: Vec<String> = Vec::new();
    let mut i: usize = 0;
    while i < items.len()
        invariant
            i <= items.len(),
            all == array_view(*items),
            ids@.len() == i,
            forall|k: int|
                0 <= k < i ==> is_reference(#[trigger] all[k]) && ids@[k]@ == reference_target(
                    all[k],
                ),
        decreases items.len() - i,
    {
        assert(all[i as int] == items@[i as int]@);
        match reference_id(&items[i]) {
            Some(id) => {
                ids.push(id);
            },
            None => {
                return None;
            },
        }
        i += 1;
    }
    assert(views(ids@) =~= all.map_values(|v: JsonValueView| reference_target(v)));
    Some(ids)
}

fn string_values(items: &Vec<JsonValue>) -> (r: Option<Vec<String>>)
    ensures
        match r {
            Some(values) => all_strings(array_view(*items)) && views(values@)
                == array_view(*items).map_values(|v: JsonValueView| v->String_0),
            None => !all_strings(array_view(*items)),
        },
{
    let ghost all = array_view(*items);
    let mut values: Vec<String> = Vec::new();
    let mut i: usize = 0;
    while i < items.len()
        invariant
            i <= items.len(),
            all == array_view(*items),
            values@.len() == i,
            forall|k: int|
                0 <= k < i ==> (#[trigger] all[k]) is String && values@[k]@ == all[k]->String_0,
        decreases items.len() - i,
    {
        assert(all[i as int] == items@[i as int]@);
        match &items[i] {
            JsonValue::String(s) => {
                values.push(s.clone());
            },
            _ => {
                return None;
            },
        }
        i += 1;
    }
    assert(views(values@) =~= all.map_values(|v: JsonValueView| v->String_0));
    Some(values)
}

fn find_column(columns: &Vec<(String, ColumnType)>, name: &str) -> (r: usize)
    ensures
        r == column_position(columns_view(columns@), name@, 0),
        r <= columns.len(),
{
    let ghost all = columns_view(columns@);
    let mut i: usize = 0;
    while i < columns.len()
        invariant
            i <= columns.len(),
            all == columns_view(columns@),
            column_position(all, name@, 0) == column_position(all, name@, i as int),
        decreases columns.len() - i,
    {
        if *columns[i].0.as_str() == *name {
            return i;
        }
        i += 1;
    }
    i
}

/// Finds what an attribute is to the store.
pub fn classify_attribute(
    name: &str,
    value: &JsonValue,
    extended_columns: &Vec<(String, ColumnType)>,
) -> (r: Result<AttributeClass, ImportError>)
    ensures
        match attribute_class(name@, value@, columns_view(extended_columns@)) {
            Ok(class) => r is Ok && r->Ok_0@ == class,
            Err(e) => r is Err && r->Err_0 == e,
        },
{
    match value {
        // an empty attribute is of no interest
        JsonValue::Null => Ok(AttributeClass::Empty),
        JsonValue::Bool(_) => Ok(AttributeClass::Primitive),
        JsonValue::Number(_) => Ok(AttributeClass::Primitive),
        JsonValue::String(_) => Ok(AttributeClass::Primitive),
        // a single reference
        JsonValue::Object(_) => {
            match reference_id(value) {
                Some(id) => {
                    let mut targets: Vec<String> = Vec::new();
                    targets.push(id);
                    assert(views(targets@) =~= seq![reference_target(value@)]);
                    Ok(AttributeClass::Relations(targets))
                },
                None => Ok(AttributeClass::Complex),
            }
        },
        JsonValue::Array(items) => {
            // several references
            if let Some(targets) = reference_ids(items) {
                return Ok(AttributeClass::Relations(targets));
            }
            let column = find_column(extended_columns, name);
            if column < extended_columns.len() {
                match extended_columns[column].1 {
                    ColumnType::Text => {
                        match string_values(items) {
                            Some(values) => Ok(AttributeClass::Extended(values)),
                            None => Err(ImportError::ExtendedValue),
                        }
                    },
                    _ => Err(ImportError::ExtendedColumnType),
                }
            } else {
                Ok(AttributeClass::Complex)
            }
        },
    }
}

/// The relations and the extended properties that elements bring with them.
#[derive(Debug)]
pub struct Edges {
    pub relations: Vec<Relation>,
    pub extended: Vec<ExtendedProperty>,
}

/// What [`Edges`] stand for.
pub ghost struct EdgesView {
    pub relations: Seq<RelationView>,
    pub extended: Seq<ExtendedPropertyView>,
}

impl View for Edges {
    type V = EdgesView;

    open spec fn view(&self) -> EdgesView {
        EdgesView {
            relations: relations_view(self.relations@),
            extended: extended_view(self.extended@),
        }
    }
}

/// No edges at all.
pub open spec fn no_edges() -> EdgesView {
    EdgesView { relations: Seq::empty(), extended: Seq::empty() }
}

/// A relation named `name` from `origin` to each of the targets.
pub open spec fn relations_to(name: Seq<char>, origin: Seq<char>, targets: Seq<Seq<char>>) -> Seq<
    RelationView,
> {
    Seq::new(
        targets.len(),
        |i: int| RelationView { name, origin_id: origin, target_id: targets[i] },
    )
}

/// The extended property `name` of `element` with each of the values.
pub open spec fn extended_of(element: Seq<char>, name: Seq<char>, values: Seq<Seq<char>>) -> Seq<
    ExtendedPropertyView,
> {
    Seq::new(
        values.len(),
        |i: int| ExtendedPropertyView { element_id: element, property_name: name, value: values[i] },
    )
}

/// The edges `acc` and after them those of one attribute of the element
/// `id`. A relation must bear one of the allowed names.
pub open spec fn attribute_edges(
    id: Seq<char>,
    name: Seq<char>,
    value: JsonValueView,
    extended_columns: Seq<ColumnView>,
    relation_names: Seq<Seq<char>>,
    acc: EdgesView,
) -> Result<EdgesView, ImportError> {
    match attribute_class(name, value, extended_columns) {
        Err(e) => Err(e),
        Ok(AttributeClassView::Relations(targets)) => {
            if targets.len() > 0 && !relation_names.contains(name) {
                Err(ImportError::RelationName)
            } else {
                Ok(
                    EdgesView {
                        relations: acc.relations + relations_to(name, id, targets),
                        ..acc
                    },
                )
            }
        },
        Ok(AttributeClassView::Extended(values)) => Ok(
            EdgesView { extended: acc.extended + extended_of(id, name, values), ..acc },
        ),
        Ok(_) => Ok(acc),
    }
}

/// The edges `acc` and after them those of the attributes of an element from
/// position `from` on, or the first failure among these.
pub open spec fn element_edges_from(
    element: ElementView,
    extended_columns: Seq<ColumnView>,
    relation_names: Seq<Seq<char>>,
    from: int,
    acc: EdgesView,
) -> Result<EdgesView, ImportError>
    decreases element.rest.len() - from,
{
    if from < 0 || from >= element.rest.len() {
        Ok(acc)
    } else {
        match attribute_edges(
            element.id,
            element.rest[from].0,
            element.rest[from].1,
            extended_columns,
            relation_names,
            acc,
        ) {
            Err(e) => Err(e),
            Ok(next) => element_edges_from(
                element,
                extended_columns,
                relation_names,
                from + 1,
                next,
            ),
        }
    }
}

/// The edges `acc` and after them those of the attributes of an element from
/// position `from` on, as far as they can be built: up to the first failure.
pub open spec fn edges_found_from(
    element: ElementView,
    extended_columns: Seq<ColumnView>,
    relation_names: Seq<Seq<char>>,
    from: int,
    acc: EdgesView,
) -> EdgesView
    decreases element.rest.len() - from,
{
    if from < 0 || from >= element.rest.len() {
        acc
    } else {
        match attribute_edges(
            element.id,
            element.rest[from].0,
            element.rest[from].1,
            extended_columns,
            relation_names,
            acc,
        ) {
            Err(_) => acc,
            Ok(next) => edges_found_from(element, extended_columns, relation_names, from + 1, next),
        }
    }
}

/// The edges `acc` and after them those of the elements from position `from`
/// on, or the first failure among these.
pub open spec fn batch_edges_from(
    batch: Seq<ElementView>,
    extended_columns: Seq<ColumnView>,
    relation_names: Seq<Seq<char>>,
    from: int,
    acc: EdgesView,
) -> Result<EdgesView, ImportError>
    decreases batch.len() - from,
{
    if from < 0 || from >= batch.len() {
        Ok(acc)
    } else {
        match element_edges_from(batch[from], extended_columns, relation_names, 0, acc) {
            Err(e) => Err(e),
            Ok(next) => batch_edges_from(batch, extended_columns, relation_names, from + 1, next),
        }
    }
}

/// All edges of a batch of elements.
pub open spec fn batch_edges(
    batch: Seq<ElementView>,
    extended_columns: Seq<ColumnView>,
    relation_names: Seq<Seq<char>>,
) -> Result<EdgesView, ImportError> {
    batch_edges_from(batch, extended_columns, relation_names, 0, no_edges())
}

/// Adds the relations and the extended properties of an element to `edges`,
/// attribute by attribute. At the first attribute whose edges cannot be
/// built it stops, and `edges` holds what was found before it.
pub fn element_edges(
    element: &Element,
    extended_columns: &Vec<(String, ColumnType)>,
    relation_names: &Vec<String>,
    edges: &mut Edges,
) -> (r: Result<(), ImportError>)
    ensures
        match element_edges_from(
            element@,
            columns_view(extended_columns@),
            views(relation_names@),
            0,
            old(edges)@,
        ) {
            Ok(found) => r is Ok && final(edges)@ == found,
            Err(e) => r == Err::<(), ImportError>(e),
        },
        final(edges)@ == edges_found_from(
            element@,
            columns_view(extended_columns@),
            views(relation_names@),
            0,
            old(edges)@,
        ),
{
    let ghost columns = columns_view(extended_columns@);
    let ghost names = views(relation_names@);
    let ghost start = edges@;
    let mut i: usize = 0;
    while i < element.rest.len()
        invariant
            i <= element.rest.len(),
            columns == columns_view(extended_columns@),
            names == views(relation_names@),
            element@.rest.len() == element.rest@.len(),
            start == old(edges)@,
            element_edges_from(element@, columns, names, 0, start) == element_edges_from(
                element@,
                columns,
                names,
                i as int,
                edges@,
            ),
            edges_found_from(element@, columns, names, 0, start) == edges_found_from(
                element@,
                columns,
                names,
                i as int,
                edges@,
            ),
        decreases element.rest.len() - i,
    {
        let json_attr_name = element.rest[i].0.as_str();
        let json_attr_value = &element.rest[i].1;
        assert(element@.rest[i as int] == (json_attr_name@, json_attr_value@));
        let ghost before = edges@;
        let class = match classify_attribute(json_attr_name, json_attr_value, extended_columns) {
            Ok(class) => class,
            Err(e) => {
                return Err(e);
            },
        };
        match class {
            AttributeClass::Relations(targets) => {
                if targets.len() > 0 && !contains_text(relation_names, json_attr_name) {
                    return Err(ImportError::RelationName);
                }
                let ghost wanted = relations_to(
                    json_attr_name@,
                    element@.id,
                    views(targets@),
                );
                let mut k: usize = 0;
                while k < targets.len()
                    invariant
                        k <= targets.len(),
                        wanted == relations_to(
                            json_attr_name@,
                            element@.id,
                            views(targets@),
                        ),
                        edges@.extended == before.extended,
                        edges@.relations == before.relations + wanted.take(k as int),
                    decreases targets.len() - k,
                {
                    let ghost now = edges@.relations;
                    edges.relations.push(
                        Relation {
                            name: String::from_str(json_attr_name),
                            origin_id: element.id.clone(),
                            target_id: targets[k].clone(),
                        },
                    );
                    assert(edges@.relations =~= now.push(wanted[k as int]));
                    assert(before.relations + wanted.take(k + 1) =~= (before.relations
                        + wanted.take(k as int)).push(wanted[k as int]));
                    k += 1;
                }
                assert(wanted.take(targets.len() as int) =~= wanted);
            },
            AttributeClass::Extended(values) => {
                let ghost wanted = extended_of(
                    element@.id,
                    json_attr_name@,
                    views(values@),
                );
                let mut k: usize = 0;
                while k < values.len()
                    invariant
                        k <= values.len(),
                        wanted == extended_of(
                            element@.id,
                            json_attr_name@,
                            views(values@),
                        ),
                        edges@.relations == before.relations,
                        edges@.extended == before.extended + wanted.take(k as int),
                    decreases values.len() - k,
                {
                    let ghost now = edges@.extended;
                    edges.extended.push(
                        ExtendedProperty {
                            element_id: element.id.clone(),
                            property_name: String::from_str(json_attr_name),
                            value: values[k].clone(),
                        },
                    );
                    assert(edges@.extended =~= now.push(wanted[k as int]));
                    assert(before.extended + wanted.take(k + 1) =~= (before.extended
                        + wanted.take(k as int)).push(wanted[k as int]));
                    k += 1;
                }
                assert(wanted.take(values.len() as int) =~= wanted);
            },
            _ => {},
        }
        i += 1;
    }
    Ok(())
}

/// The names of the attributes of an element, in order.
pub open spec fn attribute_names(element: ElementView) -> Seq<Seq<char>> {
    Seq::new(element.rest.len(), |i: int| element.rest[i].0)
}

proof fn lemma_own_names_pass(
    element: ElementView,
    extended_columns: Seq<ColumnView>,
    from: int,
    acc: EdgesView,
)
    requires
        0 <= from,
    ensures
        element_edges_from(element, extended_columns, attribute_names(element), from, acc) != Err::<
            EdgesView,
            ImportError,
        >(ImportError::RelationName),
    decreases element.rest.len() - from,
{
    let names = attribute_names(element);
    if from < element.rest.len() {
        assert(names[from] == element.rest[from].0);
        assert(names.contains(element.rest[from].0));
        if let Ok(next) = attribute_edges(
            element.id,
            element.rest[from].0,
            element.rest[from].1,
            extended_columns,
            names,
            acc,
        ) {
            lemma_own_names_pass(element, extended_columns, from + 1, next);
        }
    }
}

/// Adds the relations and the extended properties of an element to `edges`
/// for a store that checks the names of relations itself: here every name
/// that the element uses passes, so the name of a relation is never the
/// reason of a failure.
pub fn element_edges_of_any_name(
    element: &Element,
    extended_columns: &Vec<(String, ColumnType)>,
    edges: &mut Edges,
) -> (r: Result<(), ImportError>)
    ensures
        match element_edges_from(
            element@,
            columns_view(extended_columns@),
            attribute_names(element@),
            0,
            old(edges)@,
        ) {
            Ok(found) => r is Ok && final(edges)@ == found,
            Err(e) => r == Err::<(), ImportError>(e),
        },
        final(edges)@ == edges_found_from(
            element@,
            columns_view(extended_columns@),
            attribute_names(element@),
            0,
            old(edges)@,
        ),
        r != Err::<(), ImportError>(ImportError::RelationName),
{
    let mut names: Vec<String> = Vec::new();
    let mut i: usize = 0;
    while i < element.rest.len()
        invariant
            i <= element.rest.len(),
            element@.rest.len() == element.rest@.len(),
            names@.len() == i,
            forall|k: int| 0 <= k < i ==> (#[trigger] names@[k])@ == element@.rest[k].0,
        decreases element.rest.len() - i,
    {
        assert(element@.rest[i as int].0 == element.rest@[i as int].0@);
        names.push(element.rest[i].0.clone());
        i += 1;
    }
    proof {
        assert(views(names@) =~= attribute_names(element@));
        lemma_own_names_pass(element@, columns_view(extended_columns@), 0, edges@);
    }
    element_edges(element, extended_columns, &names, edges)
}

} // verus!
