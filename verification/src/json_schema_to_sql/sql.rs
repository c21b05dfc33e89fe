//! How a property of the schema is stored: the choice between a column, the
//! relations table and the extended-properties table, the fusion of such
//! choices, and the text of the statements that create the tables.

use vstd::prelude::*;
use vstd::std_specs::cmp::PartialEqSpecImpl;
use vstd::string::StringExecFns;
use crate::config::{ELEMENT_PK_COL, ELEMENTS_TABLE, EXTENDED_TABLE, RELATIONS_TABLE};
use crate::config::{POLYMORPHIC_PROP, is_polymorphic, is_polymorphic_prop};
use crate::json_schema_to_sql::json_schema::{CompositeType, ConcreteType, Type};
use crate::json_schema_to_sql::json_schema::{CompositeTypeView, ConcreteTypeView, TypeView};
use crate::json_schema_to_sql::json_schema::{null_type, plain_string_type, types_view};
use crate::util::{escape_sql_ident, escape_sql_str_lit, ends_with, join, starts_with};
use crate::util::{ident, joined, str_lit, views};

verus! {

/// How something from the JSON-Schema is represented in the SQL schema.
#[derive(Debug)]
pub enum SqlRepresentation {
    /// A column in the table that contains all elements.
    Column { unique: bool, null: bool, id_foreign_key_constraint: bool, ty: String },
    /// Rows in the table of relations: one element refers to others through
    /// this property.
    RelationsTable,
    /// Rows in the table of extended properties: the property holds several
    /// plain values.
    ExtendedPropertiesTable,
}

/// What a [`SqlRepresentation`] stands for.
pub ghost enum SqlRepresentationView {
    Column { unique: bool, null: bool, id_foreign_key_constraint: bool, ty: Seq<char> },
    RelationsTable,
    ExtendedPropertiesTable,
}

impl View for SqlRepresentation {
    type V = SqlRepresentationView;

    open spec fn view(&self) -> SqlRepresentationView {
        match self {
            SqlRepresentation::Column { unique, null, id_foreign_key_constraint, ty } => {
                SqlRepresentationView::Column {
                    unique: *unique,
                    null: *null,
                    id_foreign_key_constraint: *id_foreign_key_constraint,
                    ty: ty@,
                }
            },
            SqlRepresentation::RelationsTable => SqlRepresentationView::RelationsTable,
            SqlRepresentation::ExtendedPropertiesTable => {
                SqlRepresentationView::ExtendedPropertiesTable
            },
        }
    }
}

impl Clone for SqlRepresentation {
    fn clone(&self) -> (r: Self)
        ensures
            r@ == self@,
    {
        match self {
            SqlRepresentation::Column { unique, null, id_foreign_key_constraint, ty } => {
                SqlRepresentation::Column {
                    unique: *unique,
                    null: *null,
                    id_foreign_key_constraint: *id_foreign_key_constraint,
                    ty: ty.clone(),
                }
            },
            SqlRepresentation::RelationsTable => SqlRepresentation::RelationsTable,
            SqlRepresentation::ExtendedPropertiesTable => {
                SqlRepresentation::ExtendedPropertiesTable
            },
        }
    }
}

impl PartialEq for SqlRepresentation {
    fn eq(&self, other: &Self) -> (r: bool) {
        match (self, other) {
            (
                SqlRepresentation::Column { unique, null, id_foreign_key_constraint, ty },
                SqlRepresentation::Column {
                    unique: other_unique,
                    null: other_null,
                    id_foreign_key_constraint: other_fk,
                    ty: other_ty,
                },
            ) => {
                *unique == *other_unique && *null == *other_null && *id_foreign_key_constraint
                    == *other_fk && *ty == *other_ty
            },
            (SqlRepresentation::RelationsTable, SqlRepresentation::RelationsTable) => true,
            (
                SqlRepresentation::ExtendedPropertiesTable,
                SqlRepresentation::ExtendedPropertiesTable,
            ) => true,
            _ => false,
        }
    }
}

impl PartialEqSpecImpl for SqlRepresentation {
    open spec fn obeys_eq_spec() -> bool {
        true
    }

    open spec fn eq_spec(&self, other: &Self) -> bool {
        self@ == other@
    }
}

impl Eq for SqlRepresentation {

}

/// Why two representations of one property cannot become one.
#[derive(Debug, Clone, Copy, PartialEq, Eq, Structural)]
pub enum FusionConflict {
    /// One column refers to an element and the other does not.
    ForeignKey,
    /// The columns have different types that are not both text.
    Type,
    /// One column is unique and the other is not.
    Uniqueness,
    /// The two representations have nothing in common.
    Incompatible,
}

/// The words for a conflict of two representations.
pub open spec fn fusion_conflict_text(error: FusionConflict) -> Seq<char> {
    match error {
        FusionConflict::ForeignKey => "Fusing two SqlRepresentations with differing id_foreign_key_constraint values"@,
        FusionConflict::Type => "Fusing two SqlRepresentations with differing type"@,
        FusionConflict::Uniqueness => "Uniqueness must not differ"@,
        FusionConflict::Incompatible => "Fusing the two representations is impossible"@,
    }
}

impl FusionConflict {
    /// Says in words what went wrong.
    pub fn describe(&self) -> (r: String)
        ensures
            r@ == fusion_conflict_text(*self),
    {
        match self {
            FusionConflict::ForeignKey => String::from_str("Fusing two SqlRepresentations with differing id_foreign_key_constraint values"),
            FusionConflict::Type => String::from_str("Fusing two SqlRepresentations with differing type"),
            FusionConflict::Uniqueness => String::from_str("Uniqueness must not differ"),
            FusionConflict::Incompatible => String::from_str("Fusing the two representations is impossible"),
        }
    }
}

/// A failed fusion: the property, the two representations and the reason.
#[derive(Debug)]
pub struct FusionError {
    pub property: String,
    pub left: SqlRepresentation,
    pub right: SqlRepresentation,
    pub conflict: FusionConflict,
}

/// What a [`FusionError`] stands for.
pub ghost struct FusionErrorView {
    pub property: Seq<char>,
    pub left: SqlRepresentationView,
    pub right: SqlRepresentationView,
    pub conflict: FusionConflict,
}

impl View for FusionError {
    type V = FusionErrorView;

    open spec fn view(&self) -> FusionErrorView {
        FusionErrorView {
            property: self.property@,
            left: self.left@,
            right: self.right@,
            conflict: self.conflict,
        }
    }
}

/// Whether a column type is text, with or without a check.
pub open spec fn is_text_type(ty: Seq<char>) -> bool {
    "TEXT"@.is_prefix_of(ty)
}

/// The one representation that stands for both `a` and `b` of the property
/// `name`, or the reason why there is none.
///
/// Equal representations fuse to themselves. Two columns fuse when they agree
/// on being a reference (the polymorphic property is exempt), on their type
/// (all text types count as one) and on uniqueness; the result allows null
/// when either does. A column that refers to an element gives way to the
/// relations table.
pub open spec fn fused(a: SqlRepresentationView, b: SqlRepresentationView, name: Seq<char>)
    -> Result<SqlRepresentationView, FusionConflict> {
    if a == b {
        Ok(a)
    } else {
        match (a, b) {
            (
                SqlRepresentationView::Column {
                    unique: a_unique,
                    null: a_null,
                    id_foreign_key_constraint: a_fk,
                    ty: a_ty,
                },
                SqlRepresentationView::Column {
                    unique: b_unique,
                    null: b_null,
                    id_foreign_key_constraint: b_fk,
                    ty: b_ty,
                },
            ) => {
                let both_text = is_text_type(a_ty) && is_text_type(b_ty);
                if a_fk != b_fk && !is_polymorphic(name) {
                    Err(FusionConflict::ForeignKey)
                } else if !both_text && a_ty != b_ty {
                    Err(FusionConflict::Type)
                } else if a_unique != b_unique {
                    Err(FusionConflict::Uniqueness)
                } else {
                    Ok(
                        SqlRepresentationView::Column {
                            unique: a_unique,
                            null: a_null || b_null,
                            id_foreign_key_constraint: a_fk,
                            ty: if both_text {
                                "TEXT"@
                            } else {
                                a_ty
                            },
                        },
                    )
                }
            },
            (
                SqlRepresentationView::Column { id_foreign_key_constraint: true, .. },
                SqlRepresentationView::RelationsTable,
            ) => Ok(SqlRepresentationView::RelationsTable),
            (
                SqlRepresentationView::RelationsTable,
                SqlRepresentationView::Column { id_foreign_key_constraint: true, .. },
            ) => Ok(SqlRepresentationView::RelationsTable),
            _ => Err(FusionConflict::Incompatible),
        }
    }
}

impl SqlRepresentation {
    fn conflict(&self, other: &Self, column_name: &str, conflict: FusionConflict) -> (e:
        FusionError)
        ensures
            e@ == (FusionErrorView {
                property: column_name@,
                left: self@,
                right: other@,
                conflict,
            }),
    {
        FusionError {
            property: String::from_str(column_name),
            left: self.clone(),
            right: other.clone(),
            conflict,
        }
    }

    /// Fuses `other` into `self`, promoting the less general representation
    /// to the more general one.
    ///
    /// Returns `false` when the two were identical and `true` otherwise. When
    /// the two cannot be fused, `self` stays as it was and the error names
    /// the property, both representations and the reason.
    pub fn fuse(&mut self, other: &Self, column_name: &str) -> (r: Result<bool, FusionError>)
        ensures
            match fused(old(self)@, other@, column_name@) {
                Ok(v) => final(self)@ == v && r == Ok::<bool, FusionError>(old(self)@ != other@),
                Err(conflict) => final(self)@ == old(self)@ && r is Err && r->Err_0@ == (
                FusionErrorView {
                    property: column_name@,
                    left: old(self)@,
                    right: other@,
                    conflict,
                }),
            },
    {
        if *self == *other {
            return Ok(false);
        }
        let polymorphic = is_polymorphic_prop(column_name);
        match (&*self, other) {
            (
                SqlRepresentation::Column { unique, null, id_foreign_key_constraint, ty },
                SqlRepresentation::Column {
                    unique: other_unique,
                    null: other_null,
                    id_foreign_key_constraint: other_fk,
                    ty: other_ty,
                },
            ) => {
                if *id_foreign_key_constraint != *other_fk && !polymorphic {
                    return Err(self.conflict(other, column_name, FusionConflict::ForeignKey));
                }
                // varying text types relax to plain text
                let both_text = starts_with(ty.as_str(), "TEXT") && starts_with(
                    other_ty.as_str(),
                    "TEXT",
                );
                if !both_text && *ty != *other_ty {
                    return Err(self.conflict(other, column_name, FusionConflict::Type));
                }
                if *unique != *other_unique {
                    return Err(self.conflict(other, column_name, FusionConflict::Uniqueness));
                }
                let fused_ty = if both_text {
                    String::from_str("TEXT")
                } else {
                    ty.clone()
                };
                // null allowed dominates
                *self = SqlRepresentation::Column {
                    unique: *unique,
                    null: *null || *other_null,
                    id_foreign_key_constraint: *id_foreign_key_constraint,
                    ty: fused_ty,
                };
                Ok(true)
            },
            // a column that refers to another element is dominated by the relations table
            (
                SqlRepresentation::Column { id_foreign_key_constraint: true, .. },
                SqlRepresentation::RelationsTable,
            ) => {
                *self = SqlRepresentation::RelationsTable;
                Ok(true)
            },
            // the relations table prevails over such a column
            (
                SqlRepresentation::RelationsTable,
                SqlRepresentation::Column { id_foreign_key_constraint: true, .. },
            ) => Ok(true),
            _ => Err(self.conflict(other, column_name, FusionConflict::Incompatible)),
        }
    }
}

/// Why a type of the schema has no representation in the store.
#[derive(Debug, Clone, Copy, PartialEq, Eq, Structural)]
pub enum ClassificationError {
    /// No rule says how to store such a type.
    Unrepresentable,
    /// A string has a format for which no column type is defined.
    UnknownFormat,
    /// The type has no scalar counterpart among the column types.
    NoSqlType,
}

/// The words for a type without representation.
pub open spec fn classification_error_text(error: ClassificationError) -> Seq<char> {
    match error {
        ClassificationError::Unrepresentable => "Unsure how to represent the type"@,
        ClassificationError::UnknownFormat => "There is no SQLite type for the format defined"@,
        ClassificationError::NoSqlType => "There is no suitable SQLite counterpart type defined"@,
    }
}

impl ClassificationError {
    /// Says in words what went wrong.
    pub fn describe(&self) -> (r: String)
        ensures
            r@ == classification_error_text(*self),
    {
        match self {
            ClassificationError::Unrepresentable => String::from_str("Unsure how to represent the type"),
            ClassificationError::UnknownFormat => String::from_str("There is no SQLite type for the format defined"),
            ClassificationError::NoSqlType => String::from_str("There is no suitable SQLite counterpart type defined"),
        }
    }
}

/// Whether a reference points at the definition of an identified element.
pub open spec fn is_identified(reference: Seq<char>) -> bool {
    "/Identified"@.is_suffix_of(reference)
}

/// Whether a type is a reference to an identified element.
pub open spec fn is_identified_ref(t: TypeView) -> bool {
    t matches TypeView::Composite(CompositeTypeView::Ref { reference }) && is_identified(reference)
}

/// Checks if a string ends with the definition id of an identified element.
pub fn identified_str(str_to_check: &str) -> (r: bool)
    ensures
        r == is_identified(str_to_check@),
{
    ends_with(str_to_check, "/Identified")
}

/// Checks if a type is a reference to an element.
pub fn identified_ref(t_to_check: &Type) -> (r: bool)
    ensures
        r == is_identified_ref(t_to_check@),
{
    match t_to_check {
        Type::Composite(CompositeType::Ref { reference }) => identified_str(reference.as_str()),
        _ => false,
    }
}

/// The pattern that a column of identifiers is checked against.
pub open spec fn uuid_like_pattern() -> Seq<char> {
    "________-____-____-____-____________"@
}

/// A text type whose values are checked by `condition` on the column.
pub open spec fn checked_text(column_name: Seq<char>, condition: Seq<char>) -> Seq<char> {
    "TEXT CHECK("@ + ident(column_name) + condition + ")"@
}

/// The condition that a value is one of `variants`.
pub open spec fn membership(variants: Seq<Seq<char>>) -> Seq<char> {
    " IN ("@ + joined(variants.map_values(|v: Seq<char>| str_lit(v)), ", "@) + ")"@
}

/// The column type for a scalar type of the schema in the column
/// `column_name`: text, with a check where the schema restricts the values,
/// `INTEGER` for integers and booleans, `REAL` for numbers.
pub open spec fn sql_type(json_ty: TypeView, column_name: Seq<char>) -> Result<
    Seq<char>,
    ClassificationError,
> {
    match json_ty {
        TypeView::Concrete(ConcreteTypeView::String { enumeration, format, constant }) => {
            match (enumeration, format, constant) {
                (Some(variants), None, None) => Ok(
                    checked_text(column_name, membership(variants)),
                ),
                (None, Some(format), None) => {
                    if format == "uuid"@ {
                        Ok(
                            checked_text(
                                column_name,
                                " LIKE ("@ + str_lit(uuid_like_pattern()) + ")"@,
                            ),
                        )
                    } else {
                        Err(ClassificationError::UnknownFormat)
                    }
                },
                (None, None, Some(legal_value)) => Ok(
                    checked_text(column_name, " = ("@ + str_lit(legal_value) + ")"@),
                ),
                _ => Ok("TEXT"@),
            }
        },
        TypeView::Concrete(ConcreteTypeView::Integer) => Ok("INTEGER"@),
        TypeView::Concrete(ConcreteTypeView::Boolean) => Ok("INTEGER"@),
        TypeView::Concrete(ConcreteTypeView::Number) => Ok("REAL"@),
        _ => Err(ClassificationError::NoSqlType),
    }
}

fn checked_text_type(column_name: &str, condition: &str) -> (r: String)
    ensures
        r@ == checked_text(column_name@, condition@),
{
    let mut out = String::from_str("TEXT CHECK(");
    let column_name_escaped = escape_sql_ident(column_name);
    out.append(column_name_escaped.as_str());
    out.append(condition);
    out.append(")");
    out
}

fn membership_condition(variants: &Vec<String>) -> (r: String)
    ensures
        r@ == membership(views(variants@)),
{
    let mut literals: Vec<String> = Vec::new();
    let mut i: usize = 0;
    while i < variants.len()
        invariant
            i <= variants.len(),
            literals@.len() == i,
            forall|k: int| 0 <= k < i ==> literals@[k]@ == str_lit(variants@[k]@),
        decreases variants.len() - i,
    {
        literals.push(escape_sql_str_lit(variants[i].as_str()));
        i += 1;
    }
    let legal_variants = join(&literals, ", ");
    proof {
        let wanted = views(variants@).map_values(
            |v: Seq<char>| str_lit(v),
        );
        assert(views(literals@) =~= wanted);
    }
    let mut out = String::from_str(" IN (");
    out.append(legal_variants.as_str());
    out.append(")");
    out
}

/// Converts a scalar type of the schema to a column type.
pub fn json_schema_type_to_sql_type(json_ty: &Type, column_name: &str) -> (r: Result<
    String,
    ClassificationError,
>)
    ensures
        match sql_type(json_ty@, column_name@) {
            Ok(ty) => r is Ok && r->Ok_0@ == ty,
            Err(e) => r == Err::<String, ClassificationError>(e),
        },
{
    match json_ty {
        Type::Concrete(ConcreteType::String { enumeration, format, constant }) => {
            match (enumeration, format, constant) {
                (Some(variants), None, None) => {
                    let condition = membership_condition(variants);
                    Ok(checked_text_type(column_name, condition.as_str()))
                },
                (None, Some(format), None) => {
                    if *format.as_str() == *"uuid" {
                        let mut condition = String::from_str(" LIKE (");
                        let pattern = escape_sql_str_lit("________-____-____-____-____________");
                        condition.append(pattern.as_str());
                        condition.append(")");
                        Ok(checked_text_type(column_name, condition.as_str()))
                    } else {
                        Err(ClassificationError::UnknownFormat)
                    }
                },
                (None, None, Some(legal_value)) => {
                    let mut condition = String::from_str(" = (");
                    let legal_value_escaped = escape_sql_str_lit(legal_value.as_str());
                    condition.append(legal_value_escaped.as_str());
                    condition.append(")");
                    Ok(checked_text_type(column_name, condition.as_str()))
                },
                _ => Ok(String::from_str("TEXT")),
            }
        },
        Type::Concrete(ConcreteType::Integer) => Ok(String::from_str("INTEGER")),
        Type::Concrete(ConcreteType::Boolean) => Ok(String::from_str("INTEGER")),
        Type::Concrete(ConcreteType::Number) => Ok(String::from_str("REAL")),
        _ => Err(ClassificationError::NoSqlType),
    }
}

/// A column that is neither unique nor a reference.
pub open spec fn plain_column(null: bool, ty: Seq<char>) -> SqlRepresentationView {
    SqlRepresentationView::Column { unique: false, null, id_foreign_key_constraint: false, ty }
}

/// The member of a two-member union that is not `null`, where the union is
/// made of `null` and one other type.
pub open spec fn nullable_member(one_of: Seq<TypeView>) -> Option<TypeView> {
    if one_of.len() == 2 && one_of[0] == null_type() && one_of[1] != null_type() {
        Some(one_of[1])
    } else if one_of.len() == 2 && one_of[1] == null_type() && one_of[0] != null_type() {
        Some(one_of[0])
    } else {
        None
    }
}

/// Whether a type is a string in `uuid` format, and nothing more.
pub open spec fn is_uuid_string(prop: TypeView) -> bool {
    prop matches TypeView::Concrete(ConcreteTypeView::String { enumeration, format, constant })
        && enumeration is None && format == Some("uuid"@) && constant is None
}

/// How the property `prop_name` of type `prop` is stored. The first rule that
/// fits decides:
///
/// - an array of references to identified elements: the relations table;
/// - an array of plain strings: the extended-properties table;
/// - a string in `uuid` format: a unique text column without null, whose
///   values are checked against the pattern of such identifiers;
/// - any other string: a column without null, of the string's column type;
/// - a reference to an identified element: the relations table;
/// - `null` or such a reference: the relations table;
/// - `null` or another type: a column with null, of that type's column type.
pub open spec fn classified(prop_name: Seq<char>, prop: TypeView) -> Result<
    SqlRepresentationView,
    ClassificationError,
> {
    match prop {
        TypeView::Concrete(ConcreteTypeView::Array { items }) => {
            if is_identified_ref(*items) {
                Ok(SqlRepresentationView::RelationsTable)
            } else if *items == plain_string_type() {
                Ok(SqlRepresentationView::ExtendedPropertiesTable)
            } else {
                Err(ClassificationError::Unrepresentable)
            }
        },
        TypeView::Concrete(ConcreteTypeView::String { enumeration, format, constant }) => {
            match sql_type(prop, prop_name) {
                Ok(ty) => Ok(
                    SqlRepresentationView::Column {
                        unique: is_uuid_string(prop),
                        null: false,
                        id_foreign_key_constraint: false,
                        ty,
                    },
                ),
                Err(e) => Err(e),
            }
        },
        TypeView::Composite(CompositeTypeView::Ref { reference }) => {
            if is_identified(reference) {
                Ok(SqlRepresentationView::RelationsTable)
            } else {
                Err(ClassificationError::Unrepresentable)
            }
        },
        TypeView::Composite(CompositeTypeView::OneOf { one_of }) => {
            match nullable_member(one_of) {
                Some(other) => {
                    if is_identified_ref(other) {
                        Ok(SqlRepresentationView::RelationsTable)
                    } else {
                        match sql_type(other, prop_name) {
                            Ok(ty) => Ok(plain_column(true, ty)),
                            Err(e) => Err(e),
                        }
                    }
                },
                None => Err(ClassificationError::Unrepresentable),
            }
        },
        _ => Err(ClassificationError::Unrepresentable),
    }
}

impl SqlRepresentation {
    /// Tries to find the representation of a property of the schema.
    pub fn try_from_json_schema_ty(prop_name: &str, prop: &Type) -> (r: Result<
        SqlRepresentation,
        ClassificationError,
    >)
        ensures
            match classified(prop_name@, prop@) {
                Ok(v) => r is Ok && r->Ok_0@ == v,
                Err(e) => r == Err::<SqlRepresentation, ClassificationError>(e),
            },
    {
        match prop {
            Type::Concrete(ConcreteType::Array { items }) => {
                if identified_ref(items) {
                    Ok(SqlRepresentation::RelationsTable)
                } else if items.is_plain_string() {
                    Ok(SqlRepresentation::ExtendedPropertiesTable)
                } else {
                    Err(ClassificationError::Unrepresentable)
                }
            },
            Type::Concrete(ConcreteType::String { enumeration, format, constant }) => {
                let is_uuid = match (enumeration, format, constant) {
                    (None, Some(format), None) => *format.as_str() == *"uuid",
                    _ => false,
                };
                let ty = json_schema_type_to_sql_type(prop, prop_name)?;
                Ok(
                    SqlRepresentation::Column {
                        unique: is_uuid,
                        null: false,
                        id_foreign_key_constraint: false,
                        ty,
                    },
                )
            },
            Type::Composite(CompositeType::Ref { reference }) => {
                if identified_str(reference.as_str()) {
                    Ok(SqlRepresentation::RelationsTable)
                } else {
                    Err(ClassificationError::Unrepresentable)
                }
            },
            Type::Composite(CompositeType::OneOf { one_of }) => {
                assert(prop@ == TypeView::Composite(
                    CompositeTypeView::OneOf { one_of: types_view(*one_of) },
                ));
                assert(types_view(*one_of).len() == one_of@.len());
                if one_of.len() != 2 {
                    return Err(ClassificationError::Unrepresentable);
                }
                let first_null = one_of[0].is_null();
                let second_null = one_of[1].is_null();
                assert(types_view(*one_of)[0] == one_of@[0]@);
                assert(types_view(*one_of)[1] == one_of@[1]@);
                if first_null == second_null {
                    return Err(ClassificationError::Unrepresentable);
                }
                let other_json_type = if first_null {
                    &one_of[1]
                } else {
                    &one_of[0]
                };
                if identified_ref(other_json_type) {
                    Ok(SqlRepresentation::RelationsTable)
                } else {
                    let ty = json_schema_type_to_sql_type(other_json_type, prop_name)?;
                    Ok(
                        SqlRepresentation::Column {
                            unique: false,
                            null: true,
                            id_foreign_key_constraint: false,
                            ty,
                        },
                    )
                }
            },
            _ => Err(ClassificationError::Unrepresentable),
        }
    }
}

/// A property name with the way it is stored.
pub type ColumnView = (Seq<char>, SqlRepresentationView);

/// What a list of named representations stands for.
pub open spec fn columns_view(columns: Seq<(String, SqlRepresentation)>) -> Seq<ColumnView> {
    Seq::new(columns.len(), |i: int| (columns[i].0@, columns[i].1@))
}

/// The statement that creates the strict table `table_name` with the
/// definitions `inner`.
pub open spec fn create_table_text(table_name: Seq<char>, inner: Seq<char>) -> Seq<char> {
    "CREATE TABLE "@ + ident(table_name) + " (\n"@ + inner + "\n) STRICT;\n"@
}

/// Reference to the primary key of the elements table.
pub open spec fn elements_key() -> Seq<char> {
    ident(ELEMENTS_TABLE@) + "("@ + ident(ELEMENT_PK_COL@) + ")"@
}

/// The words of a column definition: the quoted name and the type, then
/// `PRIMARY KEY` for the key column, `UNIQUE` for a unique column, and the
/// reference to the elements table for a column that refers to an element.
pub open spec fn column_words(
    name: Seq<char>,
    unique: bool,
    id_foreign_key_constraint: bool,
    ty: Seq<char>,
) -> Seq<Seq<char>> {
    seq![ident(name), ty] + (if name == ELEMENT_PK_COL@ {
        seq!["PRIMARY KEY"@]
    } else {
        Seq::empty()
    }) + (if unique {
        seq!["UNIQUE"@]
    } else {
        Seq::empty()
    }) + (if id_foreign_key_constraint {
        seq!["REFERENCES"@, ident(ELEMENTS_TABLE@), "("@ + ident(ELEMENT_PK_COL@) + ")"@]
    } else {
        Seq::empty()
    })
}

/// The definition of the column of the elements table for an entry that is
/// stored as a column.
pub open spec fn element_column(entry: ColumnView) -> Option<Seq<char>> {
    match entry.1 {
        SqlRepresentationView::Column { unique, null, id_foreign_key_constraint, ty } => Some(
            joined(column_words(entry.0, unique, id_foreign_key_constraint, ty), " "@),
        ),
        _ => None,
    }
}

/// The name of an entry that is stored in the relations table.
pub open spec fn relation_name(entry: ColumnView) -> Option<Seq<char>> {
    match entry.1 {
        SqlRepresentationView::RelationsTable => Some(entry.0),
        _ => None,
    }
}

/// The definition of the column of the extended-properties table for an
/// entry that is stored there.
pub open spec fn extended_column(entry: ColumnView) -> Option<Seq<char>> {
    match entry.1 {
        SqlRepresentationView::ExtendedPropertiesTable => Some(ident(entry.0) + " TEXT"@),
        _ => None,
    }
}

/// Each definition on a line of its own, indented by a tab and separated
/// from the next by a comma.
pub open spec fn definition_lines(defs: Seq<Seq<char>>) -> Seq<char> {
    joined(defs.map_values(|d: Seq<char>| "\t"@ + d), ",\n"@)
}

/// The elements table: one column for each entry that is stored as a column.
pub open spec fn elements_table(columns: Seq<ColumnView>) -> Seq<char> {
    create_table_text(
        ELEMENTS_TABLE@,
        definition_lines(columns.filter_map(|e: ColumnView| element_column(e))),
    )
}

/// The names that a relation may have: the entries stored in the relations
/// table, and the polymorphic property.
pub open spec fn allowed_relation_names(columns: Seq<ColumnView>) -> Seq<Seq<char>> {
    columns.filter_map(|e: ColumnView| relation_name(e)) + seq![POLYMORPHIC_PROP@]
}

/// The clause that ties a column of identifiers to the elements table, with
/// the check put off until the end of the transaction.
pub open spec fn deferred_reference(column: Seq<char>) -> Seq<char> {
    "FOREIGN KEY("@ + column + ") REFERENCES "@ + elements_key()
        + " DEFERRABLE INITIALLY DEFERRED"@
}

/// The relations table: name, origin and target make the key, the name is
/// one of the allowed names, and both ends refer to elements.
pub open spec fn relations_table(columns: Seq<ColumnView>) -> Seq<char> {
    create_table_text(
        RELATIONS_TABLE@,
        "    \"name\" TEXT NOT NULL CHECK(\"name\" IN ("@ + joined(
            allowed_relation_names(columns).map_values(|n: Seq<char>| str_lit(n)),
            ",\n\t\t"@,
        ) + ")),\n\t\"origin_id\" TEXT NOT NULL,\n\t\"target_id\" TEXT NOT NULL,\n\t"@
            + deferred_reference("\"origin_id\""@) + ",\n\t"@ + deferred_reference(
            "\"target_id\""@,
        ) + ",\n\tPRIMARY KEY(\"name\",\"origin_id\",\"target_id\")"@,
    )
}

/// The definitions of the extended-properties table: the owning element, one
/// text column for each entry stored there, and the reference to the
/// elements table.
pub open spec fn extended_definitions(columns: Seq<ColumnView>) -> Seq<Seq<char>> {
    seq![ident(ELEMENT_PK_COL@) + " TEXT NOT NULL"@] + columns.filter_map(
        |e: ColumnView| extended_column(e),
    ) + seq![deferred_reference(ident(ELEMENT_PK_COL@))]
}

/// The extended-properties table.
pub open spec fn extended_table(columns: Seq<ColumnView>) -> Seq<char> {
    create_table_text(EXTENDED_TABLE@, definition_lines(extended_definitions(columns)))
}

/// The statements that renew the index on one column of a table.
pub open spec fn index_text(table: Seq<char>, column: Seq<char>) -> Seq<char> {
    "DROP INDEX IF EXISTS "@ + ident(table + "."@ + column) + ";\nCREATE INDEX "@ + ident(
        table + "."@ + column,
    ) + " ON "@ + ident(table) + "("@ + ident(column) + ");\n\n"@
}

/// The index statements for the given columns of a table, in order.
pub open spec fn indexes_text(table: Seq<char>, columns: Seq<Seq<char>>) -> Seq<char>
    decreases columns.len(),
{
    if columns.len() == 0 {
        Seq::empty()
    } else {
        indexes_text(table, columns.drop_last()) + index_text(table, columns.last())
    }
}

/// The columns of the elements table that are looked up most.
pub open spec fn indexed_element_columns() -> Seq<Seq<char>> {
    seq![
        "@type"@,
        "declaredName"@,
        "declaredShortName"@,
        "isLibraryElement"@,
        "name"@,
        "qualifiedName"@,
        "value"@,
    ]
}

/// The indexed columns of the relations table: both ends of a relation.
pub open spec fn indexed_relation_columns() -> Seq<Seq<char>> {
    seq!["origin_id"@, "target_id"@]
}

/// All index statements of the schema.
pub open spec fn all_indexes_text() -> Seq<char> {
    indexes_text(ELEMENTS_TABLE@, indexed_element_columns()) + indexes_text(
        RELATIONS_TABLE@,
        indexed_relation_columns(),
    )
}

/// The whole script: the three tables and the indexes, in this order.
pub open spec fn schema_text(columns: Seq<ColumnView>) -> Seq<char> {
    elements_table(columns) + "\n\n"@ + relations_table(columns) + "\n\n"@ + extended_table(
        columns,
    ) + "\n\n"@ + all_indexes_text()
}

fn create_table(table_name: &str, inner: &str) -> (r: String)
    ensures
        r@ == create_table_text(table_name@, inner@),
{
    let mut out = String::from_str("CREATE TABLE ");
    let table_name_escaped = escape_sql_ident(table_name);
    out.append(table_name_escaped.as_str());
    out.append(" (\n");
    out.append(inner);
    out.append("\n) STRICT;\n");
    out
}

fn elements_key_text() -> (r: String)
    ensures
        r@ == elements_key(),
{
    let mut out = escape_sql_ident(ELEMENTS_TABLE);
    out.append("(");
    let pk_column_escaped = escape_sql_ident(ELEMENT_PK_COL);
    out.append(pk_column_escaped.as_str());
    out.append(")");
    out
}

fn deferred_reference_text(column: &str) -> (r: String)
    ensures
        r@ == deferred_reference(column@),
{
    let mut out = String::from_str("FOREIGN KEY(");
    out.append(column);
    out.append(") REFERENCES ");
    let key = elements_key_text();
    out.append(key.as_str());
    out.append(" DEFERRABLE INITIALLY DEFERRED");
    out
}

fn column_definition(name: &str, unique: bool, id_foreign_key_constraint: bool, ty: &str) -> (r:
    String)
    ensures
        r@ == joined(column_words(name@, unique, id_foreign_key_constraint, ty@), " "@),
{
    let mut column_def: Vec<String> = Vec::new();
    // column-name
    column_def.push(escape_sql_ident(name));
    // type-name
    column_def.push(String::from_str(ty));
    // column-constraint
    if *name == *ELEMENT_PK_COL {
        column_def.push(String::from_str("PRIMARY KEY"));
    }
    if unique {
        column_def.push(String::from_str("UNIQUE"));
    }
    // foreign-key-clause
    if id_foreign_key_constraint {
        column_def.push(String::from_str("REFERENCES"));
        column_def.push(escape_sql_ident(ELEMENTS_TABLE));
        let mut key = String::from_str("(");
        let pk_column_escaped = escape_sql_ident(ELEMENT_PK_COL);
        key.append(pk_column_escaped.as_str());
        key.append(")");
        column_def.push(key);
    }
    proof {
        assert(views(column_def@) =~= column_words(name@, unique, id_foreign_key_constraint, ty@));
    }
    join(&column_def, " ")
}

fn definition_lines_text(defs: &Vec<String>) -> (r: String)
    ensures
        r@ == definition_lines(views(defs@)),
{
    let mut lines: Vec<String> = Vec::new();
    let mut i: usize = 0;
    while i < defs.len()
        invariant
            i <= defs.len(),
            lines@.len() == i,
            forall|k: int| 0 <= k < i ==> lines@[k]@ == "\t"@ + defs@[k]@,
        decreases defs.len() - i,
    {
        let mut line = String::from_str("\t");
        line.append(defs[i].as_str());
        lines.push(line);
        i += 1;
    }
    proof {
        assert(views(lines@) =~= views(defs@).map_values(|d: Seq<char>| "\t"@ + d));
    }
    join(&lines, ",\n")
}

fn elements_table_text(columns: &Vec<(String, SqlRepresentation)>) -> (r: String)
    ensures
        r@ == elements_table(columns_view(columns@)),
{
    let ghost all = columns_view(columns@);
    let mut column_defs: Vec<String> = Vec::new();
    let mut i: usize = 0;
    while i < columns.len()
        invariant
            i <= columns.len(),
            all == columns_view(columns@),
            views(column_defs@) == all.take(i as int).filter_map(
                |e: ColumnView| element_column(e),
            ),
        decreases columns.len() - i,
    {
        proof {
            all.lemma_filter_map_take_succ(|e: ColumnView| element_column(e), i as int);
        }
        match &columns[i].1 {
            SqlRepresentation::Column { unique, null, id_foreign_key_constraint, ty } => {
                let def = column_definition(
                    columns[i].0.as_str(),
                    *unique,
                    *id_foreign_key_constraint,
                    ty.as_str(),
                );
                let ghost before = views(column_defs@);
                column_defs.push(def);
                assert(views(column_defs@) =~= before + seq![def@]);
            },
            // representations in other tables do not appear here
            SqlRepresentation::RelationsTable | SqlRepresentation::ExtendedPropertiesTable => {},
        }
        i += 1;
    }
    proof {
        assert(all.take(columns.len() as int) =~= all);
    }
    let inner = definition_lines_text(&column_defs);
    create_table(ELEMENTS_TABLE, inner.as_str())
}

fn relations_table_text(columns: &Vec<(String, SqlRepresentation)>) -> (r: String)
    ensures
        r@ == relations_table(columns_view(columns@)),
{
    let ghost all = columns_view(columns@);
    let mut names: Vec<String> = Vec::new();
    let mut i: usize = 0;
    while i < columns.len()
        invariant
            i <= columns.len(),
            all == columns_view(columns@),
            views(names@) == all.take(i as int).filter_map(
                |e: ColumnView| relation_name(e),
            ).map_values(|n: Seq<char>| str_lit(n)),
        decreases columns.len() - i,
    {
        proof {
            all.lemma_filter_map_take_succ(|e: ColumnView| relation_name(e), i as int);
        }
        match &columns[i].1 {
            SqlRepresentation::RelationsTable => {
                let ghost before = views(names@);
                let ghost found = all.take(i as int).filter_map(
                    |e: ColumnView| relation_name(e),
                );
                names.push(escape_sql_str_lit(columns[i].0.as_str()));
                assert(views(names@) =~= before + seq![str_lit(columns@[i as int].0@)]);
                assert((found + seq![columns@[i as int].0@]).map_values(
                    |n: Seq<char>| str_lit(n),
                ) =~= before + seq![str_lit(columns@[i as int].0@)]);
            },
            _ => {},
        }
        i += 1;
    }
    proof {
        assert(all.take(columns.len() as int) =~= all);
    }
    let ghost found = all.filter_map(|e: ColumnView| relation_name(e));
    let ghost before = views(names@);
    names.push(escape_sql_str_lit(POLYMORPHIC_PROP));
    proof {
        assert(views(names@) =~= before + seq![str_lit(POLYMORPHIC_PROP@)]);
        assert(views(names@) =~= allowed_relation_names(all).map_values(
            |n: Seq<char>| str_lit(n),
        ));
    }
    let allowed = join(&names, ",\n\t\t");
    let mut inner = String::from_str("    \"name\" TEXT NOT NULL CHECK(\"name\" IN (");
    inner.append(allowed.as_str());
    inner.append(")),\n\t\"origin_id\" TEXT NOT NULL,\n\t\"target_id\" TEXT NOT NULL,\n\t");
    let origin = deferred_reference_text("\"origin_id\"");
    inner.append(origin.as_str());
    inner.append(",\n\t");
    let target = deferred_reference_text("\"target_id\"");
    inner.append(target.as_str());
    inner.append(",\n\tPRIMARY KEY(\"name\",\"origin_id\",\"target_id\")");
    create_table(RELATIONS_TABLE, inner.as_str())
}

fn extended_table_text(columns: &Vec<(String, SqlRepresentation)>) -> (r: String)
    ensures
        r@ == extended_table(columns_view(columns@)),
{
    let ghost all = columns_view(columns@);
    let pk_column_escaped = escape_sql_ident(ELEMENT_PK_COL);
    let mut column_defs: Vec<String> = Vec::new();
    let mut owner = pk_column_escaped.clone();
    owner.append(" TEXT NOT NULL");
    column_defs.push(owner);
    let mut i: usize = 0;
    while i < columns.len()
        invariant
            i <= columns.len(),
            all == columns_view(columns@),
            views(column_defs@) == seq![ident(ELEMENT_PK_COL@) + " TEXT NOT NULL"@] + all.take(
                i as int,
            ).filter_map(|e: ColumnView| extended_column(e)),
        decreases columns.len() - i,
    {
        proof {
            all.lemma_filter_map_take_succ(|e: ColumnView| extended_column(e), i as int);
        }
        match &columns[i].1 {
            SqlRepresentation::ExtendedPropertiesTable => {
                let mut def = escape_sql_ident(columns[i].0.as_str());
                def.append(" TEXT");
                let ghost before = views(column_defs@);
                column_defs.push(def);
                assert(views(column_defs@) =~= before + seq![def@]);
            },
            // other representations do not appear here
            _ => {},
        }
        i += 1;
    }
    proof {
        assert(all.take(columns.len() as int) =~= all);
    }
    let reference = deferred_reference_text(pk_column_escaped.as_str());
    let ghost before = views(column_defs@);
    column_defs.push(reference);
    proof {
        assert(views(column_defs@) =~= before + seq![reference@]);
    }
    let inner = definition_lines_text(&column_defs);
    create_table(EXTENDED_TABLE, inner.as_str())
}

fn index_statements(table: &str, column: &str) -> (r: String)
    ensures
        r@ == index_text(table@, column@),
{
    let mut index_name = String::from_str(table);
    index_name.append(".");
    index_name.append(column);
    let index_name_escaped = escape_sql_ident(index_name.as_str());
    let table_name_escaped = escape_sql_ident(table);
    let column_name_escaped = escape_sql_ident(column);
    let mut out = String::from_str("DROP INDEX IF EXISTS ");
    out.append(index_name_escaped.as_str());
    out.append(";\nCREATE INDEX ");
    out.append(index_name_escaped.as_str());
    out.append(" ON ");
    out.append(table_name_escaped.as_str());
    out.append("(");
    out.append(column_name_escaped.as_str());
    out.append(");\n\n");
    out
}

fn append_indexes(result: &mut String, table: &str, columns: &Vec<String>)
    ensures
        final(result)@ == old(result)@ + indexes_text(table@, views(columns@)),
{
    let ghost all = views(columns@);
    let mut i: usize = 0;
    while i < columns.len()
        invariant
            i <= columns.len(),
            all == views(columns@),
            result@ == old(result)@ + indexes_text(table@, all.take(i as int)),
        decreases columns.len() - i,
    {
        proof {
            assert(all.take(i + 1).drop_last() =~= all.take(i as int));
        }
        let statements = index_statements(table, columns[i].as_str());
        result.append(statements.as_str());
        i += 1;
    }
    proof {
        assert(all.take(columns.len() as int) =~= all);
    }
}

/// The statements that create the indexes on the columns that are looked up
/// most, and on both ends of the relations.
pub fn create_index() -> (r: String)
    ensures
        r@ == all_indexes_text(),
{
    let mut element_columns: Vec<String> = Vec::new();
    // "@id" needs none: it is the primary key
    element_columns.push(String::from_str("@type"));
    element_columns.push(String::from_str("declaredName"));
    element_columns.push(String::from_str("declaredShortName"));
    element_columns.push(String::from_str("isLibraryElement"));
    element_columns.push(String::from_str("name"));
    element_columns.push(String::from_str("qualifiedName"));
    element_columns.push(String::from_str("value"));
    let mut relation_columns: Vec<String> = Vec::new();
    // "name" needs none: the primary key starts with it
    relation_columns.push(String::from_str("origin_id"));
    relation_columns.push(String::from_str("target_id"));
    proof {
        assert(views(element_columns@) =~= indexed_element_columns());
        assert(views(relation_columns@) =~= indexed_relation_columns());
    }
    let mut result = String::new();
    append_indexes(&mut result, ELEMENTS_TABLE, &element_columns);
    append_indexes(&mut result, RELATIONS_TABLE, &relation_columns);
    result
}

/// Writes the script that creates the three tables and their indexes for the
/// given representations, in the order in which they are given.
pub fn to_create_table(columns: &Vec<(String, SqlRepresentation)>) -> (r: String)
    ensures
        r@ == schema_text(columns_view(columns@)),
{
    let mut stmt = elements_table_text(columns);
    stmt.append("\n\n");
    let relations = relations_table_text(columns);
    stmt.append(relations.as_str());
    stmt.append("\n\n");
    let extended = extended_table_text(columns);
    stmt.append(extended.as_str());
    stmt.append("\n\n");
    // and finally, the indexes for quicker lookups
    let indexes = create_index();
    stmt.append(indexes.as_str());
    stmt
}

} // verus!
