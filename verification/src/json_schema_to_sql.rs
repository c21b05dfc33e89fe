//! Finds a relational schema that can hold what a JSON-Schema describes.
//!
//! Every element lives in one table, every relation between two elements in
//! a second one, and every property that holds several plain values in a
//! third. Identifiers are stored as text.

use vstd::prelude::*;
use vstd::string::StringExecFns;
use crate::config::{ELEMENT_PK_COL, POLYMORPHIC_PROP, is_polymorphic, is_polymorphic_prop};
use crate::json_schema_to_sql::json_schema::{CompositeType, ConcreteType, Root, Type};
use crate::json_schema_to_sql::json_schema::{CompositeTypeView, ConcreteTypeView, TypeView};
use crate::json_schema_to_sql::json_schema::{DefinitionView, RootView};
use crate::json_schema_to_sql::json_schema::{clone_type, properties_view, types_view};
use crate::json_schema_to_sql::sql::{ColumnView, FusionError, FusionErrorView};
use crate::json_schema_to_sql::sql::{SqlRepresentation, SqlRepresentationView};
use crate::json_schema_to_sql::sql::{classified, columns_view, fused, schema_text};
use crate::json_schema_to_sql::sql::to_create_table;
use crate::util::{lex_lt, str_lt};

pub mod json_schema;
pub mod laws;
pub mod sql;

verus! {

/// What is wrong with the representation of the primary key property.
#[derive(Debug, Clone, Copy, PartialEq, Eq, Structural)]
pub enum PrimaryKeyFault {
    /// The column is not unique.
    NotUnique,
    /// The column refers to another element.
    ForeignKey,
    /// The column allows null.
    Nullable,
    /// The property is not stored as a column.
    NotColumn,
    /// No definition declares the property.
    Missing,
}

/// The words for a primary key that is none.
pub open spec fn primary_key_fault_text(error: PrimaryKeyFault) -> Seq<char> {
    match error {
        PrimaryKeyFault::NotUnique => "the \"@id\" field is expected to be unique"@,
        PrimaryKeyFault::ForeignKey => "foreign_key_constraint is expected to be false for the \"@id\" property"@,
        PrimaryKeyFault::Nullable => "the \"@id\" must not allow null values"@,
        PrimaryKeyFault::NotColumn => "the \"@id\" property must be resolved to a column!"@,
        PrimaryKeyFault::Missing => "no definition declares the \"@id\" property"@,
    }
}

impl PrimaryKeyFault {
    /// Says in words what went wrong.
    pub fn describe(&self) -> (r: String)
        ensures
            r@ == primary_key_fault_text(*self),
    {
        match self {
            PrimaryKeyFault::NotUnique => String::from_str("the \"@id\" field is expected to be unique"),
            PrimaryKeyFault::ForeignKey => String::from_str("foreign_key_constraint is expected to be false for the \"@id\" property"),
            PrimaryKeyFault::Nullable => String::from_str("the \"@id\" must not allow null values"),
            PrimaryKeyFault::NotColumn => String::from_str("the \"@id\" property must be resolved to a column!"),
            PrimaryKeyFault::Missing => String::from_str("no definition declares the \"@id\" property"),
        }
    }
}

/// Why no schema could be derived.
#[derive(Debug)]
pub enum SchemaError {
    /// Two representations of one property cannot be fused.
    Fusion(FusionError),
    /// The primary key property is declared in a way that cannot serve as key.
    PrimaryKey(PrimaryKeyFault),
    /// A definition is neither an object, a string nor a union.
    UnexpectedDefinition { definition: String },
    /// A union holds a member that is neither an object nor a reference.
    UnexpectedMember { definition: String },
    /// A polymorphic property already had a representation when its fixed
    /// one was to be set.
    PolymorphicCollision { property: String },
}

/// What a [`SchemaError`] stands for.
pub ghost enum SchemaErrorView {
    Fusion(FusionErrorView),
    PrimaryKey(PrimaryKeyFault),
    UnexpectedDefinition { definition: Seq<char> },
    UnexpectedMember { definition: Seq<char> },
    PolymorphicCollision { property: Seq<char> },
}

impl View for SchemaError {
    type V = SchemaErrorView;

    open spec fn view(&self) -> SchemaErrorView {
        match self {
            SchemaError::Fusion(e) => SchemaErrorView::Fusion(e@),
            SchemaError::PrimaryKey(fault) => SchemaErrorView::PrimaryKey(*fault),
            SchemaError::UnexpectedDefinition { definition } => {
                SchemaErrorView::UnexpectedDefinition { definition: definition@ }
            },
            SchemaError::UnexpectedMember { definition } => SchemaErrorView::UnexpectedMember {
                definition: definition@,
            },
            SchemaError::PolymorphicCollision { property } => {
                SchemaErrorView::PolymorphicCollision { property: property@ }
            },
        }
    }
}

/// Whether `a` comes before `b`: columns first, then the relations table,
/// then the extended-properties table; columns by uniqueness, null, reference
/// and type, where `false` comes before `true`.
pub open spec fn repr_lt(a: SqlRepresentationView, b: SqlRepresentationView) -> bool {
    match (a, b) {
        (
            SqlRepresentationView::Column {
                unique: a_unique,
                null: a_null,
                id_foreign_key_constraint: a_fk,
                ty: a_ty,
            },
            SqlRepresentationView::Column {
                unique: b_unique,
                null: b_null,
                id_foreign_key_constraint: b_fk,
                ty: b_ty,
            },
        ) => {
            if a_unique != b_unique {
                !a_unique
            } else if a_null != b_null {
                !a_null
            } else if a_fk != b_fk {
                !a_fk
            } else {
                lex_lt(a_ty, b_ty)
            }
        },
        (SqlRepresentationView::Column { .. }, _) => true,
        (
            SqlRepresentationView::RelationsTable,
            SqlRepresentationView::ExtendedPropertiesTable,
        ) => true,
        _ => false,
    }
}

fn repr_less(a: &SqlRepresentation, b: &SqlRepresentation) -> (r: bool)
    ensures
        r == repr_lt(a@, b@),
{
    match (a, b) {
        (
            SqlRepresentation::Column { unique, null, id_foreign_key_constraint, ty },
            SqlRepresentation::Column {
                unique: b_unique,
                null: b_null,
                id_foreign_key_constraint: b_fk,
                ty: b_ty,
            },
        ) => {
            if *unique != *b_unique {
                !*unique
            } else if *null != *b_null {
                !*null
            } else if *id_foreign_key_constraint != *b_fk {
                !*id_foreign_key_constraint
            } else {
                str_lt(ty.as_str(), b_ty.as_str())
            }
        },
        (SqlRepresentation::Column { .. }, _) => true,
        (SqlRepresentation::RelationsTable, SqlRepresentation::ExtendedPropertiesTable) => true,
        _ => false,
    }
}

/// The candidate representations of one property, in ascending order.
pub type CandidateView = (Seq<char>, Seq<SqlRepresentationView>);

/// What a list of representations stands for.
pub open spec fn reprs_view(reprs: Seq<SqlRepresentation>) -> Seq<SqlRepresentationView> {
    Seq::new(reprs.len(), |i: int| reprs[i]@)
}

/// What a list of properties with their candidates stands for.
pub open spec fn candidates_view(columns: Seq<(String, Vec<SqlRepresentation>)>) -> Seq<
    CandidateView,
> {
    Seq::new(columns.len(), |i: int| (columns[i].0@, reprs_view(columns[i].1@)))
}

/// What a list of types stands for.
pub open spec fn problems_view(problems: Seq<Type>) -> Seq<TypeView> {
    Seq::new(problems.len(), |i: int| problems[i]@)
}

/// The first position from `from` on whose representation does not come
/// before `x`.
pub open spec fn repr_slot(s: Seq<SqlRepresentationView>, x: SqlRepresentationView, from: int)
    -> int
    decreases s.len() - from,
{
    if from < 0 || from >= s.len() || !repr_lt(s[from], x) {
        from
    } else {
        repr_slot(s, x, from + 1)
    }
}

/// The ordered set `s` with `x` in it.
pub open spec fn repr_added(s: Seq<SqlRepresentationView>, x: SqlRepresentationView) -> Seq<
    SqlRepresentationView,
> {
    let i = repr_slot(s, x, 0);
    if i < s.len() && s[i] == x {
        s
    } else {
        s.insert(i, x)
    }
}

/// The first position from `from` on whose property does not come before
/// `name`.
pub open spec fn name_slot(names: Seq<Seq<char>>, name: Seq<char>, from: int) -> int
    decreases names.len() - from,
{
    if from < 0 || from >= names.len() || !lex_lt(names[from], name) {
        from
    } else {
        name_slot(names, name, from + 1)
    }
}

/// The property names of a list of entries.
pub open spec fn names_of<V>(entries: Seq<(Seq<char>, V)>) -> Seq<Seq<char>> {
    entries.map_values(|e: (Seq<char>, V)| e.0)
}

/// The candidates with `repr` among those of the property `name`. A property
/// that is not there yet is put where the order of names wants it.
pub open spec fn candidate_added(
    columns: Seq<CandidateView>,
    name: Seq<char>,
    repr: SqlRepresentationView,
) -> Seq<CandidateView> {
    let i = name_slot(names_of(columns), name, 0);
    if i < columns.len() && columns[i].0 == name {
        columns.update(i, (name, repr_added(columns[i].1, repr)))
    } else {
        columns.insert(i, (name, seq![repr]))
    }
}

fn add_repr(set: &mut Vec<SqlRepresentation>, repr: SqlRepresentation)
    ensures
        reprs_view(final(set)@) == repr_added(reprs_view(old(set)@), repr@),
{
    let ghost before = reprs_view(set@);
    let mut i: usize = 0;
    while i < set.len() && repr_less(&set[i], &repr)
        invariant
            i <= set.len(),
            set@ == old(set)@,
            before == reprs_view(set@),
            repr_slot(before, repr@, 0) == repr_slot(before, repr@, i as int),
        decreases set.len() - i,
    {
        i += 1;
    }
    if i < set.len() && set[i] == repr {
        return ;
    }
    set.insert(i, repr);
    assert(reprs_view(set@) =~= before.insert(i as int, repr@));
}

fn add_candidate(
    columns: &mut Vec<(String, Vec<SqlRepresentation>)>,
    name: &str,
    repr: SqlRepresentation,
)
    ensures
        candidates_view(final(columns)@) == candidate_added(
            candidates_view(old(columns)@),
            name@,
            repr@,
        ),
{
    let ghost before = candidates_view(columns@);
    let ghost names = names_of(before);
    let mut i: usize = 0;
    while i < columns.len() && str_lt(columns[i].0.as_str(), name)
        invariant
            i <= columns.len(),
            columns@ == old(columns)@,
            before == candidates_view(columns@),
            names == names_of(before),
            name_slot(names, name@, 0) == name_slot(names, name@, i as int),
        decreases columns.len() - i,
    {
        i += 1;
    }
    if i < columns.len() && *columns[i].0.as_str() == *name {
        let (key, mut set) = columns.remove(i);
        add_repr(&mut set, repr);
        columns.insert(i, (key, set));
        assert(candidates_view(columns@) =~= before.update(
            i as int,
            (name@, repr_added(before[i as int].1, repr@)),
        ));
    } else {
        let mut set: Vec<SqlRepresentation> = Vec::new();
        set.push(repr);
        columns.insert(i, (String::from_str(name), set));
        assert(reprs_view(set@) =~= seq![repr@]);
        assert(candidates_view(columns@) =~= before.insert(i as int, (name@, seq![repr@])));
    }
}

/// How far the collection of candidates has come: the candidates of each
/// property, the types for which no representation was found, and the
/// failure that stopped it, if any.
pub ghost struct Handled {
    pub columns: Seq<CandidateView>,
    pub problems: Seq<TypeView>,
    pub failure: Option<SchemaErrorView>,
}

/// What keeps a representation from being that of the primary key: the key
/// is a unique column that neither refers to an element nor allows null.
pub open spec fn primary_key_fault(repr: SqlRepresentationView) -> Option<PrimaryKeyFault> {
    match repr {
        SqlRepresentationView::Column { unique, null, id_foreign_key_constraint, ty } => {
            if !unique {
                Some(PrimaryKeyFault::NotUnique)
            } else if id_foreign_key_constraint {
                Some(PrimaryKeyFault::ForeignKey)
            } else if null {
                Some(PrimaryKeyFault::Nullable)
            } else {
                None
            }
        },
        _ => Some(PrimaryKeyFault::NotColumn),
    }
}

/// The problems with `ty` among them: a type is noted once.
pub open spec fn problem_noted(problems: Seq<TypeView>, ty: TypeView) -> Seq<TypeView> {
    if problems.contains(ty) {
        problems
    } else {
        problems.push(ty)
    }
}

/// One property taken in: a type without representation is noted as a
/// problem, a faulty primary key stops the collection, and any other
/// representation joins the candidates of the property.
pub open spec fn property_handled(name: Seq<char>, ty: TypeView, st: Handled) -> Handled {
    match classified(name, ty) {
        Err(_) => Handled { problems: problem_noted(st.problems, ty), ..st },
        Ok(repr) => {
            if name == ELEMENT_PK_COL@ && primary_key_fault(repr) is Some {
                Handled {
                    failure: Some(SchemaErrorView::PrimaryKey(primary_key_fault(repr)->0)),
                    ..st
                }
            } else {
                Handled { columns: candidate_added(st.columns, name, repr), ..st }
            }
        },
    }
}

/// The properties from position `from` on taken in one after another, up to
/// the first failure.
pub open spec fn properties_handled(
    properties: Seq<(Seq<char>, TypeView)>,
    from: int,
    st: Handled,
) -> Handled
    decreases properties.len() - from,
{
    if from < 0 || from >= properties.len() || st.failure is Some {
        st
    } else {
        properties_handled(
            properties,
            from + 1,
            property_handled(properties[from].0, properties[from].1, st),
        )
    }
}

/// One member of a union taken in: an object gives its properties, a
/// reference gives nothing, anything else is a failure.
pub open spec fn member_handled(definition: Seq<char>, member: TypeView, st: Handled) -> Handled {
    match member {
        TypeView::Concrete(ConcreteTypeView::Object { properties, .. }) => properties_handled(
            properties,
            0,
            st,
        ),
        TypeView::Composite(CompositeTypeView::Ref { .. }) => st,
        _ => Handled {
            failure: Some(SchemaErrorView::UnexpectedMember { definition }),
            ..st
        },
    }
}

/// The members of a union from position `from` on taken in one after
/// another, up to the first failure.
pub open spec fn members_handled(
    definition: Seq<char>,
    members: Seq<TypeView>,
    from: int,
    st: Handled,
) -> Handled
    decreases members.len() - from,
{
    if from < 0 || from >= members.len() || st.failure is Some {
        st
    } else {
        members_handled(
            definition,
            members,
            from + 1,
            member_handled(definition, members[from], st),
        )
    }
}

/// One definition taken in: an object gives its properties, a union those of
/// its members, a string is noted as a problem, anything else is a failure.
pub open spec fn definition_handled(definition: Seq<char>, ty: TypeView, st: Handled) -> Handled {
    match ty {
        TypeView::Concrete(ConcreteTypeView::Object { properties, .. }) => properties_handled(
            properties,
            0,
            st,
        ),
        TypeView::Concrete(ConcreteTypeView::String { .. }) => Handled {
            problems: problem_noted(st.problems, ty),
            ..st
        },
        TypeView::Composite(CompositeTypeView::AnyOf { any_of }) => members_handled(
            definition,
            any_of,
            0,
            st,
        ),
        TypeView::Composite(CompositeTypeView::OneOf { one_of }) => members_handled(
            definition,
            one_of,
            0,
            st,
        ),
        _ => Handled {
            failure: Some(SchemaErrorView::UnexpectedDefinition { definition }),
            ..st
        },
    }
}

/// The definitions from position `from` on taken in one after another, up to
/// the first failure.
pub open spec fn definitions_handled(
    defs: Seq<(Seq<char>, DefinitionView)>,
    from: int,
    st: Handled,
) -> Handled
    decreases defs.len() - from,
{
    if from < 0 || from >= defs.len() || st.failure is Some {
        st
    } else {
        definitions_handled(
            defs,
            from + 1,
            definition_handled(defs[from].0, defs[from].1.ty, st),
        )
    }
}

/// The candidates from position `from` on fused into `acc`, one after
/// another; the first pair that cannot be fused is the error.
pub open spec fn fused_from(
    acc: SqlRepresentationView,
    reprs: Seq<SqlRepresentationView>,
    from: int,
    name: Seq<char>,
) -> Result<SqlRepresentationView, FusionErrorView>
    decreases reprs.len() - from,
{
    if from < 0 || from >= reprs.len() {
        Ok(acc)
    } else {
        match fused(acc, reprs[from], name) {
            Ok(v) => fused_from(v, reprs, from + 1, name),
            Err(conflict) => Err(
                FusionErrorView { property: name, left: acc, right: reprs[from], conflict },
            ),
        }
    }
}

/// The one representation of each property from position `from` on, after
/// those in `done`: the candidates of a property are fused in ascending
/// order, starting from the first. Polymorphic properties are left out.
pub open spec fn columns_fused(columns: Seq<CandidateView>, from: int, done: Seq<ColumnView>)
    -> Result<Seq<ColumnView>, FusionErrorView>
    decreases columns.len() - from,
{
    if from < 0 || from >= columns.len() {
        Ok(done)
    } else {
        let (name, reprs) = columns[from];
        if is_polymorphic(name) || reprs.len() == 0 {
            columns_fused(columns, from + 1, done)
        } else {
            match fused_from(reprs[0], reprs, 1, name) {
                Ok(v) => columns_fused(columns, from + 1, done.push((name, v))),
                Err(e) => Err(e),
            }
        }
    }
}

/// The column of a polymorphic property: any value, or null.
pub open spec fn polymorphic_column() -> SqlRepresentationView {
    SqlRepresentationView::Column {
        unique: false,
        null: true,
        id_foreign_key_constraint: false,
        ty: "ANY"@,
    }
}

/// The representations with the fixed one of the polymorphic property put in
/// where the order of names wants it; an entry that is already there is an
/// error.
pub open spec fn polymorphic_forced(columns: Seq<ColumnView>) -> Result<
    Seq<ColumnView>,
    SchemaErrorView,
> {
    let i = name_slot(names_of(columns), POLYMORPHIC_PROP@, 0);
    if i < columns.len() && columns[i].0 == POLYMORPHIC_PROP@ {
        Err(SchemaErrorView::PolymorphicCollision { property: POLYMORPHIC_PROP@ })
    } else {
        Ok(columns.insert(i, (POLYMORPHIC_PROP@, polymorphic_column())))
    }
}

/// Where the collection of candidates starts.
pub open spec fn nothing_handled() -> Handled {
    Handled { columns: Seq::empty(), problems: Seq::empty(), failure: None }
}

/// What a schema comes to: the representation of every property, by name,
/// and the types for which none was found.
pub open spec fn inferred(root: RootView) -> Result<(Seq<ColumnView>, Seq<TypeView>), SchemaErrorView> {
    let handled = definitions_handled(root.defs, 0, nothing_handled());
    match handled.failure {
        Some(e) => Err(e),
        None => match columns_fused(handled.columns, 0, Seq::empty()) {
            Err(e) => Err(SchemaErrorView::Fusion(e)),
            Ok(fused) => match polymorphic_forced(fused) {
                Err(e) => Err(e),
                Ok(columns) => {
                    if names_of(columns).contains(ELEMENT_PK_COL@) {
                        Ok((columns, handled.problems))
                    } else {
                        Err(SchemaErrorView::PrimaryKey(PrimaryKeyFault::Missing))
                    }
                },
            },
        },
    }
}

/// The script that creates the store for a schema.
pub open spec fn schema_script(root: RootView) -> Result<Seq<char>, SchemaErrorView> {
    match inferred(root) {
        Ok((columns, _)) => Ok(schema_text(columns)),
        Err(e) => Err(e),
    }
}

fn note_problem(problems: &mut Vec<Type>, ty: &Type)
    ensures
        problems_view(final(problems)@) == problem_noted(problems_view(old(problems)@), ty@),
{
    let ghost before = problems_view(problems@);
    let mut i: usize = 0;
    while i < problems.len()
        invariant
            i <= problems.len(),
            problems@ == old(problems)@,
            before == problems_view(problems@),
            forall|k: int| 0 <= k < i ==> before[k] != ty@,
        decreases problems.len() - i,
    {
        if problems[i] == *ty {
            assert(before[i as int] == ty@);
            return ;
        }
        i += 1;
    }
    problems.push(clone_type(ty));
    assert(problems_view(problems@) =~= before.push(ty@));
}

fn check_primary_key(repr: &SqlRepresentation) -> (r: Option<PrimaryKeyFault>)
    ensures
        r == primary_key_fault(repr@),
{
    match repr {
        SqlRepresentation::Column { unique, null, id_foreign_key_constraint, ty } => {
            if !*unique {
                Some(PrimaryKeyFault::NotUnique)
            } else if *id_foreign_key_constraint {
                Some(PrimaryKeyFault::ForeignKey)
            } else if *null {
                Some(PrimaryKeyFault::Nullable)
            } else {
                None
            }
        },
        _ => Some(PrimaryKeyFault::NotColumn),
    }
}

/// The state of the collection that the two lists stand for.
pub open spec fn handled_so_far(
    columns: Seq<(String, Vec<SqlRepresentation>)>,
    problems: Seq<Type>,
) -> Handled {
    Handled {
        columns: candidates_view(columns),
        problems: problems_view(problems),
        failure: None,
    }
}

/// Takes in the properties of an object: the representation of each joins
/// the candidates of the property in `columns`, and a type that has none is
/// added to `problems`. The primary key property must be a unique column
/// that neither refers to an element nor allows null; otherwise the
/// collection stops there with the error.
pub fn handle_properties(
    properties: &Vec<(String, Type)>,
    columns: &mut Vec<(String, Vec<SqlRepresentation>)>,
    problems: &mut Vec<Type>,
) -> (r: Result<(), SchemaError>)
    ensures
        ({
            let handled = properties_handled(
                properties_view(*properties),
                0,
                handled_so_far(old(columns)@, old(problems)@),
            );
            &&& candidates_view(final(columns)@) == handled.columns
            &&& problems_view(final(problems)@) == handled.problems
            &&& match handled.failure {
                Some(e) => r is Err && r->Err_0@ == e,
                None => r is Ok,
            }
        }),
{
    let ghost all = properties_view(*properties);
    let ghost start = handled_so_far(columns@, problems@);
    let mut i: usize = 0;
    while i < properties.len()
        invariant
            i <= properties.len(),
            all == properties_view(*properties),
            start == handled_so_far(old(columns)@, old(problems)@),
            properties_handled(all, 0, start) == properties_handled(
                all,
                i as int,
                handled_so_far(columns@, problems@),
            ),
        decreases properties.len() - i,
    {
        let prop_name = properties[i].0.as_str();
        let prop = &properties[i].1;
        let ghost now = handled_so_far(columns@, problems@);
        assert(all[i as int] == (prop_name@, prop@));
        match SqlRepresentation::try_from_json_schema_ty(prop_name, prop) {
            Err(_) => {
                note_problem(problems, prop);
            },
            Ok(new_repr) => {
                // the primary key must be fit to be one
                if *prop_name == *ELEMENT_PK_COL {
                    if let Some(fault) = check_primary_key(&new_repr) {
                        proof {
                            let failed = property_handled(prop_name@, prop@, now);
                            assert(failed == Handled {
                                failure: Some(SchemaErrorView::PrimaryKey(fault)),
                                ..now
                            });
                            assert(properties_handled(all, i as int, now) == properties_handled(
                                all,
                                i + 1,
                                failed,
                            ));
                            assert(properties_handled(all, i + 1, failed) == failed);
                        }
                        return Err(SchemaError::PrimaryKey(fault));
                    }
                }
                add_candidate(columns, prop_name, new_repr);
            },
        }
        i += 1;
    }
    Ok(())
}

fn handle_members(
    def_name: &str,
    members: &Vec<Type>,
    columns: &mut Vec<(String, Vec<SqlRepresentation>)>,
    problems: &mut Vec<Type>,
) -> (r: Result<(), SchemaError>)
    ensures
        ({
            let handled = members_handled(
                def_name@,
                types_view(*members),
                0,
                handled_so_far(old(columns)@, old(problems)@),
            );
            &&& candidates_view(final(columns)@) == handled.columns
            &&& problems_view(final(problems)@) == handled.problems
            &&& match handled.failure {
                Some(e) => r is Err && r->Err_0@ == e,
                None => r is Ok,
            }
        }),
{
    let ghost all = types_view(*members);
    let ghost start = handled_so_far(columns@, problems@);
    let mut i: usize = 0;
    while i < members.len()
        invariant
            i <= members.len(),
            all == types_view(*members),
            start == handled_so_far(old(columns)@, old(problems)@),
            members_handled(def_name@, all, 0, start) == members_handled(
                def_name@,
                all,
                i as int,
                handled_so_far(columns@, problems@),
            ),
        decreases members.len() - i,
    {
        let ghost now = handled_so_far(columns@, problems@);
        assert(all[i as int] == members@[i as int]@);
        match &members[i] {
            Type::Concrete(ConcreteType::Object { properties, .. }) => {
                let outcome = handle_properties(properties, columns, problems);
                if let Err(e) = outcome {
                    proof {
                        let failed = member_handled(def_name@, all[i as int], now);
                        assert(members_handled(def_name@, all, i + 1, failed) == failed);
                    }
                    return Err(e);
                }
            },
            // a reference brings no properties of its own
            Type::Composite(CompositeType::Ref { .. }) => {},
            _ => {
                proof {
                    let failed = member_handled(def_name@, all[i as int], now);
                    assert(members_handled(def_name@, all, i + 1, failed) == failed);
                }
                return Err(SchemaError::UnexpectedMember { definition: String::from_str(def_name) });
            },
        }
        i += 1;
    }
    Ok(())
}

fn handle_definition(
    def_name: &str,
    ty: &Type,
    columns: &mut Vec<(String, Vec<SqlRepresentation>)>,
    problems: &mut Vec<Type>,
) -> (r: Result<(), SchemaError>)
    ensures
        ({
            let handled = definition_handled(
                def_name@,
                ty@,
                handled_so_far(old(columns)@, old(problems)@),
            );
            &&& candidates_view(final(columns)@) == handled.columns
            &&& problems_view(final(problems)@) == handled.problems
            &&& match handled.failure {
                Some(e) => r is Err && r->Err_0@ == e,
                None => r is Ok,
            }
        }),
{
    match ty {
        // the definition is an object with properties
        Type::Concrete(ConcreteType::Object { properties, .. }) => handle_properties(
            properties,
            columns,
            problems,
        ),
        // the definition is a string: nothing says how to store it
        Type::Concrete(ConcreteType::String { .. }) => {
            note_problem(problems, ty);
            Ok(())
        },
        Type::Composite(CompositeType::AnyOf { any_of }) => handle_members(
            def_name,
            any_of,
            columns,
            problems,
        ),
        Type::Composite(CompositeType::OneOf { one_of }) => handle_members(
            def_name,
            one_of,
            columns,
            problems,
        ),
        _ => Err(SchemaError::UnexpectedDefinition { definition: String::from_str(def_name) }),
    }
}

/// Fuses the candidates of every property into one representation. The
/// candidates of a property are fused in ascending order; polymorphic
/// properties are left out.
pub fn fuse_columns(columns: &Vec<(String, Vec<SqlRepresentation>)>) -> (r: Result<
    Vec<(String, SqlRepresentation)>,
    FusionError,
>)
    ensures
        match columns_fused(candidates_view(columns@), 0, Seq::empty()) {
            Ok(fused) => r is Ok && columns_view(r->Ok_0@) == fused,
            Err(e) => r is Err && r->Err_0@ == e,
        },
{
    let ghost all = candidates_view(columns@);
    let mut fused_columns: Vec<(String, SqlRepresentation)> = Vec::new();
    let mut i: usize = 0;
    assert(columns_view(fused_columns@) =~= Seq::empty());
    while i < columns.len()
        invariant
            i <= columns.len(),
            all == candidates_view(columns@),
            columns_fused(all, 0, Seq::empty()) == columns_fused(
                all,
                i as int,
                columns_view(fused_columns@),
            ),
        decreases columns.len() - i,
    {
        let name = columns[i].0.as_str();
        let reprs = &columns[i].1;
        assert(all[i as int] == (name@, reprs_view(reprs@)));
        if !is_polymorphic_prop(name) && reprs.len() > 0 {
            let ghost candidates = reprs_view(reprs@);
            let mut acc = reprs[0].clone();
            let mut k: usize = 1;
            while k < reprs.len()
                invariant
                    1 <= k <= reprs.len(),
                    candidates == reprs_view(reprs@),
                    0 <= i < all.len(),
                    all == candidates_view(columns@),
                    candidates.len() > 0,
                    all[i as int] == (name@, candidates),
                    !is_polymorphic(name@),
                    columns_fused(all, 0, Seq::empty()) == columns_fused(
                        all,
                        i as int,
                        columns_view(fused_columns@),
                    ),
                    fused_from(candidates[0], candidates, 1, name@) == fused_from(
                        acc@,
                        candidates,
                        k as int,
                        name@,
                    ),
                decreases reprs.len() - k,
            {
                let ghost acc_before = acc@;
                let outcome = acc.fuse(&reprs[k], name);
                assert(candidates[k as int] == reprs@[k as int]@);
                if let Err(e) = outcome {
                    proof {
                        assert(fused_from(acc_before, candidates, k as int, name@) == Err::<
                            SqlRepresentationView,
                            FusionErrorView,
                        >(e@));
                        assert(columns_fused(all, i as int, columns_view(fused_columns@)) == Err::<
                            Seq<ColumnView>,
                            FusionErrorView,
                        >(e@));
                    }
                    return Err(e);
                }
                k += 1;
            }
            let ghost before = columns_view(fused_columns@);
            fused_columns.push((String::from_str(name), acc));
            assert(columns_view(fused_columns@) =~= before.push((name@, acc@)));
        }
        i += 1;
    }
    Ok(fused_columns)
}

/// Gives the polymorphic property its fixed representation, a column that
/// takes any value or null. It is an error if the property already has one.
pub fn force_polymorphic(columns: &mut Vec<(String, SqlRepresentation)>) -> (r: Result<
    (),
    SchemaError,
>)
    ensures
        match polymorphic_forced(columns_view(old(columns)@)) {
            Ok(forced) => r is Ok && columns_view(final(columns)@) == forced,
            Err(e) => r is Err && r->Err_0@ == e && final(columns)@ == old(columns)@,
        },
{
    let ghost before = columns_view(columns@);
    let ghost names = names_of(before);
    let mut i: usize = 0;
    while i < columns.len() && str_lt(columns[i].0.as_str(), POLYMORPHIC_PROP)
        invariant
            i <= columns.len(),
            columns@ == old(columns)@,
            before == columns_view(columns@),
            names == names_of(before),
            name_slot(names, POLYMORPHIC_PROP@, 0) == name_slot(names, POLYMORPHIC_PROP@, i as int),
        decreases columns.len() - i,
    {
        i += 1;
    }
    if i < columns.len() && *columns[i].0.as_str() == *POLYMORPHIC_PROP {
        return Err(
            SchemaError::PolymorphicCollision { property: String::from_str(POLYMORPHIC_PROP) },
        );
    }
    columns.insert(
        i,
        (
            String::from_str(POLYMORPHIC_PROP),
            SqlRepresentation::Column {
                unique: false,
                null: true,
                id_foreign_key_constraint: false,
                ty: String::from_str("ANY"),
            },
        ),
    );
    assert(columns_view(columns@) =~= before.insert(
        i as int,
        (POLYMORPHIC_PROP@, polymorphic_column()),
    ));
    Ok(())
}

fn has_column(columns: &Vec<(String, SqlRepresentation)>, name: &str) -> (r: bool)
    ensures
        r == names_of(columns_view(columns@)).contains(name@),
{
    let ghost names = names_of(columns_view(columns@));
    let mut i: usize = 0;
    while i < columns.len()
        invariant
            i <= columns.len(),
            names == names_of(columns_view(columns@)),
            forall|k: int| 0 <= k < i ==> names[k] != name@,
        decreases columns.len() - i,
    {
        if *columns[i].0.as_str() == *name {
            assert(names[i as int] == name@);
            return true;
        }
        i += 1;
    }
    false
}

/// What a schema comes to.
#[derive(Debug)]
pub struct Inference {
    /// The representation of every property, in the order of their names.
    pub columns: Vec<(String, SqlRepresentation)>,
    /// The types for which no representation was found, each once. They
    /// are not part of the schema.
    pub problematic_cases: Vec<Type>,
}

/// Finds the representation of every property that the definitions of a
/// schema declare.
///
/// The candidates of all definitions are collected, those of each property
/// are fused, and the polymorphic property gets its fixed column. The
/// primary key property must be among the result.
pub fn infer_columns(schema: &Root) -> (r: Result<Inference, SchemaError>)
    ensures
        match inferred(schema@) {
            Ok((columns, problems)) => r is Ok && columns_view(r->Ok_0.columns@) == columns
                && problems_view(r->Ok_0.problematic_cases@) == problems,
            Err(e) => r is Err && r->Err_0@ == e,
        },
{
    let ghost defs = schema@.defs;
    let mut columns: Vec<(String, Vec<SqlRepresentation>)> = Vec::new();
    let mut problematic_cases: Vec<Type> = Vec::new();
    assert(handled_so_far(columns@, problematic_cases@) == nothing_handled()) by {
        assert(candidates_view(columns@) =~= Seq::empty());
        assert(problems_view(problematic_cases@) =~= Seq::empty());
    }
    // go through all definitions
    let mut i: usize = 0;
    while i < schema.defs.len()
        invariant
            i <= schema.defs.len(),
            defs == schema@.defs,
            definitions_handled(defs, 0, nothing_handled()) == definitions_handled(
                defs,
                i as int,
                handled_so_far(columns@, problematic_cases@),
            ),
        decreases schema.defs.len() - i,
    {
        let ghost now = handled_so_far(columns@, problematic_cases@);
        assert(defs[i as int] == (schema.defs@[i as int].0@, schema.defs@[i as int].1@));
        let outcome = handle_definition(
            schema.defs[i].0.as_str(),
            &schema.defs[i].1.ty,
            &mut columns,
            &mut problematic_cases,
        );
        if let Err(e) = outcome {
            proof {
                let failed = definition_handled(defs[i as int].0, defs[i as int].1.ty, now);
                assert(definitions_handled(defs, i + 1, failed) == failed);
            }
            return Err(e);
        }
        i += 1;
    }
    let mut fused_columns = match fuse_columns(&columns) {
        Ok(fused_columns) => fused_columns,
        Err(e) => {
            return Err(SchemaError::Fusion(e));
        },
    };
    force_polymorphic(&mut fused_columns)?;
    if !has_column(&fused_columns, ELEMENT_PK_COL) {
        return Err(SchemaError::PrimaryKey(PrimaryKeyFault::Missing));
    }
    Ok(Inference { columns: fused_columns, problematic_cases })
}

/// Derives the script that creates the store for a schema.
pub fn consume_json_schema(schema: &Root) -> (r: Result<String, SchemaError>)
    ensures
        match schema_script(schema@) {
            Ok(script) => r is Ok && r->Ok_0@ == script,
            Err(e) => r is Err && r->Err_0@ == e,
        },
{
    match infer_columns(schema) {
        Ok(inference) => Ok(to_create_table(&inference.columns)),
        Err(e) => Err(e),
    }
}

} // verus!
