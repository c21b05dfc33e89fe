//! What holds of every schema that is inferred: each property has one
//! representation, the properties stand in the order of their names, and
//! the primary key is a column fit to be one.

use vstd::prelude::*;
use crate::config::{ELEMENT_PK_COL, POLYMORPHIC_PROP, is_polymorphic};
use crate::json_schema_to_sql::json_schema::{CompositeTypeView, ConcreteTypeView, TypeView};
use crate::json_schema_to_sql::json_schema::{DefinitionView, RootView};
use crate::json_schema_to_sql::sql::{ColumnView, SqlRepresentationView, classified, fused};
use crate::json_schema_to_sql::{CandidateView, Handled};
use crate::json_schema_to_sql::{candidate_added, columns_fused, definition_handled};
use crate::json_schema_to_sql::{definitions_handled, fused_from, inferred, member_handled};
use crate::json_schema_to_sql::{members_handled, name_slot, names_of, nothing_handled};
use crate::json_schema_to_sql::{polymorphic_forced, primary_key_fault};
use crate::json_schema_to_sql::{properties_handled, property_handled, repr_added, repr_slot};
use crate::util::{lemma_lex_total, lemma_lex_transitive, lex_lt};

verus! {

/// Whether the names stand in strictly ascending order.
pub open spec fn ascending(names: Seq<Seq<char>>) -> bool {
    forall|i: int, j: int| 0 <= i < j < names.len() ==> lex_lt(#[trigger] names[i], #[trigger] names[j])
}

/// Whether a representation is fit for the primary key.
pub open spec fn is_key_column(repr: SqlRepresentationView) -> bool {
    primary_key_fault(repr) is None
}

/// Whether every candidate of the primary key property is fit to be the key.
pub open spec fn key_candidates_fit(columns: Seq<CandidateView>) -> bool {
    forall|i: int, k: int|
        0 <= i < columns.len() && columns[i].0 == ELEMENT_PK_COL@ && 0 <= k < columns[i].1.len()
            ==> is_key_column(#[trigger] columns[i].1[k])
}

/// Whether every candidate list holds a candidate.
pub open spec fn candidates_present(columns: Seq<CandidateView>) -> bool {
    forall|i: int| 0 <= i < columns.len() ==> (#[trigger] columns[i]).1.len() > 0
}

proof fn lemma_name_slot(names: Seq<Seq<char>>, name: Seq<char>, from: int)
    requires
        0 <= from <= names.len(),
    ensures
        from <= name_slot(names, name, from) <= names.len(),
        forall|k: int| from <= k < name_slot(names, name, from) ==> lex_lt(#[trigger] names[k], name),
        name_slot(names, name, from) < names.len() ==> !lex_lt(
            names[name_slot(names, name, from)],
            name,
        ),
    decreases names.len() - from,
{
    if from < names.len() && lex_lt(names[from], name) {
        lemma_name_slot(names, name, from + 1);
    }
}

proof fn lemma_repr_slot(s: Seq<SqlRepresentationView>, x: SqlRepresentationView, from: int)
    requires
        0 <= from <= s.len(),
    ensures
        from <= repr_slot(s, x, from) <= s.len(),
    decreases s.len() - from,
{
    if from < s.len() && crate::json_schema_to_sql::repr_lt(s[from], x) {
        lemma_repr_slot(s, x, from + 1);
    }
}

/// A name that is put in at its slot keeps the names ascending.
proof fn lemma_insert_ascending(names: Seq<Seq<char>>, name: Seq<char>)
    requires
        ascending(names),
        !(name_slot(names, name, 0) < names.len() && names[name_slot(names, name, 0)] == name),
    ensures
        ascending(names.insert(name_slot(names, name, 0), name)),
{
    let at = name_slot(names, name, 0);
    lemma_name_slot(names, name, 0);
    let grown = names.insert(at, name);
    assert forall|i: int, j: int| 0 <= i < j < grown.len() implies lex_lt(
        #[trigger] grown[i],
        #[trigger] grown[j],
    ) by {
        if j < at {
            assert(grown[i] == names[i] && grown[j] == names[j]);
        } else if j == at {
            assert(grown[i] == names[i]);
        } else if i == at {
            // the name comes before everything from its slot on
            lemma_lex_total(names[at], name);
            assert(lex_lt(name, names[at]));
            if j - 1 > at {
                assert(lex_lt(names[at], names[j - 1]));
                lemma_lex_transitive(name, names[at], names[j - 1]);
            }
            assert(grown[j] == names[j - 1]);
        } else if i < at {
            assert(grown[i] == names[i] && grown[j] == names[j - 1]);
        } else {
            assert(grown[i] == names[i - 1] && grown[j] == names[j - 1]);
        }
    }
}

proof fn lemma_candidate_added(
    columns: Seq<CandidateView>,
    name: Seq<char>,
    repr: SqlRepresentationView,
)
    requires
        ascending(names_of(columns)),
        candidates_present(columns),
        key_candidates_fit(columns),
        name == ELEMENT_PK_COL@ ==> is_key_column(repr),
    ensures
        ascending(names_of(candidate_added(columns, name, repr))),
        candidates_present(candidate_added(columns, name, repr)),
        key_candidates_fit(candidate_added(columns, name, repr)),
{
    let names = names_of(columns);
    let at = name_slot(names, name, 0);
    lemma_name_slot(names, name, 0);
    let after = candidate_added(columns, name, repr);
    if at < columns.len() && columns[at].0 == name {
        let set = columns[at].1;
        let slot = repr_slot(set, repr, 0);
        lemma_repr_slot(set, repr, 0);
        assert(names_of(after) =~= names);
        assert forall|i: int, k: int|
            0 <= i < after.len() && after[i].0 == ELEMENT_PK_COL@ && 0 <= k
                < after[i].1.len() implies is_key_column(#[trigger] after[i].1[k]) by {
            if i == at {
                let grown = repr_added(set, repr);
                if !(slot < set.len() && set[slot] == repr) {
                    if k < slot {
                        assert(grown[k] == set[k]);
                    } else if k > slot {
                        assert(grown[k] == set[k - 1]);
                    }
                }
            } else {
                assert(after[i] == columns[i]);
            }
        }
        assert forall|i: int| 0 <= i < after.len() implies (#[trigger] after[i]).1.len() > 0 by {
            if i != at {
                assert(after[i] == columns[i]);
            }
        }
    } else {
        assert(names[at] == columns[at].0 || at >= columns.len());
        lemma_insert_ascending(names, name);
        assert(names_of(after) =~= names.insert(at, name));
        assert forall|i: int, k: int|
            0 <= i < after.len() && after[i].0 == ELEMENT_PK_COL@ && 0 <= k
                < after[i].1.len() implies is_key_column(#[trigger] after[i].1[k]) by {
            if i < at {
                assert(after[i] == columns[i]);
            } else if i > at {
                assert(after[i] == columns[i - 1]);
            }
        }
        assert forall|i: int| 0 <= i < after.len() implies (#[trigger] after[i]).1.len() > 0 by {
            if i < at {
                assert(after[i] == columns[i]);
            } else if i > at {
                assert(after[i] == columns[i - 1]);
            }
        }
    }
}

/// What holds of the candidates while they are collected.
pub open spec fn collected_well(st: Handled) -> bool {
    &&& ascending(names_of(st.columns))
    &&& candidates_present(st.columns)
    &&& key_candidates_fit(st.columns)
}

proof fn lemma_properties_handled(
    properties: Seq<(Seq<char>, TypeView)>,
    from: int,
    st: Handled,
)
    requires
        0 <= from,
        collected_well(st),
    ensures
        collected_well(properties_handled(properties, from, st)),
    decreases properties.len() - from,
{
    if from < properties.len() && st.failure is None {
        let (name, ty) = properties[from];
        let next = property_handled(name, ty, st);
        if let Ok(repr) = classified(name, ty) {
            if !(name == ELEMENT_PK_COL@ && primary_key_fault(repr) is Some) {
                lemma_candidate_added(st.columns, name, repr);
            }
        }
        lemma_properties_handled(properties, from + 1, next);
    }
}

proof fn lemma_members_handled(
    definition: Seq<char>,
    members: Seq<TypeView>,
    from: int,
    st: Handled,
)
    requires
        0 <= from,
        collected_well(st),
    ensures
        collected_well(members_handled(definition, members, from, st)),
    decreases members.len() - from,
{
    if from < members.len() && st.failure is None {
        if let TypeView::Concrete(ConcreteTypeView::Object { properties, .. }) = members[from] {
            lemma_properties_handled(properties, 0, st);
        }
        lemma_members_handled(
            definition,
            members,
            from + 1,
            member_handled(definition, members[from], st),
        );
    }
}

proof fn lemma_definitions_handled(
    defs: Seq<(Seq<char>, DefinitionView)>,
    from: int,
    st: Handled,
)
    requires
        0 <= from,
        collected_well(st),
    ensures
        collected_well(definitions_handled(defs, from, st)),
    decreases defs.len() - from,
{
    if from < defs.len() && st.failure is None {
        let (name, definition) = defs[from];
        match definition.ty {
            TypeView::Concrete(ConcreteTypeView::Object { properties, .. }) => {
                lemma_properties_handled(properties, 0, st);
            },
            TypeView::Composite(CompositeTypeView::AnyOf { any_of }) => {
                lemma_members_handled(name, any_of, 0, st);
            },
            TypeView::Composite(CompositeTypeView::OneOf { one_of }) => {
                lemma_members_handled(name, one_of, 0, st);
            },
            _ => {},
        }
        lemma_definitions_handled(defs, from + 1, definition_handled(name, definition.ty, st));
    }
}

/// Two representations that are fit for the key fuse into one that is.
proof fn lemma_fused_key(a: SqlRepresentationView, b: SqlRepresentationView, name: Seq<char>)
    requires
        is_key_column(a),
        is_key_column(b),
        fused(a, b, name) is Ok,
    ensures
        is_key_column(fused(a, b, name)->Ok_0),
{
}

proof fn lemma_fused_from_key(
    acc: SqlRepresentationView,
    reprs: Seq<SqlRepresentationView>,
    from: int,
    name: Seq<char>,
)
    requires
        0 <= from,
        is_key_column(acc),
        forall|k: int| 0 <= k < reprs.len() ==> is_key_column(#[trigger] reprs[k]),
        fused_from(acc, reprs, from, name) is Ok,
    ensures
        is_key_column(fused_from(acc, reprs, from, name)->Ok_0),
    decreases reprs.len() - from,
{
    if from < reprs.len() {
        lemma_fused_key(acc, reprs[from], name);
        lemma_fused_from_key(fused(acc, reprs[from], name)->Ok_0, reprs, from + 1, name);
    }
}

/// Whether every column of the primary key property is fit to be the key.
pub open spec fn key_columns_fit(columns: Seq<ColumnView>) -> bool {
    forall|i: int|
        0 <= i < columns.len() && (#[trigger] columns[i]).0 == ELEMENT_PK_COL@ ==> is_key_column(
            columns[i].1,
        )
}

proof fn lemma_columns_fused(columns: Seq<CandidateView>, from: int, done: Seq<ColumnView>)
    requires
        0 <= from <= columns.len(),
        ascending(names_of(columns)),
        candidates_present(columns),
        key_candidates_fit(columns),
        ascending(names_of(done)),
        key_columns_fit(done),
        forall|i: int, k: int|
            0 <= i < done.len() && from <= k < columns.len() ==> lex_lt(
                (#[trigger] done[i]).0,
                (#[trigger] columns[k]).0,
            ),
        columns_fused(columns, from, done) is Ok,
    ensures
        ascending(names_of(columns_fused(columns, from, done)->Ok_0)),
        key_columns_fit(columns_fused(columns, from, done)->Ok_0),
    decreases columns.len() - from,
{
    if from < columns.len() {
        let (name, reprs) = columns[from];
        let names = names_of(columns);
        assert forall|k: int| from < k < columns.len() implies lex_lt(
            name,
            (#[trigger] columns[k]).0,
        ) by {
            assert(names[from] == name && names[k] == columns[k].0);
        }
        if is_polymorphic(name) || reprs.len() == 0 {
            lemma_columns_fused(columns, from + 1, done);
        } else {
            let v = fused_from(reprs[0], reprs, 1, name)->Ok_0;
            let grown = done.push((name, v));
            if name == ELEMENT_PK_COL@ {
                assert forall|k: int| 0 <= k < reprs.len() implies is_key_column(
                    #[trigger] reprs[k],
                ) by {
                    assert(columns[from].1[k] == reprs[k]);
                }
                lemma_fused_from_key(reprs[0], reprs, 1, name);
            }
            assert(ascending(names_of(grown))) by {
                let before = names_of(done);
                let after = names_of(grown);
                assert(after =~= before.push(name));
                assert forall|i: int, j: int| 0 <= i < j < after.len() implies lex_lt(
                    #[trigger] after[i],
                    #[trigger] after[j],
                ) by {
                    if j < before.len() {
                        assert(lex_lt(before[i], before[j]));
                    } else {
                        assert(lex_lt(done[i].0, columns[from].0));
                    }
                }
            }
            assert forall|i: int, k: int|
                0 <= i < grown.len() && from + 1 <= k < columns.len() implies lex_lt(
                (#[trigger] grown[i]).0,
                (#[trigger] columns[k]).0,
            ) by {
                if i < done.len() {
                    assert(grown[i] == done[i]);
                }
            }
            assert forall|i: int|
                0 <= i < grown.len() && (#[trigger] grown[i]).0
                    == ELEMENT_PK_COL@ implies is_key_column(grown[i].1) by {
                if i < done.len() {
                    assert(grown[i] == done[i]);
                }
            }
            lemma_columns_fused(columns, from + 1, grown);
        }
    }
}

proof fn lemma_polymorphic_forced(columns: Seq<ColumnView>)
    requires
        ascending(names_of(columns)),
        key_columns_fit(columns),
        polymorphic_forced(columns) is Ok,
    ensures
        ascending(names_of(polymorphic_forced(columns)->Ok_0)),
        key_columns_fit(polymorphic_forced(columns)->Ok_0),
{
    let names = names_of(columns);
    let at = name_slot(names, POLYMORPHIC_PROP@, 0);
    lemma_name_slot(names, POLYMORPHIC_PROP@, 0);
    let forced = polymorphic_forced(columns)->Ok_0;
    assert(at >= columns.len() || names[at] == columns[at].0);
    lemma_insert_ascending(names, POLYMORPHIC_PROP@);
    assert(names_of(forced) =~= names.insert(at, POLYMORPHIC_PROP@));
    assert(POLYMORPHIC_PROP@ != ELEMENT_PK_COL@) by {
        reveal_strlit("value");
        reveal_strlit("@id");
        assert("value"@.len() == 5);
        assert("@id"@.len() == 3);
        assert(POLYMORPHIC_PROP@ == "value"@);
        assert(ELEMENT_PK_COL@ == "@id"@);
    }
    assert forall|i: int|
        0 <= i < forced.len() && (#[trigger] forced[i]).0 == ELEMENT_PK_COL@ implies is_key_column(
        forced[i].1,
    ) by {
        if i < at {
            assert(forced[i] == columns[i]);
        } else if i > at {
            assert(forced[i] == columns[i - 1]);
        }
    }
}

/// In every schema that is inferred the properties stand in the strictly
/// ascending order of their names, so that no property has two
/// representations.
pub proof fn lemma_inferred_names_ascend(root: RootView)
    requires
        inferred(root) is Ok,
    ensures
        ascending(names_of(inferred(root)->Ok_0.0)),
{
    lemma_inferred(root);
}

/// In every schema that is inferred exactly one entry is that of the
/// primary key property, and it is a unique column that neither allows null
/// nor refers to an element.
pub proof fn lemma_inferred_key(root: RootView)
    requires
        inferred(root) is Ok,
    ensures
        exists|i: int|
            0 <= i < inferred(root)->Ok_0.0.len() && (#[trigger] inferred(root)->Ok_0.0[i]).0
                == ELEMENT_PK_COL@ && (inferred(root)->Ok_0.0[i].1 matches SqlRepresentationView::Column {
                unique,
                null,
                id_foreign_key_constraint,
                ..
            } && unique && !null && !id_foreign_key_constraint) && (forall|j: int|
                0 <= j < inferred(root)->Ok_0.0.len() && j != i ==> (
                #[trigger] inferred(root)->Ok_0.0[j]).0 != ELEMENT_PK_COL@),
{
    lemma_inferred(root);
    let columns = inferred(root)->Ok_0.0;
    let names = names_of(columns);
    assert(names.contains(ELEMENT_PK_COL@));
    let i = choose|i: int| 0 <= i < names.len() && names[i] == ELEMENT_PK_COL@;
    assert(columns[i].0 == ELEMENT_PK_COL@);
    assert(is_key_column(columns[i].1));
    assert forall|j: int| 0 <= j < columns.len() && j != i implies (#[trigger] columns[j]).0
        != ELEMENT_PK_COL@ by {
        assert(names[j] == columns[j].0);
        if j < i {
            assert(lex_lt(names[j], names[i]));
            lemma_lex_total(names[j], names[i]);
        } else {
            assert(lex_lt(names[i], names[j]));
            lemma_lex_total(names[i], names[j]);
        }
    }
}

proof fn lemma_inferred(root: RootView)
    requires
        inferred(root) is Ok,
    ensures
        ascending(names_of(inferred(root)->Ok_0.0)),
        key_columns_fit(inferred(root)->Ok_0.0),
{
    let start = nothing_handled();
    assert(collected_well(start));
    lemma_definitions_handled(root.defs, 0, start);
    let handled = definitions_handled(root.defs, 0, start);
    lemma_columns_fused(handled.columns, 0, Seq::empty());
    let fused = columns_fused(handled.columns, 0, Seq::empty())->Ok_0;
    lemma_polymorphic_forced(fused);
}

} // verus!
