//! What an import notices beside its work: columns that no element fills,
//! and attributes that the store has no place for. None of it fails an
//! import.

use vstd::prelude::*;
use vstd::string::StringExecFns;
use crate::config::{ELEMENT_PK_COL, is_polymorphic, is_polymorphic_prop};
use crate::import::{AttributeClass, AttributeClassView, ColumnType, ColumnView, Element};
use crate::import::ElementView;
use crate::import::{attribute_class, classify_attribute, columns_view};
use crate::json::{JsonValue, entry_of, get_entry};
use crate::util::{contains_text, views};

verus! {

/// The names that were noticed, each kind in a set of its own.
#[derive(Debug)]
pub struct Diagnostics {
    unused_db_columns: Vec<String>,
    mismatched_columns: Vec<String>,
    observed_json_attrs: Vec<String>,
    observed_primitive_attrs: Vec<String>,
    observed_unexpected_polymorph_attrs: Vec<String>,
    observed_relational_attrs: Vec<String>,
    observed_unexpected_complex_attrs: Vec<String>,
}

/// What [`Diagnostics`] stand for.
pub ghost struct DiagnosticsView {
    /// The columns of the elements table that no element has filled.
    pub unused_db_columns: Set<Seq<char>>,
    /// The columns, other than polymorphic ones, for which an element held
    /// an array or an object.
    pub mismatched_columns: Set<Seq<char>>,
    /// All attributes that were seen.
    pub observed_json_attrs: Set<Seq<char>>,
    /// The attributes that were seen with a scalar value.
    pub observed_primitive_attrs: Set<Seq<char>>,
    /// The attributes, other than polymorphic ones, that were seen with a
    /// scalar value first and with an array or an object later.
    pub observed_unexpected_polymorph_attrs: Set<Seq<char>>,
    /// The attributes that were seen as a relation.
    pub observed_relational_attrs: Set<Seq<char>>,
    /// The other attributes that were seen with an array or an object for
    /// which the store has no place.
    pub observed_unexpected_complex_attrs: Set<Seq<char>>,
}

/// The set that a list of names stands for.
pub open spec fn name_set(names: Seq<String>) -> Set<Seq<char>> {
    views(names).to_set()
}

/// The names of the columns.
pub open spec fn column_names(columns: Seq<ColumnView>) -> Set<Seq<char>> {
    Set::new(|name: Seq<char>| exists|i: int| 0 <= i < columns.len() && (#[trigger] columns[i]).0 == name)
}

/// Whether an element fills the column `name`: the key column is always
/// filled, any other by the attribute of its name.
pub open spec fn fills(element: ElementView, name: Seq<char>) -> bool {
    name == ELEMENT_PK_COL@ || entry_of(element.rest, name) is Some
}

/// Whether an element holds an array or an object where a column that is
/// not polymorphic wants a scalar.
pub open spec fn mismatches(element: ElementView, name: Seq<char>) -> bool {
    &&& name != ELEMENT_PK_COL@
    &&& !is_polymorphic(name)
    &&& (entry_of(element.rest, name) matches Some(value) && (value is Array || value is Object))
}

/// The diagnostics after the row of an element has been built: the columns
/// that it fills are no longer unused, and those that it mismatches are
/// noted.
pub open spec fn row_noted(d: DiagnosticsView, columns: Seq<ColumnView>, element: ElementView)
    -> DiagnosticsView {
    DiagnosticsView {
        unused_db_columns: Set::new(
            |name: Seq<char>|
                d.unused_db_columns.contains(name) && !(column_names(columns).contains(name)
                    && fills(element, name)),
        ),
        mismatched_columns: Set::new(
            |name: Seq<char>|
                d.mismatched_columns.contains(name) || (column_names(columns).contains(name)
                    && mismatches(element, name)),
        ),
        ..d
    }
}

/// The diagnostics after an attribute of the given class has been seen.
///
/// Every attribute is observed. A scalar is a primitive and a relation is
/// relational. An array or object without a place is unexpectedly
/// polymorphic where the attribute was seen as a primitive before and is not
/// a polymorphic property, and unexpectedly complex otherwise.
pub open spec fn attribute_noted(d: DiagnosticsView, name: Seq<char>, class: AttributeClassView)
    -> DiagnosticsView {
    let seen = DiagnosticsView { observed_json_attrs: d.observed_json_attrs.insert(name), ..d };
    match class {
        AttributeClassView::Empty => seen,
        AttributeClassView::Primitive => DiagnosticsView {
            observed_primitive_attrs: d.observed_primitive_attrs.insert(name),
            ..seen
        },
        AttributeClassView::Relations(_) => DiagnosticsView {
            observed_relational_attrs: d.observed_relational_attrs.insert(name),
            ..seen
        },
        AttributeClassView::Extended(_) => seen,
        AttributeClassView::Complex => {
            if d.observed_primitive_attrs.contains(name) && !is_polymorphic(name) {
                DiagnosticsView {
                    observed_unexpected_polymorph_attrs: d.observed_unexpected_polymorph_attrs.insert(
                        name,
                    ),
                    ..seen
                }
            } else {
                DiagnosticsView {
                    observed_unexpected_complex_attrs: d.observed_unexpected_complex_attrs.insert(
                        name,
                    ),
                    ..seen
                }
            }
        },
    }
}

/// The diagnostics after the attributes of an element from position `from`
/// on have been seen, up to the first that cannot be classified.
pub open spec fn attributes_noted(
    d: DiagnosticsView,
    element: ElementView,
    extended_columns: Seq<ColumnView>,
    from: int,
) -> DiagnosticsView
    decreases element.rest.len() - from,
{
    if from < 0 || from >= element.rest.len() {
        d
    } else {
        match attribute_class(element.rest[from].0, element.rest[from].1, extended_columns) {
            Err(_) => d,
            Ok(class) => attributes_noted(
                attribute_noted(d, element.rest[from].0, class),
                element,
                extended_columns,
                from + 1,
            ),
        }
    }
}

/// The attributes that were not always understood: those that were seen and
/// are neither a column nor a relation that never came without a place.
pub open spec fn problematic(d: DiagnosticsView, columns: Seq<ColumnView>) -> Set<Seq<char>> {
    Set::new(
        |name: Seq<char>|
            d.observed_json_attrs.contains(name) && !column_names(columns).contains(name) && !(
            d.observed_relational_attrs.contains(name)
                && !d.observed_unexpected_complex_attrs.contains(name)),
    )
}

fn insert_name(names: &mut Vec<String>, name: &str)
    ensures
        name_set(final(names)@) == name_set(old(names)@).insert(name@),
{
    let ghost before = views(names@);
    if contains_text(names, name) {
        assert(before.to_set().insert(name@) =~= before.to_set());
        return ;
    }
    names.push(String::from_str(name));
    proof {
        assert(views(names@) =~= before.push(name@));
        before.lemma_push_to_set_commute(name@);
    }
}

fn remove_name(names: &mut Vec<String>, name: &str)
    ensures
        name_set(final(names)@) == name_set(old(names)@).remove(name@),
{
    let ghost before = views(names@);
    let mut kept: Vec<String> = Vec::new();
    let mut i: usize = 0;
    assert(views(kept@).to_set() =~= before.take(0).to_set().remove(name@));
    while i < names.len()
        invariant
            i <= names.len(),
            before == views(names@),
            views(kept@).to_set() == before.take(i as int).to_set().remove(name@),
        decreases names.len() - i,
    {
        let ghost kept_before = views(kept@);
        proof {
            assert(before.take(i + 1) =~= before.take(i as int).push(before[i as int]));
            before.take(i as int).lemma_push_to_set_commute(before[i as int]);
        }
        if *names[i].as_str() != *name {
            kept.push(names[i].clone());
            proof {
                assert(views(kept@) =~= kept_before.push(before[i as int]));
                kept_before.lemma_push_to_set_commute(before[i as int]);
                assert(views(kept@).to_set() =~= before.take(i + 1).to_set().remove(name@));
            }
        } else {
            assert(views(kept@).to_set() =~= before.take(i + 1).to_set().remove(name@));
        }
        i += 1;
    }
    assert(before.take(names.len() as int) =~= before);
    *names = kept;
}

impl View for Diagnostics {
    type V = DiagnosticsView;

    closed spec fn view(&self) -> DiagnosticsView {
        DiagnosticsView {
            unused_db_columns: name_set(self.unused_db_columns@),
            mismatched_columns: name_set(self.mismatched_columns@),
            observed_json_attrs: name_set(self.observed_json_attrs@),
            observed_primitive_attrs: name_set(self.observed_primitive_attrs@),
            observed_unexpected_polymorph_attrs: name_set(
                self.observed_unexpected_polymorph_attrs@,
            ),
            observed_relational_attrs: name_set(self.observed_relational_attrs@),
            observed_unexpected_complex_attrs: name_set(self.observed_unexpected_complex_attrs@),
        }
    }
}

impl Diagnostics {
    /// The diagnostics before an import: every column of the elements table
    /// is unused, and nothing was seen.
    pub fn new(columns: &Vec<(String, ColumnType)>) -> (r: Self)
        ensures
            r@ == (DiagnosticsView {
                unused_db_columns: column_names(columns_view(columns@)),
                mismatched_columns: Set::empty(),
                observed_json_attrs: Set::empty(),
                observed_primitive_attrs: Set::empty(),
                observed_unexpected_polymorph_attrs: Set::empty(),
                observed_relational_attrs: Set::empty(),
                observed_unexpected_complex_attrs: Set::empty(),
            }),
    {
        let ghost all = columns_view(columns@);
        let mut unused: Vec<String> = Vec::new();
        let mut i: usize = 0;
        assert(name_set(unused@) =~= column_names(all.take(0)));
        while i < columns.len()
            invariant
                i <= columns.len(),
                all == columns_view(columns@),
                name_set(unused@) == column_names(all.take(i as int)),
            decreases columns.len() - i,
        {
            let ghost before = name_set(unused@);
            insert_name(&mut unused, columns[i].0.as_str());
            proof {
                let shorter = all.take(i as int);
                let longer = all.take(i + 1);
                assert forall|name: Seq<char>|
                    column_names(longer).contains(name) <==> (column_names(shorter).contains(name)
                        || name == all[i as int].0) by {
                    if column_names(longer).contains(name) {
                        let k = choose|k: int| 0 <= k < longer.len() && (#[trigger] longer[k]).0
                            == name;
                        if k < i {
                            assert(shorter[k].0 == name);
                        }
                    }
                    if column_names(shorter).contains(name) {
                        let k = choose|k: int|
                            0 <= k < shorter.len() && (#[trigger] shorter[k]).0 == name;
                        assert(longer[k].0 == name);
                    }
                    if name == all[i as int].0 {
                        assert(longer[i as int].0 == name);
                    }
                }
                assert(name_set(unused@) =~= column_names(longer));
            }
            i += 1;
        }
        assert(all.take(columns.len() as int) =~= all);
        let r = Diagnostics {
            unused_db_columns: unused,
            mismatched_columns: Vec::new(),
            observed_json_attrs: Vec::new(),
            observed_primitive_attrs: Vec::new(),
            observed_unexpected_polymorph_attrs: Vec::new(),
            observed_relational_attrs: Vec::new(),
            observed_unexpected_complex_attrs: Vec::new(),
        };
        proof {
            assert(name_set(r.mismatched_columns@) =~= Set::empty());
            assert(name_set(r.observed_json_attrs@) =~= Set::empty());
            assert(name_set(r.observed_primitive_attrs@) =~= Set::empty());
            assert(name_set(r.observed_unexpected_polymorph_attrs@) =~= Set::empty());
            assert(name_set(r.observed_relational_attrs@) =~= Set::empty());
            assert(name_set(r.observed_unexpected_complex_attrs@) =~= Set::empty());
        }
        r
    }

    /// Notes what the row of an element tells about the columns.
    pub fn note_row(&mut self, columns: &Vec<(String, ColumnType)>, element: &Element)
        ensures
            final(self)@ == row_noted(old(self)@, columns_view(columns@), element@),
    {
        let ghost all = columns_view(columns@);
        let ghost start = self@;
        let mut i: usize = 0;
        assert(self@ =~= row_noted(start, all.take(0), element@)) by {
            assert(self@.unused_db_columns =~= row_noted(
                start,
                all.take(0),
                element@,
            ).unused_db_columns);
            assert(self@.mismatched_columns =~= row_noted(
                start,
                all.take(0),
                element@,
            ).mismatched_columns);
        }
        while i < columns.len()
            invariant
                i <= columns.len(),
                all == columns_view(columns@),
                self@ == row_noted(start, all.take(i as int), element@),
            decreases columns.len() - i,
        {
            let column_name = columns[i].0.as_str();
            let ghost before = self@;
            assert(all[i as int].0 == column_name@);
            let is_key = *column_name == *ELEMENT_PK_COL;
            let maybe_json_value = get_entry(&element.rest, column_name);
            if is_key || maybe_json_value.is_some() {
                remove_name(&mut self.unused_db_columns, column_name);
            }
            let complex = match maybe_json_value {
                Some(JsonValue::Array(_)) => true,
                Some(JsonValue::Object(_)) => true,
                _ => false,
            };
            if complex && !is_key && !is_polymorphic_prop(column_name) {
                insert_name(&mut self.mismatched_columns, column_name);
            }
            proof {
                let shorter = all.take(i as int);
                let longer = all.take(i + 1);
                assert forall|name: Seq<char>|
                    column_names(longer).contains(name) <==> (column_names(shorter).contains(name)
                        || name == all[i as int].0) by {
                    if column_names(longer).contains(name) {
                        let k = choose|k: int| 0 <= k < longer.len() && (#[trigger] longer[k]).0
                            == name;
                        if k < i {
                            assert(shorter[k].0 == name);
                        }
                    }
                    if column_names(shorter).contains(name) {
                        let k = choose|k: int|
                            0 <= k < shorter.len() && (#[trigger] shorter[k]).0 == name;
                        assert(longer[k].0 == name);
                    }
                    if name == all[i as int].0 {
                        assert(longer[i as int].0 == name);
                    }
                }
                let wanted = row_noted(start, longer, element@);
                assert(self@.unused_db_columns =~= wanted.unused_db_columns);
                assert(self@.mismatched_columns =~= wanted.mismatched_columns);
            }
            i += 1;
        }
        assert(all.take(columns.len() as int) =~= all);
    }

    /// Notes that an attribute of the given class was seen.
    pub fn note_attribute(&mut self, name: &str, class: &AttributeClass)
        ensures
            final(self)@ == attribute_noted(old(self)@, name@, class@),
    {
        insert_name(&mut self.observed_json_attrs, name);
        match class {
            AttributeClass::Empty => {},
            AttributeClass::Primitive => {
                insert_name(&mut self.observed_primitive_attrs, name);
            },
            AttributeClass::Relations(_) => {
                insert_name(&mut self.observed_relational_attrs, name);
            },
            AttributeClass::Extended(_) => {},
            AttributeClass::Complex => {
                if contains_text(&self.observed_primitive_attrs, name) && !is_polymorphic_prop(name) {
                    insert_name(&mut self.observed_unexpected_polymorph_attrs, name);
                } else {
                    insert_name(&mut self.observed_unexpected_complex_attrs, name);
                }
            },
        }
    }

    /// Notes the attributes of an element, one after another. It stops at
    /// an attribute that cannot be classified.
    pub fn note_attributes(
        &mut self,
        element: &Element,
        extended_columns: &Vec<(String, ColumnType)>,
    )
        ensures
            final(self)@ == attributes_noted(
                old(self)@,
                element@,
                columns_view(extended_columns@),
                0,
            ),
    {
        let ghost start = self@;
        let ghost columns = columns_view(extended_columns@);
        let mut i: usize = 0;
        while i < element.rest.len()
            invariant
                i <= element.rest.len(),
                element@.rest.len() == element.rest@.len(),
                columns == columns_view(extended_columns@),
                start == old(self)@,
                attributes_noted(start, element@, columns, 0) == attributes_noted(
                    self@,
                    element@,
                    columns,
                    i as int,
                ),
            decreases element.rest.len() - i,
        {
            let name = element.rest[i].0.as_str();
            let value = &element.rest[i].1;
            assert(element@.rest[i as int] == (name@, value@));
            match classify_attribute(name, value, extended_columns) {
                Ok(class) => {
                    self.note_attribute(name, &class);
                },
                Err(_) => {
                    return ;
                },
            }
            i += 1;
        }
    }

    /// The attributes that were not always understood.
    pub fn problematic_attributes(&self, columns: &Vec<(String, ColumnType)>) -> (r: Vec<String>)
        ensures
            name_set(r@) == problematic(self@, columns_view(columns@)),
    {
        let ghost all = views(self.observed_json_attrs@);
        let ghost wanted = problematic(self@, columns_view(columns@));
        let mut found: Vec<String> = Vec::new();
        let mut i: usize = 0;
        assert(name_set(found@) =~= Set::new(
            |name: Seq<char>| all.take(0).contains(name) && wanted.contains(name),
        ));
        while i < self.observed_json_attrs.len()
            invariant
                i <= self.observed_json_attrs.len(),
                all == views(self.observed_json_attrs@),
                wanted == problematic(self@, columns_view(columns@)),
                name_set(found@) == Set::new(
                    |name: Seq<char>| all.take(i as int).contains(name) && wanted.contains(name),
                ),
            decreases self.observed_json_attrs.len() - i,
        {
            let name = self.observed_json_attrs[i].as_str();
            assert(all[i as int] == name@);
            assert(all.contains(name@));
            let is_column = has_column(columns, name);
            let understood = contains_text(&self.observed_relational_attrs, name) && !contains_text(
                &self.observed_unexpected_complex_attrs,
                name,
            );
            let ghost before = name_set(found@);
            proof {
                assert(self@.observed_json_attrs.contains(name@));
                assert(wanted.contains(name@) == (!is_column && !understood));
            }
            if !is_column && !understood {
                insert_name(&mut found, name);
            }
            proof {
                assert(all.take(i + 1) =~= all.take(i as int).push(all[i as int]));
                assert forall|n: Seq<char>|
                    all.take(i + 1).contains(n) <==> all.take(i as int).contains(n) || n
                        == all[i as int] by {
                    all.take(i as int).lemma_push_to_set_commute(all[i as int]);
                    assert(all.take(i + 1).to_set().contains(n) <==> all.take(
                        i as int,
                    ).to_set().insert(all[i as int]).contains(n));
                }
                let after = Set::new(
                    |n: Seq<char>| all.take(i + 1).contains(n) && wanted.contains(n),
                );
                assert forall|n: Seq<char>| name_set(found@).contains(n) <==> after.contains(
                    n,
                ) by {
                    assert(before.contains(n) <==> all.take(i as int).contains(n)
                        && wanted.contains(n));
                    assert(all.take(i + 1).contains(n) <==> all.take(i as int).contains(n) || n
                        == all[i as int]);
                }
                assert(name_set(found@) =~= after);
            }
            i += 1;
        }
        proof {
            assert(all.take(all.len() as int) =~= all);
            assert(name_set(found@) =~= wanted);
        }
        found
    }

    /// The columns of the elements table that no element has filled.
    pub fn unused_db_columns(&self) -> (r: &Vec<String>)
        ensures
            name_set(r@) == self@.unused_db_columns,
    {
        &self.unused_db_columns
    }

    /// The columns for which an element held an array or an object.
    pub fn mismatched_columns(&self) -> (r: &Vec<String>)
        ensures
            name_set(r@) == self@.mismatched_columns,
    {
        &self.mismatched_columns
    }

    /// All attributes that were seen.
    pub fn observed_json_attrs(&self) -> (r: &Vec<String>)
        ensures
            name_set(r@) == self@.observed_json_attrs,
    {
        &self.observed_json_attrs
    }

    /// The attributes that were seen with a scalar value.
    pub fn observed_primitive_attrs(&self) -> (r: &Vec<String>)
        ensures
            name_set(r@) == self@.observed_primitive_attrs,
    {
        &self.observed_primitive_attrs
    }

    /// The attributes that were seen as a scalar first and as an array or
    /// object later.
    pub fn observed_unexpected_polymorph_attrs(&self) -> (r: &Vec<String>)
        ensures
            name_set(r@) == self@.observed_unexpected_polymorph_attrs,
    {
        &self.observed_unexpected_polymorph_attrs
    }

    /// The attributes that were seen as a relation.
    pub fn observed_relational_attrs(&self) -> (r: &Vec<String>)
        ensures
            name_set(r@) == self@.observed_relational_attrs,
    {
        &self.observed_relational_attrs
    }

    /// The attributes that were seen with an array or object without a
    /// place.
    pub fn observed_unexpected_complex_attrs(&self) -> (r: &Vec<String>)
        ensures
            name_set(r@) == self@.observed_unexpected_complex_attrs,
    {
        &self.observed_unexpected_complex_attrs
    }
}

fn has_column(columns: &Vec<(String, ColumnType)>, name: &str) -> (r: bool)
    ensures
        r == column_names(columns_view(columns@)).contains(name@),
{
    let ghost all = columns_view(columns@);
    let mut i: usize = 0;
    while i < columns.len()
        invariant
            i <= columns.len(),
            all == columns_view(columns@),
            forall|k: int| 0 <= k < i ==> (#[trigger] all[k]).0 != name@,
        decreases columns.len() - i,
    {
        if *columns[i].0.as_str() == *name {
            assert(all[i as int].0 == name@);
            return true;
        }
        i += 1;
    }
    false
}

} // verus!
