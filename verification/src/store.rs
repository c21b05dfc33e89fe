//! The relational store in memory: the rows of its three tables, and the
//! operations on them that an import needs.

use vstd::prelude::*;
use crate::import::{ColumnType, ColumnView, ExtendedProperty, ExtendedPropertyView};
use crate::import::{Relation, RelationView, RowView, SqlValue};
use crate::import::{columns_view, extended_view, relations_view, row_view};
use crate::config::{ELEMENT_PK_COL, POLYMORPHIC_PROP};
use crate::import::{declared_type, parse_column_type};
use crate::json_schema_to_sql::sql::{SqlRepresentation, SqlRepresentationView};
use crate::util::{contains_text, to_chars, views};
use vstd::string::StringExecFns;

verus! {

/// A store of three tables. The elements table has one row for each id, the
/// relations table holds every relation once, and the table of extended
/// properties holds its rows in the order in which they were added.
#[derive(Debug)]
pub struct Store {
    element_columns: Vec<(String, ColumnType)>,
    extended_columns: Vec<(String, ColumnType)>,
    relation_names: Vec<String>,
    elements: Vec<(String, Vec<SqlValue>)>,
    relations: Vec<Relation>,
    extended: Vec<ExtendedProperty>,
}

/// What a [`Store`] stands for: its layout and its rows.
pub ghost struct StoreView {
    /// The columns of the elements table, in order.
    pub element_columns: Seq<ColumnView>,
    /// The columns of the table of extended properties, in order.
    pub extended_columns: Seq<ColumnView>,
    /// The names that a relation may have.
    pub relation_names: Seq<Seq<char>>,
    /// The row of each element, by id.
    pub elements: Map<Seq<char>, RowView>,
    /// The relations.
    pub relations: Set<RelationView>,
    /// The extended properties, oldest first.
    pub extended: Seq<ExtendedPropertyView>,
}

/// What a list of rows with their ids stands for.
pub open spec fn keyed_rows_view(rows: Seq<(String, Vec<SqlValue>)>) -> Seq<(Seq<char>, RowView)> {
    Seq::new(rows.len(), |i: int| (rows[i].0@, row_view(rows[i].1@)))
}

/// The map from id to row that a list of rows makes: a later row replaces an
/// earlier one of the same id.
pub open spec fn rows_map(rows: Seq<(Seq<char>, RowView)>) -> Map<Seq<char>, RowView>
    decreases rows.len(),
{
    if rows.len() == 0 {
        Map::empty()
    } else {
        rows_map(rows.drop_last()).insert(rows.last().0, rows.last().1)
    }
}

/// The relations whose origin is not among `damage`.
pub open spec fn keeps_relation(damage: Set<Seq<char>>) -> spec_fn(RelationView) -> bool {
    |r: RelationView| !damage.contains(r.origin_id)
}

/// The extended properties whose element is not among `damage`.
pub open spec fn keeps_extended(damage: Set<Seq<char>>) -> spec_fn(ExtendedPropertyView) -> bool {
    |x: ExtendedPropertyView| !damage.contains(x.element_id)
}

/// An id is in the map exactly when some row has it.
pub proof fn lemma_rows_map_dom(rows: Seq<(Seq<char>, RowView)>, id: Seq<char>)
    ensures
        rows_map(rows).dom().contains(id) <==> exists|i: int|
            0 <= i < rows.len() && (#[trigger] rows[i]).0 == id,
    decreases rows.len(),
{
    if rows.len() > 0 {
        let front = rows.drop_last();
        lemma_rows_map_dom(front, id);
        if rows_map(rows).dom().contains(id) {
            if rows.last().0 == id {
                assert(rows[rows.len() - 1].0 == id);
            } else {
                let i = choose|i: int| 0 <= i < front.len() && (#[trigger] front[i]).0 == id;
                assert(rows[i].0 == id);
            }
        }
        if exists|i: int| 0 <= i < rows.len() && (#[trigger] rows[i]).0 == id {
            let i = choose|i: int| 0 <= i < rows.len() && (#[trigger] rows[i]).0 == id;
            if i < rows.len() - 1 {
                assert(front[i].0 == id);
            }
        }
    }
}

/// Taking out a row and putting a row of the same id in gives the map with
/// that row put in.
proof fn lemma_rows_map_replace(
    rows: Seq<(Seq<char>, RowView)>,
    j: int,
    id: Seq<char>,
    row: RowView,
)
    requires
        0 <= j < rows.len(),
        rows[j].0 == id,
    ensures
        rows_map(rows.remove(j)).insert(id, row) == rows_map(rows).insert(id, row),
    decreases rows.len(),
{
    let front = rows.drop_last();
    if j == rows.len() - 1 {
        assert(rows.remove(j) =~= front);
        assert(rows_map(front).insert(id, rows.last().1).insert(id, row) =~= rows_map(
            front,
        ).insert(id, row));
    } else {
        lemma_rows_map_replace(front, j, id, row);
        assert(rows.remove(j).drop_last() =~= front.remove(j));
        assert(rows.remove(j).last() == rows.last());
        let (last_id, last_row) = rows.last();
        assert(rows_map(rows.remove(j)) == rows_map(front.remove(j)).insert(last_id, last_row));
        if last_id == id {
            assert(rows_map(front.remove(j)).insert(last_id, last_row).insert(id, row)
                =~= rows_map(front.remove(j)).insert(id, row));
            assert(rows_map(front).insert(last_id, last_row).insert(id, row) =~= rows_map(
                front,
            ).insert(id, row));
        } else {
            assert(rows_map(front.remove(j)).insert(last_id, last_row).insert(id, row)
                =~= rows_map(front.remove(j)).insert(id, row).insert(last_id, last_row));
            assert(rows_map(front).insert(last_id, last_row).insert(id, row) =~= rows_map(
                front,
            ).insert(id, row).insert(last_id, last_row));
        }
    }
}

impl View for Store {
    type V = StoreView;

    closed spec fn view(&self) -> StoreView {
        StoreView {
            element_columns: columns_view(self.element_columns@),
            extended_columns: columns_view(self.extended_columns@),
            relation_names: views(self.relation_names@),
            elements: rows_map(keyed_rows_view(self.elements@)),
            relations: relations_view(self.relations@).to_set(),
            extended: extended_view(self.extended@),
        }
    }
}

impl Store {
    /// Whether no id has two rows and no relation is held twice.
    pub closed spec fn wf(&self) -> bool {
        &&& keyed_rows_view(self.elements@).map_values(|r: (Seq<char>, RowView)| r.0).no_duplicates()
        &&& relations_view(self.relations@).no_duplicates()
    }

    /// The number of rows of the elements table.
    pub closed spec fn element_rows(&self) -> nat {
        self.elements@.len()
    }

    /// The number of rows of the relations table.
    pub closed spec fn relation_rows(&self) -> nat {
        self.relations@.len()
    }

    /// An empty store with the given layout.
    pub fn new(
        element_columns: Vec<(String, ColumnType)>,
        extended_columns: Vec<(String, ColumnType)>,
        relation_names: Vec<String>,
    ) -> (store: Store)
        ensures
            store.wf(),
            store@ == (StoreView {
                element_columns: columns_view(element_columns@),
                extended_columns: columns_view(extended_columns@),
                relation_names: views(relation_names@),
                elements: Map::empty(),
                relations: Set::empty(),
                extended: Seq::empty(),
            }),
    {
        let store = Store {
            element_columns,
            extended_columns,
            relation_names,
            elements: Vec::new(),
            relations: Vec::new(),
            extended: Vec::new(),
        };
        proof {
            assert(keyed_rows_view(store.elements@) =~= Seq::empty());
            assert(relations_view(store.relations@) =~= Seq::empty());
            assert(relations_view(store.relations@).to_set() =~= Set::empty());
            assert(extended_view(store.extended@) =~= Seq::empty());
        }
        store
    }

    /// The columns of the elements table.
    pub fn element_columns(&self) -> (r: &Vec<(String, ColumnType)>)
        ensures
            columns_view(r@) == self@.element_columns,
    {
        &self.element_columns
    }

    /// The columns of the table of extended properties.
    pub fn extended_columns(&self) -> (r: &Vec<(String, ColumnType)>)
        ensures
            columns_view(r@) == self@.extended_columns,
    {
        &self.extended_columns
    }

    /// The names that a relation may have.
    pub fn relation_names(&self) -> (r: &Vec<String>)
        ensures
            views(r@) == self@.relation_names,
    {
        &self.relation_names
    }

    fn position_of(&self, id: &str) -> (r: usize)
        ensures
            r <= self.elements@.len(),
            r < self.elements@.len() ==> self.elements@[r as int].0@ == id@,
            r == self.elements@.len() ==> forall|k: int|
                0 <= k < self.elements@.len() ==> (#[trigger] self.elements@[k]).0@ != id@,
    {
        let mut i: usize = 0;
        while i < self.elements.len()
            invariant
                i <= self.elements@.len(),
                forall|k: int| 0 <= k < i ==> (#[trigger] self.elements@[k]).0@ != id@,
            decreases self.elements.len() - i,
        {
            if *self.elements[i].0.as_str() == *id {
                return i;
            }
            i += 1;
        }
        i
    }

    /// Tells whether the store holds an element of the given id.
    pub fn holds_element(&self, id: &str) -> (r: bool)
        ensures
            r == self@.elements.dom().contains(id@),
    {
        let position = self.position_of(id);
        proof {
            let rows = keyed_rows_view(self.elements@);
            lemma_rows_map_dom(rows, id@);
            if position < self.elements@.len() {
                assert(rows[position as int].0 == id@);
            } else {
                assert forall|i: int| 0 <= i < rows.len() implies (#[trigger] rows[i]).0
                    != id@ by {
                    assert(self.elements@[i].0@ != id@);
                }
            }
        }
        position < self.elements.len()
    }

    /// The row of the element of the given id.
    pub fn row_of(&self, id: &str) -> (r: Option<&Vec<SqlValue>>)
        requires
            self.wf(),
        ensures
            match r {
                Some(row) => self@.elements.dom().contains(id@) && row_view(row@)
                    == self@.elements[id@],
                None => !self@.elements.dom().contains(id@),
            },
    {
        let position = self.position_of(id);
        proof {
            let rows = keyed_rows_view(self.elements@);
            lemma_rows_map_dom(rows, id@);
            if position < self.elements@.len() {
                assert(rows[position as int].0 == id@);
                lemma_rows_map_unique(rows, position as int);
            } else {
                assert forall|i: int| 0 <= i < rows.len() implies (#[trigger] rows[i]).0
                    != id@ by {
                    assert(self.elements@[i].0@ != id@);
                }
            }
        }
        if position < self.elements.len() {
            Some(&self.elements[position].1)
        } else {
            None
        }
    }

    /// Puts in the row of an element. It takes the place of the row that the
    /// element had, if it had one.
    pub fn upsert(&mut self, id: String, row: Vec<SqlValue>)
        requires
            old(self).wf(),
        ensures
            final(self).wf(),
            final(self)@ == (StoreView {
                elements: old(self)@.elements.insert(id@, row_view(row@)),
                ..old(self)@
            }),
    {
        let ghost before = keyed_rows_view(self.elements@);
        let ghost ids = before.map_values(|r: (Seq<char>, RowView)| r.0);
        let position = self.position_of(id.as_str());
        if position < self.elements.len() {
            self.elements.remove(position);
            proof {
                lemma_rows_map_replace(before, position as int, id@, row_view(row@));
                assert(keyed_rows_view(self.elements@) =~= before.remove(position as int));
                assert(keyed_rows_view(self.elements@).map_values(|r: (Seq<char>, RowView)| r.0)
                    =~= ids.remove(position as int));
                assert(ids[position as int] == id@);
                assert forall|k: int| 0 <= k < ids.remove(position as int).len() implies (
                #[trigger] ids.remove(position as int)[k]) != id@ by {
                    if k < position {
                        assert(ids[k] != ids[position as int]);
                    } else {
                        assert(ids[k + 1] != ids[position as int]);
                    }
                }
            }
        } else {
            proof {
                assert forall|k: int| 0 <= k < ids.len() implies (#[trigger] ids[k]) != id@ by {
                    assert(self.elements@[k].0@ != id@);
                }
            }
        }
        let ghost middle = keyed_rows_view(self.elements@);
        let ghost middle_ids = middle.map_values(|r: (Seq<char>, RowView)| r.0);
        self.elements.push((id, row));
        proof {
            assert(keyed_rows_view(self.elements@) =~= middle.push((id@, row_view(row@))));
            assert(keyed_rows_view(self.elements@).drop_last() =~= middle);
            assert(keyed_rows_view(self.elements@).map_values(|r: (Seq<char>, RowView)| r.0)
                =~= middle_ids.push(id@));
        }
    }

    /// The relations, in the order in which they were added.
    pub fn relations(&self) -> (r: &Vec<Relation>)
        ensures
            relations_view(r@).to_set() == self@.relations,
            r@.len() == self.relation_rows(),
    {
        &self.relations
    }

    /// The extended properties, oldest first.
    pub fn extended(&self) -> (r: &Vec<ExtendedProperty>)
        ensures
            extended_view(r@) == self@.extended,
    {
        &self.extended
    }

    /// The rows of the elements table with their ids.
    pub fn elements(&self) -> (r: &Vec<(String, Vec<SqlValue>)>)
        ensures
            rows_map(keyed_rows_view(r@)) == self@.elements,
            r@.len() == self.element_rows(),
    {
        &self.elements
    }

    /// Tells whether the store holds the relation.
    pub fn holds_relation(&self, relation: &Relation) -> (r: bool)
        ensures
            r == self@.relations.contains(relation@),
    {
        let ghost all = relations_view(self.relations@);
        let mut i: usize = 0;
        while i < self.relations.len()
            invariant
                i <= self.relations@.len(),
                all == relations_view(self.relations@),
                forall|k: int| 0 <= k < i ==> all[k] != relation@,
            decreases self.relations.len() - i,
        {
            if self.relations[i] == *relation {
                assert(all[i as int] == relation@);
                return true;
            }
            i += 1;
        }
        false
    }

    /// Adds a relation, unless the store holds it already.
    pub fn add_relation(&mut self, relation: Relation)
        requires
            old(self).wf(),
        ensures
            final(self).wf(),
            final(self)@ == (StoreView {
                relations: old(self)@.relations.insert(relation@),
                ..old(self)@
            }),
    {
        let ghost before = relations_view(self.relations@);
        if self.holds_relation(&relation) {
            assert(before.to_set().insert(relation@) =~= before.to_set());
            return ;
        }
        self.relations.push(relation);
        proof {
            assert(relations_view(self.relations@) =~= before.push(relation@));
            assert(before.push(relation@).to_set() =~= before.to_set().insert(relation@)) by {
                assert forall|r: RelationView|
                    before.push(relation@).contains(r) <==> before.contains(r) || r
                        == relation@ by {
                    if before.push(relation@).contains(r) {
                        let k = choose|k: int|
                            0 <= k < before.push(relation@).len() && before.push(relation@)[k]
                                == r;
                        if k < before.len() {
                            assert(before[k] == r);
                        }
                    }
                    if before.contains(r) {
                        let k = choose|k: int| 0 <= k < before.len() && before[k] == r;
                        assert(before.push(relation@)[k] == r);
                    }
                    if r == relation@ {
                        assert(before.push(relation@)[before.len() as int] == r);
                    }
                }
            }
        }
    }

    /// Adds an extended property after those that the store holds.
    pub fn add_extended(&mut self, property: ExtendedProperty)
        requires
            old(self).wf(),
        ensures
            final(self).wf(),
            final(self)@ == (StoreView {
                extended: old(self)@.extended.push(property@),
                ..old(self)@
            }),
    {
        let ghost before = extended_view(self.extended@);
        self.extended.push(property);
        assert(extended_view(self.extended@) =~= before.push(property@));
    }

    /// Removes every relation that starts at one of the given elements, and
    /// every extended property of one of them.
    pub fn delete_stale(&mut self, damage: &Vec<String>)
        requires
            old(self).wf(),
        ensures
            final(self).wf(),
            final(self)@ == (StoreView {
                relations: old(self)@.relations.filter(keeps_relation(views(damage@).to_set())),
                extended: old(self)@.extended.filter(keeps_extended(views(damage@).to_set())),
                ..old(self)@
            }),
    {
        let ghost marked = views(damage@).to_set();
        let ghost old_relations = relations_view(self.relations@);
        let ghost old_extended = extended_view(self.extended@);
        let mut kept_relations: Vec<Relation> = Vec::new();
        // where each kept relation stood
        let ghost mut source: Seq<int> = Seq::empty();
        let mut i: usize = 0;
        while i < self.relations.len()
            invariant
                i <= self.relations@.len(),
                old_relations == relations_view(self.relations@),
                old_relations.no_duplicates(),
                marked == views(damage@).to_set(),
                source.len() == kept_relations@.len(),
                forall|k: int|
                    0 <= k < source.len() ==> 0 <= #[trigger] source[k] < i && old_relations[source[k]]
                        == kept_relations@[k]@ && !marked.contains(
                        old_relations[source[k]].origin_id,
                    ),
                forall|a: int, b: int|
                    0 <= a < b < source.len() ==> #[trigger] source[a] < #[trigger] source[b],
                forall|j: int|
                    0 <= j < i && !marked.contains((#[trigger] old_relations[j]).origin_id)
                        ==> relations_view(kept_relations@).contains(old_relations[j]),
            decreases self.relations.len() - i,
        {
            let ghost kept_before = relations_view(kept_relations@);
            if !contains_text(damage, self.relations[i].origin_id.as_str()) {
                let relation = self.relations[i].clone();
                kept_relations.push(relation);
                proof {
                    source = source.push(i as int);
                    let kept_now = relations_view(kept_relations@);
                    assert(kept_now =~= kept_before.push(old_relations[i as int]));
                    assert(kept_now[kept_before.len() as int] == old_relations[i as int]);
                    assert forall|j: int|
                        0 <= j < i + 1 && !marked.contains(
                            (#[trigger] old_relations[j]).origin_id,
                        ) implies kept_now.contains(old_relations[j]) by {
                        if j < i {
                            assert(kept_before.contains(old_relations[j]));
                            let k = choose|k: int|
                                0 <= k < kept_before.len() && kept_before[k] == old_relations[j];
                            assert(kept_now[k] == old_relations[j]);
                        }
                    }
                }
            }
            i += 1;
        }
        proof {
            let kept = relations_view(kept_relations@);
            assert forall|a: int, b: int|
                0 <= a < kept.len() && 0 <= b < kept.len() && a != b implies kept[a]
                != kept[b] by {
                assert(kept[a] == old_relations[source[a]]);
                assert(kept[b] == old_relations[source[b]]);
                if a < b {
                    assert(source[a] < source[b]);
                } else {
                    assert(source[b] < source[a]);
                }
            }
        }
        let mut kept_extended: Vec<ExtendedProperty> = Vec::new();
        let mut i: usize = 0;
        assert(extended_view(kept_extended@) =~= old_extended.take(0).filter(
            keeps_extended(marked),
        )) by {
            reveal(Seq::filter);
        }
        while i < self.extended.len()
            invariant
                i <= self.extended@.len(),
                old_extended == extended_view(self.extended@),
                marked == views(damage@).to_set(),
                extended_view(kept_extended@) == old_extended.take(i as int).filter(
                    keeps_extended(marked),
                ),
            decreases self.extended.len() - i,
        {
            let ghost kept_before = extended_view(kept_extended@);
            proof {
                assert(old_extended.take(i + 1) =~= old_extended.take(i as int).push(
                    old_extended[i as int],
                ));
                old_extended.take(i as int).lemma_filter_push(
                    old_extended[i as int],
                    keeps_extended(marked),
                );
            }
            if !contains_text(damage, self.extended[i].element_id.as_str()) {
                let property = self.extended[i].clone();
                kept_extended.push(property);
                assert(extended_view(kept_extended@) =~= kept_before.push(
                    old_extended[i as int],
                ));
            }
            i += 1;
        }
        proof {
            assert(old_extended.take(old_extended.len() as int) =~= old_extended);
            let kept = relations_view(kept_relations@);
            assert(kept.to_set() =~= old_relations.to_set().filter(keeps_relation(marked))) by {
                assert forall|r: RelationView|
                    kept.contains(r) <==> old_relations.contains(r) && !marked.contains(
                        r.origin_id,
                    ) by {
                    if kept.contains(r) {
                        let k = choose|k: int| 0 <= k < kept.len() && kept[k] == r;
                        assert(kept[k] == kept_relations@[k]@);
                        assert(old_relations[source[k]] == r);
                    }
                    if old_relations.contains(r) && !marked.contains(r.origin_id) {
                        let j = choose|j: int|
                            0 <= j < old_relations.len() && old_relations[j] == r;
                        assert(kept.contains(old_relations[j]));
                    }
                }
            }
        }
        self.relations = kept_relations;
        self.extended = kept_extended;
    }
}

/// The position of the first space from `from` on, or the length of the text
/// if there is none.
pub open spec fn first_space(text: Seq<char>, from: int) -> int
    decreases text.len() - from,
{
    if from < 0 || from >= text.len() || text[from] == ' ' {
        from
    } else {
        first_space(text, from + 1)
    }
}

/// The name of the type in the definition of a column: what stands before
/// the first space.
pub open spec fn declared_word(ty: Seq<char>) -> Seq<char> {
    ty.take(first_space(ty, 0))
}

/// The column of the elements table that a representation gives, where it
/// is a column of a known type.
pub open spec fn element_column_of(entry: (Seq<char>, SqlRepresentationView)) -> Option<
    ColumnView,
> {
    match entry.1 {
        SqlRepresentationView::Column { ty, .. } => match declared_type(declared_word(ty)) {
            Some(column_type) => Some((entry.0, column_type)),
            None => None,
        },
        _ => None,
    }
}

/// The column of the table of extended properties that a representation
/// gives.
pub open spec fn extended_column_of(entry: (Seq<char>, SqlRepresentationView)) -> Option<
    ColumnView,
> {
    match entry.1 {
        SqlRepresentationView::ExtendedPropertiesTable => Some((entry.0, ColumnType::Text)),
        _ => None,
    }
}

/// Whether an entry is a column whose type is not known.
pub open spec fn is_unknown_column(entry: (Seq<char>, SqlRepresentationView)) -> bool {
    entry.1 is Column && element_column_of(entry) is None
}

/// The empty store that the script for the given representations creates,
/// unless one of the columns is of a type that is not known.
pub open spec fn schema_store(columns: Seq<(Seq<char>, SqlRepresentationView)>) -> Option<
    StoreView,
> {
    if exists|i: int| 0 <= i < columns.len() && is_unknown_column(#[trigger] columns[i]) {
        None
    } else {
        Some(
            StoreView {
                element_columns: columns.filter_map(
                    |e: (Seq<char>, SqlRepresentationView)| element_column_of(e),
                ),
                extended_columns: seq![(ELEMENT_PK_COL@, ColumnType::Text)] + columns.filter_map(
                    |e: (Seq<char>, SqlRepresentationView)| extended_column_of(e),
                ),
                relation_names: crate::json_schema_to_sql::sql::allowed_relation_names(columns),
                elements: Map::empty(),
                relations: Set::empty(),
                extended: Seq::empty(),
            },
        )
    }
}

fn declared_name(ty: &str) -> (r: String)
    ensures
        r@ == declared_word(ty@),
{
    let chars = to_chars(ty);
    let mut name = String::new();
    let mut i: usize = 0;
    while i < chars.len() && chars[i] != ' '
        invariant
            i <= chars.len(),
            chars@ == ty@,
            name@ == ty@.take(i as int),
            first_space(ty@, 0) == first_space(ty@, i as int),
        decreases chars.len() - i,
    {
        name.push(chars[i]);
        assert(ty@.take(i + 1) =~= ty@.take(i as int).push(ty@[i as int]));
        i += 1;
    }
    name
}

/// Makes the empty store that the script for the given representations
/// creates. There is none where a column is of a type that is not known.
pub fn store_for_schema(columns: &Vec<(String, SqlRepresentation)>) -> (r: Option<Store>)
    ensures
        match schema_store(crate::json_schema_to_sql::sql::columns_view(columns@)) {
            Some(layout) => r is Some && r->0@ == layout && r->0.wf(),
            None => r is None,
        },
{
    let ghost all = crate::json_schema_to_sql::sql::columns_view(columns@);
    let mut element_columns: Vec<(String, ColumnType)> = Vec::new();
    let mut extended_columns: Vec<(String, ColumnType)> = Vec::new();
    let mut relation_names: Vec<String> = Vec::new();
    extended_columns.push((String::from_str(ELEMENT_PK_COL), ColumnType::Text));
    assert(columns_view(element_columns@) =~= Seq::empty());
    assert(columns_view(extended_columns@) =~= seq![(ELEMENT_PK_COL@, ColumnType::Text)]);
    assert(views(relation_names@) =~= Seq::empty());
    let mut i: usize = 0;
    while i < columns.len()
        invariant
            i <= columns.len(),
            all == crate::json_schema_to_sql::sql::columns_view(columns@),
            forall|k: int| 0 <= k < i ==> !is_unknown_column(#[trigger] all[k]),
            columns_view(element_columns@) == all.take(i as int).filter_map(
                |e: (Seq<char>, SqlRepresentationView)| element_column_of(e),
            ),
            columns_view(extended_columns@) == seq![(ELEMENT_PK_COL@, ColumnType::Text)]
                + all.take(i as int).filter_map(
                |e: (Seq<char>, SqlRepresentationView)| extended_column_of(e),
            ),
            views(relation_names@) == all.take(i as int).filter_map(
                |e: (Seq<char>, SqlRepresentationView)|
                    crate::json_schema_to_sql::sql::relation_name(e),
            ),
        decreases columns.len() - i,
    {
        proof {
            all.lemma_filter_map_take_succ(
                |e: (Seq<char>, SqlRepresentationView)| element_column_of(e),
                i as int,
            );
            all.lemma_filter_map_take_succ(
                |e: (Seq<char>, SqlRepresentationView)| extended_column_of(e),
                i as int,
            );
            all.lemma_filter_map_take_succ(
                |e: (Seq<char>, SqlRepresentationView)|
                    crate::json_schema_to_sql::sql::relation_name(e),
                i as int,
            );
        }
        let name = columns[i].0.as_str();
        match &columns[i].1 {
            SqlRepresentation::Column { ty, .. } => {
                let declared = declared_name(ty.as_str());
                match parse_column_type(declared.as_str()) {
                    Some(column_type) => {
                        let ghost before = columns_view(element_columns@);
                        element_columns.push((String::from_str(name), column_type));
                        assert(columns_view(element_columns@) =~= before + seq![
                            (name@, column_type),
                        ]);
                    },
                    None => {
                        assert(is_unknown_column(all[i as int]));
                        return None;
                    },
                }
            },
            SqlRepresentation::RelationsTable => {
                let ghost before = views(relation_names@);
                relation_names.push(String::from_str(name));
                assert(views(relation_names@) =~= before + seq![name@]);
            },
            SqlRepresentation::ExtendedPropertiesTable => {
                let ghost before = columns_view(extended_columns@);
                extended_columns.push((String::from_str(name), ColumnType::Text));
                assert(columns_view(extended_columns@) =~= before + seq![
                    (name@, ColumnType::Text),
                ]);
            },
        }
        i += 1;
    }
    proof {
        assert(all.take(columns.len() as int) =~= all);
    }
    let ghost found = views(relation_names@);
    relation_names.push(String::from_str(POLYMORPHIC_PROP));
    assert(views(relation_names@) =~= found + seq![POLYMORPHIC_PROP@]);
    Some(Store::new(element_columns, extended_columns, relation_names))
}

/// Where ids are unique, the map holds each row under its id.
proof fn lemma_rows_map_unique(rows: Seq<(Seq<char>, RowView)>, j: int)
    requires
        0 <= j < rows.len(),
        rows.map_values(|r: (Seq<char>, RowView)| r.0).no_duplicates(),
    ensures
        rows_map(rows)[rows[j].0] == rows[j].1,
    decreases rows.len(),
{
    let ids = rows.map_values(|r: (Seq<char>, RowView)| r.0);
    let front = rows.drop_last();
    if j < rows.len() - 1 {
        assert(front.map_values(|r: (Seq<char>, RowView)| r.0) =~= ids.drop_last());
        lemma_rows_map_unique(front, j);
        assert(ids[j] != ids[rows.len() - 1]);
        lemma_rows_map_dom(front, rows[j].0);
        assert(front[j].0 == rows[j].0);
    }
}

} // verus!
