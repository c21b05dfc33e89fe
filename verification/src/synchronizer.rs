//! The import of a batch of elements into the store, all or nothing.
//!
//! Every element of the batch gets its row, which replaces the row that it
//! had. The relations and extended properties that the elements of the batch
//! had before are removed, and those that they bring now are put in. Where
//! anything fails the store stays as it was.

use vstd::prelude::*;
use crate::import::{ColumnView, Edges, EdgesView, Element, ElementView};
use crate::import::{ImportError, ImporterConfiguration, RelationView};
use crate::import::{RowView, SqlValue};
use crate::import::{batch_edges, batch_edges_from, element_edges, element_row};
use crate::import::{element_row_view, elements_view, extended_view, no_edges, relations_view};
use crate::import::ExtendedPropertyView;
use crate::import::{attribute_edges, element_edges_from};
use crate::import::{row_fault, row_view};
use crate::store::{Store, StoreView, keeps_extended, keeps_relation};
use crate::fetch::{check_for_conflicting_elements, conflicting, lemma_conflicts_refused};
use crate::util::stream_json::{decoded, decoded_from, lemma_step_moves};
use crate::util::CloneableJsonArrayStreamIterator;
use crate::util::{contains_text, views};

verus! {

/// A step of an import into a store that is not in memory.
#[derive(Debug, Clone, Copy, PartialEq, Eq, Structural)]
pub enum ImportStep {
    /// Open the transaction and the list of touched elements.
    Begin,
    /// First pass: put in the row of every element and note its id.
    InsertElements,
    /// Remove the relations and extended properties of the noted elements.
    DeleteStale,
    /// Second pass: put in the relations and extended properties.
    InsertEdges,
    /// Close the transaction and keep what was done.
    Commit,
    /// Undo everything that was done since the transaction was opened.
    RollBack,
    /// Nothing more to do: the import has succeeded.
    Succeeded,
    /// Nothing more to do: the import has failed and the store is as it was.
    Failed,
}

/// The step that follows a step: the steps come in their order while they
/// succeed, and the first one that fails is followed by the roll back.
pub open spec fn following(step: ImportStep, succeeded: bool) -> ImportStep {
    match step {
        ImportStep::Succeeded => ImportStep::Succeeded,
        ImportStep::Failed => ImportStep::Failed,
        ImportStep::RollBack => ImportStep::Failed,
        _ => if !succeeded {
            ImportStep::RollBack
        } else {
            match step {
                ImportStep::Begin => ImportStep::InsertElements,
                ImportStep::InsertElements => ImportStep::DeleteStale,
                ImportStep::DeleteStale => ImportStep::InsertEdges,
                ImportStep::InsertEdges => ImportStep::Commit,
                _ => ImportStep::Succeeded,
            }
        },
    }
}

/// Tells which step follows.
pub fn next_step(step: ImportStep, succeeded: bool) -> (r: ImportStep)
    ensures
        r == following(step, succeeded),
{
    match step {
        ImportStep::Succeeded => ImportStep::Succeeded,
        ImportStep::Failed => ImportStep::Failed,
        ImportStep::RollBack => ImportStep::Failed,
        _ => if !succeeded {
            ImportStep::RollBack
        } else {
            match step {
                ImportStep::Begin => ImportStep::InsertElements,
                ImportStep::InsertElements => ImportStep::DeleteStale,
                ImportStep::DeleteStale => ImportStep::InsertEdges,
                ImportStep::InsertEdges => ImportStep::Commit,
                _ => ImportStep::Succeeded,
            }
        },
    }
}

/// An import that has failed at any step ends as failed, and never as
/// succeeded: whatever follows the failure.
pub proof fn lemma_failure_rolls_back(step: ImportStep, later: bool)
    requires
        step != ImportStep::Succeeded,
    ensures
        following(following(following(step, false), later), later) == ImportStep::Failed,
{
}

/// The first failure among the rows of the elements from position `from` on.
pub open spec fn rows_fault(columns: Seq<ColumnView>, batch: Seq<ElementView>, from: int)
    -> Option<ImportError>
    decreases batch.len() - from,
{
    if from < 0 || from >= batch.len() {
        None
    } else {
        match row_fault(columns, batch[from], 0) {
            Some(e) => Some(e),
            None => rows_fault(columns, batch, from + 1),
        }
    }
}

/// The rows of a batch by id. Where an id occurs twice the later element
/// gives the row.
pub open spec fn batch_rows(columns: Seq<ColumnView>, batch: Seq<ElementView>) -> Map<
    Seq<char>,
    RowView,
>
    decreases batch.len(),
{
    if batch.len() == 0 {
        Map::empty()
    } else {
        batch_rows(columns, batch.drop_last()).insert(
            batch.last().id,
            element_row_view(columns, batch.last()),
        )
    }
}

/// The ids of the elements of a batch, in order.
pub open spec fn id_list(batch: Seq<ElementView>) -> Seq<Seq<char>> {
    Seq::new(batch.len(), |i: int| batch[i].id)
}

/// The ids that a batch touches.
pub open spec fn batch_ids(batch: Seq<ElementView>) -> Set<Seq<char>> {
    id_list(batch).to_set()
}

/// Whether some relation points at an element that is not there.
pub open spec fn dangling(relations: Seq<RelationView>, elements: Map<Seq<char>, RowView>) -> bool {
    exists|i: int|
        0 <= i < relations.len() && !elements.dom().contains((#[trigger] relations[i]).target_id)
}

/// What the store holds after a batch has been imported with success: the
/// rows of the batch over those that were there, the relations and extended
/// properties of elements outside the batch, and those that the batch brings.
pub open spec fn merged(s: StoreView, batch: Seq<ElementView>, edges: EdgesView) -> StoreView {
    StoreView {
        elements: s.elements.union_prefer_right(batch_rows(s.element_columns, batch)),
        relations: s.relations.filter(keeps_relation(batch_ids(batch))).union(
            edges.relations.to_set(),
        ),
        extended: s.extended.filter(keeps_extended(batch_ids(batch))) + edges.extended,
        ..s
    }
}

/// The outcome of importing a batch into a store.
///
/// The import fails with the first row that cannot be built, else with the
/// first attribute whose edges cannot be built, else, where foreign keys are
/// checked, if a relation of the batch points at an element that is in
/// neither the store nor the batch.
pub open spec fn synchronized(
    s: StoreView,
    batch: Seq<ElementView>,
    config: ImporterConfiguration,
) -> Result<StoreView, ImportError> {
    match rows_fault(s.element_columns, batch, 0) {
        Some(e) => Err(e),
        None => match batch_edges(batch, s.extended_columns, s.relation_names) {
            Err(e) => Err(e),
            Ok(edges) => {
                if !config.disable_fk_checks && dangling(
                    edges.relations,
                    merged(s, batch, edges).elements,
                ) {
                    Err(ImportError::MissingElement)
                } else {
                    Ok(merged(s, batch, edges))
                }
            },
        },
    }
}

/// The rows of a batch are those of its ids.
pub proof fn lemma_batch_rows_dom(columns: Seq<ColumnView>, batch: Seq<ElementView>)
    ensures
        batch_rows(columns, batch).dom() == batch_ids(batch),
    decreases batch.len(),
{
    if batch.len() == 0 {
        assert(batch_rows(columns, batch).dom() =~= batch_ids(batch));
    } else {
        let front = batch.drop_last();
        lemma_batch_rows_dom(columns, front);
        assert(id_list(batch) =~= id_list(front).push(batch.last().id));
        id_list(front).lemma_push_to_set_commute(batch.last().id);
        assert(batch_rows(columns, batch).dom() =~= batch_ids(batch));
    }
}

/// Whether every edge belongs to one of the given elements.
pub open spec fn edges_within(edges: EdgesView, ids: Set<Seq<char>>) -> bool {
    &&& forall|i: int|
        0 <= i < edges.relations.len() ==> ids.contains((#[trigger] edges.relations[i]).origin_id)
    &&& forall|i: int|
        0 <= i < edges.extended.len() ==> ids.contains((#[trigger] edges.extended[i]).element_id)
}

proof fn lemma_element_edges_within(
    element: ElementView,
    extended_columns: Seq<ColumnView>,
    relation_names: Seq<Seq<char>>,
    from: int,
    acc: EdgesView,
    ids: Set<Seq<char>>,
)
    requires
        0 <= from,
        edges_within(acc, ids),
        ids.contains(element.id),
        element_edges_from(element, extended_columns, relation_names, from, acc) is Ok,
    ensures
        edges_within(
            element_edges_from(element, extended_columns, relation_names, from, acc)->Ok_0,
            ids,
        ),
    decreases element.rest.len() - from,
{
    if from < element.rest.len() {
        let next = attribute_edges(
            element.id,
            element.rest[from].0,
            element.rest[from].1,
            extended_columns,
            relation_names,
            acc,
        )->Ok_0;
        assert(edges_within(next, ids)) by {
            assert forall|i: int| 0 <= i < next.relations.len() implies ids.contains(
                (#[trigger] next.relations[i]).origin_id,
            ) by {
                if i < acc.relations.len() {
                    assert(next.relations[i] == acc.relations[i]);
                }
            }
            assert forall|i: int| 0 <= i < next.extended.len() implies ids.contains(
                (#[trigger] next.extended[i]).element_id,
            ) by {
                if i < acc.extended.len() {
                    assert(next.extended[i] == acc.extended[i]);
                }
            }
        }
        lemma_element_edges_within(
            element,
            extended_columns,
            relation_names,
            from + 1,
            next,
            ids,
        );
    }
}

proof fn lemma_batch_edges_within(
    batch: Seq<ElementView>,
    extended_columns: Seq<ColumnView>,
    relation_names: Seq<Seq<char>>,
    from: int,
    acc: EdgesView,
)
    requires
        0 <= from,
        edges_within(acc, batch_ids(batch)),
        batch_edges_from(batch, extended_columns, relation_names, from, acc) is Ok,
    ensures
        edges_within(
            batch_edges_from(batch, extended_columns, relation_names, from, acc)->Ok_0,
            batch_ids(batch),
        ),
    decreases batch.len() - from,
{
    if from < batch.len() {
        assert(id_list(batch)[from] == batch[from].id);
        lemma_element_edges_within(
            batch[from],
            extended_columns,
            relation_names,
            0,
            acc,
            batch_ids(batch),
        );
        let next = element_edges_from(batch[from], extended_columns, relation_names, 0, acc)->Ok_0;
        lemma_batch_edges_within(batch, extended_columns, relation_names, from + 1, next);
    }
}

/// Every edge of a batch starts at an element of the batch.
pub proof fn lemma_edges_of_batch(
    batch: Seq<ElementView>,
    extended_columns: Seq<ColumnView>,
    relation_names: Seq<Seq<char>>,
)
    requires
        batch_edges(batch, extended_columns, relation_names) is Ok,
    ensures
        edges_within(batch_edges(batch, extended_columns, relation_names)->Ok_0, batch_ids(batch)),
{
    lemma_batch_edges_within(batch, extended_columns, relation_names, 0, no_edges());
}

proof fn lemma_filter_keeps_all<A>(s: Seq<A>, keep: spec_fn(A) -> bool)
    requires
        forall|i: int| 0 <= i < s.len() ==> keep(#[trigger] s[i]),
    ensures
        s.filter(keep) == s,
    decreases s.len(),
{
    reveal(Seq::filter);
    if s.len() > 0 {
        let front = s.drop_last();
        assert forall|i: int| 0 <= i < front.len() implies keep(#[trigger] front[i]) by {
            assert(front[i] == s[i]);
        }
        lemma_filter_keeps_all(front, keep);
        assert(front.push(s.last()) =~= s);
    }
}

proof fn lemma_filter_keeps_none<A>(s: Seq<A>, keep: spec_fn(A) -> bool)
    requires
        forall|i: int| 0 <= i < s.len() ==> !keep(#[trigger] s[i]),
    ensures
        s.filter(keep) == Seq::<A>::empty(),
    decreases s.len(),
{
    reveal(Seq::filter);
    if s.len() > 0 {
        let front = s.drop_last();
        assert forall|i: int| 0 <= i < front.len() implies !keep(#[trigger] front[i]) by {
            assert(front[i] == s[i]);
        }
        lemma_filter_keeps_none(front, keep);
    }
}

/// Importing a batch once more changes nothing: where the import of a batch
/// succeeds, the import of the same batch into the store that it left
/// succeeds too and leaves the same store.
pub proof fn lemma_import_idempotent(
    s: StoreView,
    batch: Seq<ElementView>,
    config: ImporterConfiguration,
)
    requires
        synchronized(s, batch, config) is Ok,
    ensures
        synchronized(synchronized(s, batch, config)->Ok_0, batch, config) == synchronized(
            s,
            batch,
            config,
        ),
{
    let once = synchronized(s, batch, config)->Ok_0;
    let edges = batch_edges(batch, s.extended_columns, s.relation_names)->Ok_0;
    let ids = batch_ids(batch);
    assert(once == merged(s, batch, edges));
    lemma_edges_of_batch(batch, s.extended_columns, s.relation_names);
    let twice = merged(once, batch, edges);
    assert(twice.elements =~= once.elements);
    assert(twice.relations =~= once.relations);
    assert(twice.extended == once.extended) by {
        let kept = s.extended.filter(keeps_extended(ids));
        Seq::filter_distributes_over_add(kept, edges.extended, keeps_extended(ids));
        assert forall|i: int| 0 <= i < kept.len() implies keeps_extended(ids)(
            #[trigger] kept[i],
        ) by {
            s.extended.lemma_filter_pred(keeps_extended(ids), i);
        }
        lemma_filter_keeps_all(kept, keeps_extended(ids));
        lemma_filter_keeps_none(edges.extended, keeps_extended(ids));
        assert(kept + Seq::<ExtendedPropertyView>::empty() =~= kept);
    }
}

/// An import supersedes what the elements of the batch had: after it, a
/// relation that starts at an element of the batch is in the store exactly
/// when the batch brings it, and the extended properties of the elements of
/// the batch are those that the batch brings.
pub proof fn lemma_import_supersedes(
    s: StoreView,
    batch: Seq<ElementView>,
    config: ImporterConfiguration,
    relation: RelationView,
)
    requires
        synchronized(s, batch, config) is Ok,
        batch_ids(batch).contains(relation.origin_id),
    ensures
        synchronized(s, batch, config)->Ok_0.relations.contains(relation) <==> batch_edges(
            batch,
            s.extended_columns,
            s.relation_names,
        )->Ok_0.relations.contains(relation),
        synchronized(s, batch, config)->Ok_0.extended.filter(
            |x: ExtendedPropertyView| batch_ids(batch).contains(x.element_id),
        ) == batch_edges(batch, s.extended_columns, s.relation_names)->Ok_0.extended,
{
    let edges = batch_edges(batch, s.extended_columns, s.relation_names)->Ok_0;
    let ids = batch_ids(batch);
    lemma_edges_of_batch(batch, s.extended_columns, s.relation_names);
    let touched = |x: ExtendedPropertyView| batch_ids(batch).contains(x.element_id);
    let kept = s.extended.filter(keeps_extended(ids));
    Seq::filter_distributes_over_add(kept, edges.extended, touched);
    assert forall|i: int| 0 <= i < kept.len() implies !touched(#[trigger] kept[i]) by {
        s.extended.lemma_filter_pred(keeps_extended(ids), i);
    }
    lemma_filter_keeps_none(kept, touched);
    lemma_filter_keeps_all(edges.extended, touched);
    assert(Seq::<ExtendedPropertyView>::empty() + edges.extended =~= edges.extended);
}

/// An import leaves alone what belongs to elements outside the batch: their
/// rows, the relations that start at them, and their extended properties.
pub proof fn lemma_import_frame(
    s: StoreView,
    batch: Seq<ElementView>,
    config: ImporterConfiguration,
)
    requires
        synchronized(s, batch, config) is Ok,
    ensures
        ({
            let after = synchronized(s, batch, config)->Ok_0;
            &&& forall|id: Seq<char>|
                !batch_ids(batch).contains(id) ==> (after.elements.dom().contains(id)
                    <==> s.elements.dom().contains(id))
            &&& forall|id: Seq<char>|
                !batch_ids(batch).contains(id) && s.elements.dom().contains(id)
                    ==> after.elements[id] == s.elements[id]
            &&& forall|r: RelationView|
                !batch_ids(batch).contains(r.origin_id) ==> (after.relations.contains(r)
                    <==> s.relations.contains(r))
            &&& after.extended.filter(keeps_extended(batch_ids(batch))) == s.extended.filter(
                keeps_extended(batch_ids(batch)),
            )
        }),
{
    let edges = batch_edges(batch, s.extended_columns, s.relation_names)->Ok_0;
    let ids = batch_ids(batch);
    lemma_edges_of_batch(batch, s.extended_columns, s.relation_names);
    lemma_batch_rows_dom(s.element_columns, batch);
    let after = synchronized(s, batch, config)->Ok_0;
    assert forall|r: RelationView| !ids.contains(r.origin_id) implies (after.relations.contains(r)
        <==> s.relations.contains(r)) by {
        if edges.relations.to_set().contains(r) {
            let i = choose|i: int| 0 <= i < edges.relations.len() && edges.relations[i] == r;
            assert(ids.contains(edges.relations[i].origin_id));
        }
    }
    let kept = s.extended.filter(keeps_extended(ids));
    Seq::filter_distributes_over_add(kept, edges.extended, keeps_extended(ids));
    assert forall|i: int| 0 <= i < kept.len() implies keeps_extended(ids)(#[trigger] kept[i]) by {
        s.extended.lemma_filter_pred(keeps_extended(ids), i);
    }
    lemma_filter_keeps_all(kept, keeps_extended(ids));
    lemma_filter_keeps_none(edges.extended, keeps_extended(ids));
    assert(kept + Seq::<ExtendedPropertyView>::empty() =~= kept);
}

/// Whether every relation starts and ends at an element of the store, and
/// every extended property belongs to one.
pub open spec fn referential(s: StoreView) -> bool {
    &&& forall|r: RelationView|
        s.relations.contains(r) ==> s.elements.dom().contains(r.origin_id)
            && s.elements.dom().contains(r.target_id)
    &&& forall|i: int|
        0 <= i < s.extended.len() ==> s.elements.dom().contains(
            (#[trigger] s.extended[i]).element_id,
        )
}

/// An import that checks foreign keys keeps the references whole: where
/// every relation and every extended property of the store belonged to
/// elements of the store before, they do so after.
pub proof fn lemma_import_keeps_references(
    s: StoreView,
    batch: Seq<ElementView>,
    config: ImporterConfiguration,
)
    requires
        referential(s),
        !config.disable_fk_checks,
        synchronized(s, batch, config) is Ok,
    ensures
        referential(synchronized(s, batch, config)->Ok_0),
{
    let edges = batch_edges(batch, s.extended_columns, s.relation_names)->Ok_0;
    let ids = batch_ids(batch);
    let after = synchronized(s, batch, config)->Ok_0;
    lemma_edges_of_batch(batch, s.extended_columns, s.relation_names);
    lemma_batch_rows_dom(s.element_columns, batch);
    assert forall|r: RelationView| after.relations.contains(r) implies after.elements.dom().contains(
        r.origin_id,
    ) && after.elements.dom().contains(r.target_id) by {
        if edges.relations.to_set().contains(r) {
            let i = choose|i: int| 0 <= i < edges.relations.len() && edges.relations[i] == r;
            assert(ids.contains(edges.relations[i].origin_id));
            assert(after.elements.dom().contains(edges.relations[i].target_id));
        }
    }
    let kept = s.extended.filter(keeps_extended(ids));
    assert forall|i: int| 0 <= i < after.extended.len() implies after.elements.dom().contains(
        (#[trigger] after.extended[i]).element_id,
    ) by {
        if i < kept.len() {
            assert(after.extended[i] == kept[i]);
            assert(kept.contains(kept[i]));
            s.extended.lemma_filter_contains_rev(keeps_extended(ids), kept[i]);
            let j = choose|j: int| 0 <= j < s.extended.len() && s.extended[j] == kept[i];
            assert(s.elements.dom().contains(s.extended[j].element_id));
        } else {
            assert(after.extended[i] == edges.extended[i - kept.len()]);
            assert(ids.contains(edges.extended[i - kept.len()].element_id));
        }
    }
}

fn clone_row(row: &Vec<SqlValue>) -> (r: Vec<SqlValue>)
    ensures
        row_view(r@) == row_view(row@),
{
    let mut out: Vec<SqlValue> = Vec::new();
    let mut i: usize = 0;
    while i < row.len()
        invariant
            i <= row.len(),
            out@.len() == i,
            forall|k: int| 0 <= k < i ==> out@[k]@ == row@[k]@,
        decreases row.len() - i,
    {
        out.push(row[i].clone());
        i += 1;
    }
    assert(row_view(out@) =~= row_view(row@));
    out
}

/// The changes that a batch asks for, built before any of them is made.
struct Journal {
    ids: Vec<String>,
    rows: Vec<Vec<SqlValue>>,
    edges: Edges,
}

impl Journal {
    spec fn holds(&self, s: StoreView, batch: Seq<ElementView>) -> bool {
        &&& views(self.ids@) == id_list(batch)
        &&& self.rows@.len() == batch.len()
        &&& forall|i: int|
            0 <= i < batch.len() ==> row_view(#[trigger] self.rows@[i]@) == element_row_view(
                s.element_columns,
                batch[i],
            )
        &&& batch_edges(batch, s.extended_columns, s.relation_names) == Ok::<
            EdgesView,
            ImportError,
        >(self.edges@)
    }
}

fn check_targets(store: &Store, journal: &Journal, Ghost(batch): Ghost<Seq<ElementView>>) -> (r:
    bool)
    requires
        journal.holds(store@, batch),
    ensures
        r == !dangling(journal.edges@.relations, merged(store@, batch, journal.edges@).elements),
{
    let ghost relations = journal.edges@.relations;
    let ghost elements = merged(store@, batch, journal.edges@).elements;
    proof {
        lemma_batch_rows_dom(store@.element_columns, batch);
    }
    let mut i: usize = 0;
    while i < journal.edges.relations.len()
        invariant
            i <= journal.edges.relations@.len(),
            relations == relations_view(journal.edges.relations@),
            elements == store@.elements.union_prefer_right(
                batch_rows(store@.element_columns, batch),
            ),
            batch_rows(store@.element_columns, batch).dom() == views(journal.ids@).to_set(),
            forall|k: int| 0 <= k < i ==> elements.dom().contains((#[trigger] relations[k]).target_id),
        decreases journal.edges.relations.len() - i,
    {
        let target = journal.edges.relations[i].target_id.as_str();
        assert(relations[i as int].target_id == target@);
        if !store.holds_element(target) && !contains_text(&journal.ids, target) {
            return false;
        }
        i += 1;
    }
    true
}

fn apply(store: &mut Store, journal: &Journal, Ghost(batch): Ghost<Seq<ElementView>>)
    requires
        old(store).wf(),
        journal.holds(old(store)@, batch),
    ensures
        final(store).wf(),
        final(store)@ == merged(old(store)@, batch, journal.edges@),
{
    let ghost start = store@;
    let ghost columns = start.element_columns;
    // the rows of the batch
    let mut i: usize = 0;
    assert(views(journal.ids@).len() == id_list(batch).len());
    assert(store@.elements =~= start.elements.union_prefer_right(
        batch_rows(columns, batch.take(0)),
    ));
    while i < journal.rows.len()
        invariant
            i <= journal.rows@.len(),
            store.wf(),
            journal.holds(start, batch),
            journal.ids@.len() == journal.rows@.len(),
            journal.rows@.len() == batch.len(),
            columns == start.element_columns,
            store@ == (StoreView {
                elements: start.elements.union_prefer_right(
                    batch_rows(columns, batch.take(i as int)),
                ),
                ..start
            }),
        decreases journal.rows.len() - i,
    {
        let ghost before = store@.elements;
        assert(id_list(batch)[i as int] == batch[i as int].id);
        assert(views(journal.ids@)[i as int] == journal.ids@[i as int]@);
        let id = journal.ids[i].clone();
        let row = clone_row(&journal.rows[i]);
        store.upsert(id, row);
        proof {
            assert(id@ == batch[i as int].id);
            assert(row_view(row@) == element_row_view(columns, batch[i as int]));
            assert(batch.take(i + 1).drop_last() =~= batch.take(i as int));
            assert(batch.take(i + 1).last() == batch[i as int]);
            assert(batch_rows(columns, batch.take(i + 1)) == batch_rows(
                columns,
                batch.take(i as int),
            ).insert(batch[i as int].id, element_row_view(columns, batch[i as int])));
            assert(store@.elements =~= start.elements.union_prefer_right(
                batch_rows(columns, batch.take(i + 1)),
            ));
        }
        i += 1;
    }
    assert(batch.take(batch.len() as int) =~= batch);
    // what the elements of the batch had before goes
    store.delete_stale(&journal.ids);
    let ghost cleared = store@;
    // what they bring comes
    let ghost relations = journal.edges@.relations;
    let mut k: usize = 0;
    assert(cleared.relations =~= cleared.relations.union(relations.take(0).to_set()));
    while k < journal.edges.relations.len()
        invariant
            k <= journal.edges.relations@.len(),
            store.wf(),
            relations == relations_view(journal.edges.relations@),
            store@ == (StoreView {
                relations: cleared.relations.union(relations.take(k as int).to_set()),
                ..cleared
            }),
        decreases journal.edges.relations.len() - k,
    {
        store.add_relation(journal.edges.relations[k].clone());
        proof {
            assert(relations.take(k + 1) =~= relations.take(k as int).push(relations[k as int]));
            relations.take(k as int).lemma_push_to_set_commute(relations[k as int]);
            assert(store@.relations =~= cleared.relations.union(relations.take(k + 1).to_set()));
        }
        k += 1;
    }
    assert(relations.take(relations.len() as int) =~= relations);
    let ghost linked = store@;
    let ghost extended = journal.edges@.extended;
    let mut k: usize = 0;
    assert(linked.extended =~= linked.extended + extended.take(0));
    while k < journal.edges.extended.len()
        invariant
            k <= journal.edges.extended@.len(),
            store.wf(),
            extended == extended_view(journal.edges.extended@),
            store@ == (StoreView {
                extended: linked.extended + extended.take(k as int),
                ..linked
            }),
        decreases journal.edges.extended.len() - k,
    {
        store.add_extended(journal.edges.extended[k].clone());
        proof {
            assert(extended.take(k + 1) =~= extended.take(k as int).push(extended[k as int]));
            assert(store@.extended =~= linked.extended + extended.take(k + 1));
        }
        k += 1;
    }
    assert(extended.take(extended.len() as int) =~= extended);
}

/// Imports a batch of elements into the store, without a look at elements
/// that share an id.
///
/// Either the whole batch is applied, or the store is left as it was.
fn import_elements(
    elements: &Vec<Element>,
    store: &mut Store,
    config: &ImporterConfiguration,
) -> (r: Result<(), ImportError>)
    requires
        old(store).wf(),
    ensures
        final(store).wf(),
        match synchronized(old(store)@, elements_view(elements@), *config) {
            Ok(after) => r is Ok && final(store)@ == after,
            Err(e) => r == Err::<(), ImportError>(e) && final(store)@ == old(store)@,
        },
{
    let ghost batch = elements_view(elements@);
    let ghost start = store@;
    let mut journal = Journal {
        ids: Vec::new(),
        rows: Vec::new(),
        edges: Edges { relations: Vec::new(), extended: Vec::new() },
    };
    assert(journal.edges@ == no_edges()) by {
        assert(journal.edges@.relations =~= Seq::empty());
        assert(journal.edges@.extended =~= Seq::empty());
    }
    // first pass: the rows
    let mut i: usize = 0;
    while i < elements.len()
        invariant
            i <= elements.len(),
            batch == elements_view(elements@),
            store@ == start,
            store.wf(),
            *store == *old(store),
            journal.ids@.len() == i,
            journal.rows@.len() == i,
            rows_fault(start.element_columns, batch, 0) == rows_fault(
                start.element_columns,
                batch,
                i as int,
            ),
            forall|k: int| 0 <= k < i ==> (#[trigger] journal.ids@[k])@ == batch[k].id,
            forall|k: int|
                0 <= k < i ==> row_view(#[trigger] journal.rows@[k]@) == element_row_view(
                    start.element_columns,
                    batch[k],
                ),
            journal.edges@ == no_edges(),
        decreases elements.len() - i,
    {
        assert(batch[i as int] == elements@[i as int]@);
        let row = element_row(store.element_columns(), &elements[i])?;
        journal.ids.push(elements[i].id.clone());
        journal.rows.push(row);
        i += 1;
    }
    assert(views(journal.ids@) =~= id_list(batch));
    // second pass: relations and extended properties
    let mut i: usize = 0;
    while i < elements.len()
        invariant
            i <= elements.len(),
            batch == elements_view(elements@),
            store@ == start,
            store.wf(),
            *store == *old(store),
            batch_edges(batch, start.extended_columns, start.relation_names) == batch_edges_from(
                batch,
                start.extended_columns,
                start.relation_names,
                i as int,
                journal.edges@,
            ),
            views(journal.ids@) == id_list(batch),
            journal.rows@.len() == batch.len(),
            forall|k: int|
                0 <= k < batch.len() ==> row_view(#[trigger] journal.rows@[k]@)
                    == element_row_view(start.element_columns, batch[k]),
            rows_fault(start.element_columns, batch, 0) is None,
        decreases elements.len() - i,
    {
        assert(batch[i as int] == elements@[i as int]@);
        element_edges(
            &elements[i],
            store.extended_columns(),
            store.relation_names(),
            &mut journal.edges,
        )?;
        i += 1;
    }
    // both ends of every relation must be there
    if !config.disable_fk_checks && !check_targets(store, &journal, Ghost(batch)) {
        return Err(ImportError::MissingElement);
    }
    apply(store, &journal, Ghost(batch));
    Ok(())
}

/// The outcome of importing a batch that was put together from several
/// sources: a batch in which two elements share an id and differ in content
/// is refused, and any other batch is imported.
pub open spec fn synchronized_checked(
    s: StoreView,
    batch: Seq<ElementView>,
    config: ImporterConfiguration,
) -> Result<StoreView, ImportError> {
    if conflicting(batch) {
        Err(ImportError::ConflictingElements)
    } else {
        synchronized(s, batch, config)
    }
}

/// Importing a checked batch once more changes nothing.
pub proof fn lemma_checked_import_idempotent(
    s: StoreView,
    batch: Seq<ElementView>,
    config: ImporterConfiguration,
)
    requires
        synchronized_checked(s, batch, config) is Ok,
    ensures
        synchronized_checked(synchronized_checked(s, batch, config)->Ok_0, batch, config)
            == synchronized_checked(s, batch, config),
{
    lemma_import_idempotent(s, batch, config);
}

/// Imports the elements of a slice into the store.
///
/// Elements that share an id must be identical; otherwise nothing is
/// imported. Either the whole batch is applied, or the store is left as it
/// was.
pub fn import_from_slice(
    elements: &Vec<Element>,
    store: &mut Store,
    config: &ImporterConfiguration,
) -> (r: Result<(), ImportError>)
    requires
        old(store).wf(),
    ensures
        final(store).wf(),
        match synchronized_checked(old(store)@, elements_view(elements@), *config) {
            Ok(after) => r is Ok && final(store)@ == after,
            Err(e) => r == Err::<(), ImportError>(e) && final(store)@ == old(store)@,
        },
{
    let mut element_id_idx_map: Vec<(String, usize)> = Vec::new();
    proof {
        lemma_conflicts_refused(elements_view(elements@));
        assert(crate::fetch::index_view(element_id_idx_map@) =~= Seq::empty());
    }
    check_for_conflicting_elements(elements, &mut element_id_idx_map)?;
    import_elements(elements, store, config)
}

/// The outcome of importing the elements of a document into a store: a
/// document that cannot be decoded to its end is refused, and the elements
/// of any other are imported as a checked batch.
pub open spec fn streamed(s: StoreView, bytes: Seq<u8>, config: ImporterConfiguration) -> Result<
    StoreView,
    ImportError,
> {
    let document = decoded(bytes);
    match document.failure {
        Some(_) => Err(ImportError::MalformedDocument),
        None => synchronized_checked(s, document.elements, config),
    }
}

/// Importing a document once more changes nothing.
pub proof fn lemma_streamed_import_idempotent(
    s: StoreView,
    bytes: Seq<u8>,
    config: ImporterConfiguration,
)
    requires
        streamed(s, bytes, config) is Ok,
    ensures
        streamed(streamed(s, bytes, config)->Ok_0, bytes, config) == streamed(s, bytes, config),
{
    lemma_checked_import_idempotent(s, decoded(bytes).elements, config);
}

/// The import of a document and the import of its elements as a slice come
/// to the same: the same store, or the same failure.
pub proof fn lemma_streamed_as_slice(s: StoreView, bytes: Seq<u8>, config: ImporterConfiguration)
    requires
        decoded(bytes).failure is None,
    ensures
        streamed(s, bytes, config) == synchronized_checked(s, decoded(bytes).elements, config),
{
}

/// A document in which two elements share an id and differ in content is
/// refused.
pub proof fn lemma_streamed_refuses_conflicts(
    s: StoreView,
    bytes: Seq<u8>,
    config: ImporterConfiguration,
)
    requires
        conflicting(decoded(bytes).elements),
    ensures
        streamed(s, bytes, config) is Err,
{
}

/// Imports the elements of a document into the store.
///
/// The document is decoded from its beginning, whatever the position of the
/// iterator that is given. Elements that share an id must be identical;
/// otherwise nothing is imported. Either the whole document is applied, or
/// the store is left as it was.
pub fn import_from_iter(
    elements: &CloneableJsonArrayStreamIterator,
    store: &mut Store,
    config: &ImporterConfiguration,
) -> (r: Result<(), ImportError>)
    requires
        old(store).wf(),
    ensures
        final(store).wf(),
        match streamed(old(store)@, elements.source(), *config) {
            Ok(after) => r is Ok && final(store)@ == after,
            Err(e) => r == Err::<(), ImportError>(e) && final(store)@ == old(store)@,
        },
{
    let ghost bytes = elements.source();
    let ghost document = decoded(bytes);
    let mut pass = elements.clone();
    let mut batch: Vec<Element> = Vec::new();
    assert(elements_view(batch@) + document.elements =~= document.elements);
    loop
        invariant_except_break
            !pass.finished(),
            document.failure == decoded_from(bytes, pass.position(), pass.started()).failure,
            document.elements == elements_view(batch@) + decoded_from(
                bytes,
                pass.position(),
                pass.started(),
            ).elements,
        invariant
            pass.wf(),
            pass.source() == bytes,
            bytes == elements.source(),
            document == decoded(bytes),
            store.wf(),
            *store == *old(store),
            0 <= pass.position() <= bytes.len(),
        ensures
            document.failure is None,
            document.elements == elements_view(batch@),
        decreases bytes.len() - pass.position(),
    {
        proof {
            lemma_step_moves(bytes, pass.position(), pass.started());
        }
        let ghost rest = decoded_from(bytes, pass.position(), pass.started());
        let ghost found = elements_view(batch@);
        let item = pass.next();
        proof {
            pass.lemma_position_bounds();
        }
        match item {
            None => {
                assert(found + Seq::<ElementView>::empty() =~= found);
                break ;
            },
            Some(Err(_)) => {
                return Err(ImportError::MalformedDocument);
            },
            Some(Ok(element)) => {
                proof {
                    let tail = decoded_from(bytes, pass.position(), true);
                    assert(rest.elements == seq![element@] + tail.elements);
                    assert(found + (seq![element@] + tail.elements) =~= found.push(element@)
                        + tail.elements);
                }
                batch.push(element);
                assert(elements_view(batch@) =~= found.push(element@));
            },
        }
    }
    import_from_slice(&batch, store, config)
}

} // verus!
