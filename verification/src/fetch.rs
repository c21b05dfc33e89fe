//! Paginated retrieval of a commit's elements from a remote service: which
//! resource to ask for, how to go from page to page, and when to stop.

use vstd::prelude::*;
use vstd::string::{StringExecFns, StringSliceAdditionalSpecFns};
use crate::cli::{CommitSelector, ProjectSelector};
use crate::fetch::api_data_types::{Branch, Project};
use crate::fetch::id_table::IdTable;
use crate::import::{Element, ElementView, ImportError, elements_view};
use crate::util::{decimal, ends_with, starts_with, u32_to_decimal};

pub mod api_data_types;
mod id_table;

verus! {

/// The `page[size]` query that asks for pages of `n` elements.
pub open spec fn page_size_query(maybe_page_size: Option<u32>) -> Seq<char> {
    match maybe_page_size {
        Some(n) => "?page[size]="@ + decimal(n as nat),
        None => Seq::empty(),
    }
}

/// The resource that lists the elements of a commit.
pub open spec fn elements_path(
    project_id: Seq<char>,
    commit_id: Seq<char>,
    maybe_page_size: Option<u32>,
) -> Seq<char> {
    "projects/"@ + project_id + "/commits/"@ + commit_id + "/elements"@ + page_size_query(
        maybe_page_size,
    )
}

/// Builds the path, relative to the service's base, of the elements of a
/// commit, with the page size where one is wanted.
pub fn build_url_path(project_id: &str, commit_id: &str, maybe_page_size: Option<u32>) -> (url:
    String)
    ensures
        url@ == elements_path(project_id@, commit_id@, maybe_page_size),
{
    let mut url = String::from_str("projects/");
    url.append(project_id);
    url.append("/commits/");
    url.append(commit_id);
    url.append("/elements");
    if let Some(page_size) = maybe_page_size {
        url.append("?page[size]=");
        let digits = u32_to_decimal(page_size);
        url.append(digits.as_str());
        assert(url@ =~= elements_path(project_id@, commit_id@, maybe_page_size));
    } else {
        assert(url@ =~= elements_path(project_id@, commit_id@, maybe_page_size));
    }
    url
}

/// Why a retrieval failed.
#[derive(Debug, Clone, Copy, PartialEq, Eq, Structural)]
pub enum FetchError {
    /// The base address ends with `/`.
    TrailingSlash,
    /// A password was given without a user name.
    PasswordWithoutUsername,
    /// No project bears the wanted name.
    NoMatchingProject,
    /// Several projects bear the wanted name.
    AmbiguousProject,
    /// No branch bears the wanted name.
    NoMatchingBranch,
    /// Several branches bear the wanted name.
    AmbiguousBranch,
    /// The service answered something other than what was asked for.
    UnexpectedReply,
    /// The link header of a page cannot be read, or the link to the next
    /// page is no address.
    MalformedPagination,
    /// The base of the service is no address.
    InvalidUrl,
}

/// The words for a failed retrieval.
pub open spec fn fetch_error_text(error: FetchError) -> Seq<char> {
    match error {
        FetchError::TrailingSlash => "base_url must not end with /"@,
        FetchError::PasswordWithoutUsername => "when specifying a password, a username must be provide as well"@,
        FetchError::NoMatchingProject => "error finding any matching project"@,
        FetchError::AmbiguousProject => "error finding exactly one matching project"@,
        FetchError::NoMatchingBranch => "error finding any matching branch"@,
        FetchError::AmbiguousBranch => "error finding exactly one matching branch"@,
        FetchError::UnexpectedReply => "the service answered something that was not asked for"@,
        FetchError::MalformedPagination => "the link to the next page cannot be read"@,
        FetchError::InvalidUrl => "base_url is no address"@,
    }
}

impl FetchError {
    /// Says in words what went wrong.
    pub fn describe(&self) -> (r: String)
        ensures
            r@ == fetch_error_text(*self),
    {
        match self {
            FetchError::TrailingSlash => String::from_str("base_url must not end with /"),
            FetchError::PasswordWithoutUsername => String::from_str("when specifying a password, a username must be provide as well"),
            FetchError::NoMatchingProject => String::from_str("error finding any matching project"),
            FetchError::AmbiguousProject => String::from_str("error finding exactly one matching project"),
            FetchError::NoMatchingBranch => String::from_str("error finding any matching branch"),
            FetchError::AmbiguousBranch => String::from_str("error finding exactly one matching branch"),
            FetchError::UnexpectedReply => String::from_str("the service answered something that was not asked for"),
            FetchError::MalformedPagination => String::from_str("the link to the next page cannot be read"),
            FetchError::InvalidUrl => String::from_str("base_url is no address"),
        }
    }
}

/// The position in `index` of the first entry of `id` from `from` on, or the
/// number of entries if there is none.
pub open spec fn index_position(index: Seq<(Seq<char>, int)>, id: Seq<char>, from: int) -> int
    decreases index.len() - from,
{
    if from < 0 || from >= index.len() || index[from].0 == id {
        from
    } else {
        index_position(index, id, from + 1)
    }
}

/// How a check for conflicts ends: the index of ids, and whether no conflict
/// was met.
pub ghost struct Checked {
    pub index: Seq<(Seq<char>, int)>,
    pub ok: bool,
}

/// The check of the elements from position `from` on against an index that
/// tells, for every id seen so far, where the first element of that id
/// stands. An element of a known id must equal that first element; an
/// element of a new id enters the index.
pub open spec fn checked_from(elements: Seq<ElementView>, from: int, index: Seq<(Seq<char>, int)>)
    -> Checked
    decreases elements.len() - from,
{
    if from < 0 || from >= elements.len() {
        Checked { index, ok: true }
    } else {
        let at = index_position(index, elements[from].id, 0);
        if at < index.len() {
            let first = index[at].1;
            if 0 <= first < elements.len() && elements[first] == elements[from] {
                checked_from(elements, from + 1, index)
            } else {
                Checked { index, ok: false }
            }
        } else {
            checked_from(elements, from + 1, index.push((elements[from].id, from)))
        }
    }
}

/// Whether two elements share an id and differ in content.
pub open spec fn conflicting(elements: Seq<ElementView>) -> bool {
    exists|i: int, j: int|
        0 <= i < j < elements.len() && (#[trigger] elements[i]).id == (#[trigger] elements[j]).id
            && elements[i] != elements[j]
}

/// Whether an index is that of the first `n` elements, and these are free of
/// conflicts: every entry points at an element of its id among them, no id
/// has two entries, and each of the elements equals the one that the entry of
/// its id points at.
pub open spec fn indexes(index: Seq<(Seq<char>, int)>, elements: Seq<ElementView>, n: int) -> bool {
    &&& forall|k: int|
        0 <= k < index.len() ==> 0 <= (#[trigger] index[k]).1 < n && elements[index[k].1].id
            == index[k].0
    &&& forall|k: int, l: int|
        0 <= k < l < index.len() ==> (#[trigger] index[k]).0 != (#[trigger] index[l]).0
    &&& forall|i: int|
        0 <= i < n ==> index_position(index, (#[trigger] elements[i]).id, 0) < index.len()
            && elements[index[index_position(index, elements[i].id, 0)].1] == elements[i]
}

proof fn lemma_index_position(index: Seq<(Seq<char>, int)>, id: Seq<char>, from: int)
    requires
        0 <= from <= index.len(),
    ensures
        from <= index_position(index, id, from) <= index.len(),
        index_position(index, id, from) < index.len() ==> index[index_position(
            index,
            id,
            from,
        )].0 == id,
        forall|k: int| from <= k < index_position(index, id, from) ==> (#[trigger] index[k]).0 != id,
    decreases index.len() - from,
{
    if from < index.len() && index[from].0 != id {
        lemma_index_position(index, id, from + 1);
    }
}

proof fn lemma_index_position_push(
    index: Seq<(Seq<char>, int)>,
    entry: (Seq<char>, int),
    id: Seq<char>,
)
    ensures
        index_position(index, id, 0) < index.len() ==> index_position(index.push(entry), id, 0)
            == index_position(index, id, 0),
        index_position(index, id, 0) >= index.len() && entry.0 == id ==> index_position(
            index.push(entry),
            id,
            0,
        ) == index.len(),
{
    lemma_index_position(index, id, 0);
    lemma_index_position(index.push(entry), id, 0);
    let p = index_position(index, id, 0);
    let q = index_position(index.push(entry), id, 0);
    let grown = index.push(entry);
    if p < index.len() {
        assert(grown[p].0 == id);
        if q < p {
            assert(index[q] == grown[q]);
        }
    } else if entry.0 == id {
        assert(p == index.len());
        assert(grown[index.len() as int].0 == id);
        if q < index.len() {
            assert(index[q] == grown[q]);
            assert(index[q].0 == id);
        }
    }
}

proof fn lemma_checked_from(elements: Seq<ElementView>, from: int, index: Seq<(Seq<char>, int)>)
    requires
        0 <= from <= elements.len(),
        indexes(index, elements, from),
    ensures
        checked_from(elements, from, index).ok <==> !conflicting(elements),
    decreases elements.len() - from,
{
    if from >= elements.len() {
        if conflicting(elements) {
            let (i, j) = choose|i: int, j: int|
                0 <= i < j < elements.len() && (#[trigger] elements[i]).id == (
                #[trigger] elements[j]).id && elements[i] != elements[j];
            assert(elements[index[index_position(index, elements[i].id, 0)].1] == elements[i]);
            assert(elements[index[index_position(index, elements[j].id, 0)].1] == elements[j]);
        }
    } else {
        let id = elements[from].id;
        let at = index_position(index, id, 0);
        lemma_index_position(index, id, 0);
        if at < index.len() {
            let first = index[at].1;
            if elements[first] == elements[from] {
                lemma_checked_from(elements, from + 1, index);
            } else {
                assert(elements[first].id == elements[from].id);
            }
        } else {
            let grown = index.push((id, from));
            assert(indexes(grown, elements, from + 1)) by {
                assert forall|k: int, l: int| 0 <= k < l < grown.len() implies (
                #[trigger] grown[k]).0 != (#[trigger] grown[l]).0 by {
                    if l == index.len() {
                        assert(index[k].0 != id);
                    }
                }
                assert forall|i: int| 0 <= i < from + 1 implies index_position(
                    grown,
                    (#[trigger] elements[i]).id,
                    0,
                ) < grown.len() && elements[grown[index_position(grown, elements[i].id, 0)].1]
                    == elements[i] by {
                    lemma_index_position_push(index, (id, from), elements[i].id);
                    let here = index_position(grown, elements[i].id, 0);
                    lemma_index_position(index, elements[i].id, 0);
                    lemma_index_position(grown, elements[i].id, 0);
                    if i < from {
                        let there = index_position(index, elements[i].id, 0);
                        assert(there < index.len());
                        assert(here == there);
                        assert(grown[here] == index[there]);
                    } else {
                        assert(here == index.len());
                        assert(grown[here] == (id, from));
                    }
                }
            }
            lemma_checked_from(elements, from + 1, grown);
        }
    }
}

/// A check that starts with an empty index refuses the elements exactly when
/// two of them share an id and differ in content.
pub proof fn lemma_conflicts_refused(elements: Seq<ElementView>)
    ensures
        checked_from(elements, 0, Seq::empty()).ok <==> !conflicting(elements),
{
    lemma_checked_from(elements, 0, Seq::empty());
}

/// Elements of which no two share an id are free of conflicts.
pub proof fn lemma_distinct_ids_no_conflict(elements: Seq<ElementView>)
    requires
        forall|i: int, j: int|
            0 <= i < j < elements.len() ==> (#[trigger] elements[i]).id != (#[trigger] elements[j]).id,
    ensures
        !conflicting(elements),
{
}

/// Tells whether no id occurs twice among the given ids. Where that is so,
/// elements of these ids cannot be in conflict.
pub fn ids_are_distinct(ids: &Vec<String>) -> (r: bool)
    ensures
        r == crate::util::views(ids@).no_duplicates(),
{
    let ghost all = crate::util::views(ids@);
    let size = if ids.len() < 1048576 {
        ids.len()
    } else {
        1048576
    };
    let mut table = IdTable::new(size);
    let mut index: Vec<(String, usize)> = Vec::new();
    let mut i: usize = 0;
    assert(index_view(index@) =~= Seq::empty());
    while i < ids.len()
        invariant
            i <= ids.len(),
            all == crate::util::views(ids@),
            index@.len() == i,
            table.holds(index_view(index@)),
            forall|k: int| 0 <= k < i ==> (#[trigger] index@[k]).0@ == all[k],
            forall|a: int, b: int| 0 <= a < b < i ==> all[a] != all[b],
        decreases ids.len() - i,
    {
        let id = ids[i].as_str();
        let ghost seen = index_view(index@);
        assert(all[i as int] == id@);
        let at = table.find(id, &index);
        proof {
            lemma_index_position(seen, id@, 0);
        }
        if at < index.len() {
            assert(seen[at as int].0 == id@);
            assert(all[at as int] == all[i as int]);
            return false;
        }
        proof {
            assert forall|a: int| 0 <= a < i implies all[a] != all[i as int] by {
                assert(seen[a].0 == index@[a].0@);
            }
        }
        index.push((ids[i].clone(), i));
        proof {
            let grown = index_view(index@);
            assert(grown.drop_last() =~= seen);
        }
        table.add(id, i, Ghost(index_view(index@)));
        i += 1;
    }
    true
}

/// What an index stands for.
pub open spec fn index_view(index: Seq<(String, usize)>) -> Seq<(Seq<char>, int)> {
    Seq::new(index.len(), |i: int| (index[i].0@, index[i].1 as int))
}

/// Checks if there are elements with conflicting values: elements that share
/// an id and differ otherwise.
///
/// `element_id_idx_map` tells where the first element of an id stands. Ids
/// that are met for the first time are added to it.
pub fn check_for_conflicting_elements(
    elements: &Vec<Element>,
    element_id_idx_map: &mut Vec<(String, usize)>,
) -> (r: Result<(), ImportError>)
    requires
        forall|k: int|
            0 <= k < old(element_id_idx_map)@.len() ==> (#[trigger] old(
                element_id_idx_map,
            )@[k]).1 < elements@.len(),
    ensures
        ({
            let checked = checked_from(
                elements_view(elements@),
                0,
                index_view(old(element_id_idx_map)@),
            );
            &&& index_view(final(element_id_idx_map)@) == checked.index
            &&& r == if checked.ok {
                Ok::<(), ImportError>(())
            } else {
                Err::<(), ImportError>(ImportError::ConflictingElements)
            }
        }),
{
    let ghost all = elements_view(elements@);
    let ghost start = index_view(element_id_idx_map@);
    // a table with about one bucket for every id, as far as that is in reason
    let size = if elements.len() < 1048576 {
        elements.len()
    } else {
        1048576
    };
    let mut table = IdTable::new(size);
    let mut k: usize = 0;
    assert(start.take(0) =~= Seq::empty());
    while k < element_id_idx_map.len()
        invariant
            k <= element_id_idx_map@.len(),
            element_id_idx_map@ == old(element_id_idx_map)@,
            start == index_view(element_id_idx_map@),
            table.holds(start.take(k as int)),
        decreases element_id_idx_map.len() - k,
    {
        proof {
            assert(start.take(k + 1).drop_last() =~= start.take(k as int));
        }
        table.add(element_id_idx_map[k].0.as_str(), k, Ghost(start.take(k + 1)));
        k += 1;
    }
    assert(start.take(element_id_idx_map@.len() as int) =~= start);
    let mut idx: usize = 0;
    while idx < elements.len()
        invariant
            idx <= elements.len(),
            all == elements_view(elements@),
            start == index_view(old(element_id_idx_map)@),
            table.holds(index_view(element_id_idx_map@)),
            forall|k: int|
                0 <= k < element_id_idx_map@.len() ==> (#[trigger] element_id_idx_map@[k]).1
                    < elements@.len(),
            checked_from(all, 0, start) == checked_from(
                all,
                idx as int,
                index_view(element_id_idx_map@),
            ),
        decreases elements.len() - idx,
    {
        let new_element = &elements[idx];
        let ghost index = index_view(element_id_idx_map@);
        assert(all[idx as int] == new_element@);
        let at = table.find(new_element.id.as_str(), element_id_idx_map);
        if at < element_id_idx_map.len() {
            let existing_element_idx = element_id_idx_map[at].1;
            assert(index[at as int].1 == existing_element_idx);
            assert(all[existing_element_idx as int] == elements@[existing_element_idx as int]@);
            if elements[existing_element_idx] != *new_element {
                // the element that is there is not identical
                return Err(ImportError::ConflictingElements);
            }
        } else {
            let position = element_id_idx_map.len();
            element_id_idx_map.push((new_element.id.clone(), idx));
            proof {
                let grown = index_view(element_id_idx_map@);
                assert(grown =~= index.push((new_element@.id, idx as int)));
                assert(grown.drop_last() =~= index);
            }
            table.add(
                new_element.id.as_str(),
                position,
                Ghost(index_view(element_id_idx_map@)),
            );
        }
        idx += 1;
    }
    Ok(())
}

/// The links of a `Link` header as `parse_link_header::parse_with_rel` reads
/// them, each relation with the address as it stands in the header; `None`
/// for a header that it refuses.
pub uninterp spec fn link_targets(header: Seq<char>) -> Option<Map<Seq<char>, Seq<char>>>;

/// Whether a list holds exactly what a map holds: no relation twice, and
/// each relation of the map with its address.
pub open spec fn lists(links: Seq<(String, String)>, targets: Map<Seq<char>, Seq<char>>) -> bool {
    &&& forall|i: int, j: int|
        0 <= i < j < links.len() ==> (#[trigger] links[i]).0@ != (#[trigger] links[j]).0@
    &&& forall|i: int|
        0 <= i < links.len() ==> targets.dom().contains((#[trigger] links[i]).0@)
            && targets[links[i].0@] == links[i].1@
    &&& forall|rel: Seq<char>|
        targets.dom().contains(rel) ==> exists|i: int|
            0 <= i < links.len() && (#[trigger] links[i]).0@ == rel
}

/// Calls `parse_link_header::parse_with_rel` and hands out, for each
/// relation that it found, the `raw_uri` of its link. What it finds depends
/// on the header alone and is what [`link_targets`] names.
#[verifier::external_body]
fn parse_link_targets(header: &str) -> (r: Option<Vec<(String, String)>>)
    ensures
        match link_targets(header@) {
            Some(targets) => r is Some && lists(r->0@, targets),
            None => r is None,
        },
{
    match parse_link_header::parse_with_rel(header) {
        Ok(links) => Some(links.into_iter().map(|(rel, link)| (rel, link.raw_uri)).collect()),
        Err(_) => None,
    }
}

/// The position of the first link of the relation `rel` from `from` on, or
/// the number of links if there is none.
pub open spec fn link_position(links: Seq<(String, String)>, rel: Seq<char>, from: int) -> int
    decreases links.len() - from,
{
    if from < 0 || from >= links.len() || links[from].0@ == rel {
        from
    } else {
        link_position(links, rel, from + 1)
    }
}

/// Picks the address of the first link of the given relation.
pub fn pick_link(links: &Vec<(String, String)>, rel: &str) -> (r: Option<String>)
    ensures
        match r {
            Some(address) => link_position(links@, rel@, 0) < links@.len() && address@
                == links@[link_position(links@, rel@, 0)].1@,
            None => link_position(links@, rel@, 0) >= links@.len(),
        },
{
    let mut i: usize = 0;
    while i < links.len() && *links[i].0.as_str() != *rel
        invariant
            i <= links.len(),
            link_position(links@, rel@, 0) == link_position(links@, rel@, i as int),
        decreases links.len() - i,
    {
        i += 1;
    }
    if i < links.len() {
        Some(links[i].1.clone())
    } else {
        None
    }
}

proof fn lemma_link_position(links: Seq<(String, String)>, rel: Seq<char>, from: int)
    requires
        0 <= from <= links.len(),
    ensures
        from <= link_position(links, rel, from) <= links.len(),
        link_position(links, rel, from) < links.len() ==> links[link_position(
            links,
            rel,
            from,
        )].0@ == rel,
        forall|k: int| from <= k < link_position(links, rel, from) ==> (#[trigger] links[k]).0@ != rel,
    decreases links.len() - from,
{
    if from < links.len() && links[from].0@ != rel {
        lemma_link_position(links, rel, from + 1);
    }
}

/// Where the next page is, by the `Link` header of a page: the address of
/// the relation `next`, or `None` where the header, or that relation, is
/// missing. A header that cannot be read is an error, and so is a link that
/// is no address.
pub open spec fn next_page(link_header: Option<Seq<char>>) -> Result<Option<Seq<char>>, FetchError> {
    match link_header {
        None => Ok(None),
        Some(header) => match link_targets(header) {
            None => Err(FetchError::MalformedPagination),
            Some(targets) => {
                if !targets.dom().contains("next"@) {
                    Ok(None)
                } else if url_path(targets["next"@]) is Some {
                    Ok(Some(targets["next"@]))
                } else {
                    Err(FetchError::MalformedPagination)
                }
            },
        },
    }
}

/// Finds the address of the next page in the `Link` header of a page.
pub fn next_page_url(link_header: Option<&str>) -> (r: Result<Option<String>, FetchError>)
    ensures
        match next_page(
            match link_header {
                Some(header) => Some(header@),
                None => None,
            },
        ) {
            Ok(Some(address)) => r is Ok && r->Ok_0 is Some && r->Ok_0->0@ == address,
            Ok(None) => r is Ok && r->Ok_0 is None,
            Err(e) => r is Err && r->Err_0 == e,
        },
{
    let header = match link_header {
        Some(header) => header,
        None => {
            return Ok(None);
        },
    };
    match parse_link_targets(header) {
        None => Err(FetchError::MalformedPagination),
        Some(links) => {
            let next = pick_link(&links, "next");
            proof {
                let targets = link_targets(header@)->0;
                let at = link_position(links@, "next"@, 0);
                lemma_link_position(links@, "next"@, 0);
                if targets.dom().contains("next"@) {
                    let i = choose|i: int| 0 <= i < links@.len() && (#[trigger] links@[i]).0@
                        == "next"@;
                    assert(at <= i);
                }
            }
            match next {
                None => Ok(None),
                Some(address) => {
                    if parse_url_path(address.as_str()).is_some() {
                        Ok(Some(address))
                    } else {
                        Err(FetchError::MalformedPagination)
                    }
                },
            }
        },
    }
}

/// What a paginator does next.
#[derive(Debug)]
pub enum PaginatorAction {
    /// Ask for the page at this address.
    Get(String),
    /// Stop: there is no further page, or nobody takes pages any more.
    Stop,
}

/// What a paginator does after it has handed on a page: it asks for the
/// next page where there is one and the page was accepted, and else stops.
pub fn paginator_step(next_url: Option<String>, accepted: bool) -> (r: PaginatorAction)
    ensures
        match (accepted, next_url) {
            (true, Some(url)) => r == PaginatorAction::Get(url),
            _ => r == PaginatorAction::Stop,
        },
{
    match (accepted, next_url) {
        (true, Some(url)) => PaginatorAction::Get(url),
        _ => PaginatorAction::Stop,
    }
}

/// What has come in, page by page.
#[derive(Debug)]
pub struct PageCollector {
    elements: Vec<Element>,
    pages: usize,
    finished: bool,
}

/// What a [`PageCollector`] stands for.
pub ghost struct Collected {
    /// The elements of the pages taken in, in the order of their arrival.
    pub elements: Seq<ElementView>,
    /// The number of pages taken in.
    pub pages: nat,
    /// Whether an empty page has ended the collection.
    pub finished: bool,
}

/// The state after one more page: an empty page ends the collection and is
/// not counted; after the end nothing is taken in.
pub open spec fn page_taken(state: Collected, page: Seq<ElementView>) -> Collected {
    if state.finished {
        state
    } else if page.len() == 0 {
        Collected { finished: true, ..state }
    } else {
        Collected { elements: state.elements + page, pages: state.pages + 1, ..state }
    }
}

/// The state after the pages from position `from` on.
pub open spec fn pages_taken(state: Collected, pages: Seq<Seq<ElementView>>, from: int) -> Collected
    decreases pages.len() - from,
{
    if from < 0 || from >= pages.len() {
        state
    } else {
        pages_taken(page_taken(state, pages[from]), pages, from + 1)
    }
}

/// The state before any page.
pub open spec fn nothing_collected() -> Collected {
    Collected { elements: Seq::empty(), pages: 0, finished: false }
}

proof fn lemma_finished_stays(state: Collected, pages: Seq<Seq<ElementView>>, from: int)
    requires
        state.finished,
    ensures
        pages_taken(state, pages, from) == state,
    decreases pages.len() - from,
{
    if 0 <= from < pages.len() {
        lemma_finished_stays(state, pages, from + 1);
    }
}

proof fn lemma_pages_until_empty_from(
    state: Collected,
    pages: Seq<Seq<ElementView>>,
    from: int,
    n: int,
)
    requires
        0 <= from <= n < pages.len(),
        !state.finished,
        forall|i: int| from <= i < n ==> (#[trigger] pages[i]).len() > 0,
        pages[n].len() == 0,
    ensures
        pages_taken(state, pages, from) == (Collected {
            elements: state.elements + pages.subrange(from, n).flatten(),
            pages: (state.pages + n - from) as nat,
            finished: true,
        }),
    decreases n - from,
{
    if from == n {
        lemma_finished_stays(page_taken(state, pages[n]), pages, n + 1);
        assert(pages.subrange(from, n) =~= Seq::<Seq<ElementView>>::empty());
        assert(state.elements + Seq::<Seq<ElementView>>::empty().flatten() =~= state.elements);
    } else {
        let next = page_taken(state, pages[from]);
        lemma_pages_until_empty_from(next, pages, from + 1, n);
        let here = pages.subrange(from, n);
        assert(here.drop_first() =~= pages.subrange(from + 1, n));
        assert(here.first() == pages[from]);
        assert(here.flatten() == pages[from] + pages.subrange(from + 1, n).flatten());
        assert(state.elements + pages[from] + pages.subrange(from + 1, n).flatten()
            =~= state.elements + here.flatten());
    }
}

/// Pages that are not empty, followed by an empty page, give the elements
/// of the pages before the empty one, in order, and the count of these
/// pages. What comes after the empty page changes nothing.
pub proof fn lemma_pages_until_empty(pages: Seq<Seq<ElementView>>, n: int)
    requires
        0 <= n < pages.len(),
        forall|i: int| 0 <= i < n ==> (#[trigger] pages[i]).len() > 0,
        pages[n].len() == 0,
    ensures
        pages_taken(nothing_collected(), pages, 0) == (Collected {
            elements: pages.subrange(0, n).flatten(),
            pages: n as nat,
            finished: true,
        }),
{
    lemma_pages_until_empty_from(nothing_collected(), pages, 0, n);
    assert(Seq::<ElementView>::empty() + pages.subrange(0, n).flatten() =~= pages.subrange(
        0,
        n,
    ).flatten());
}

impl View for PageCollector {
    type V = Collected;

    closed spec fn view(&self) -> Collected {
        Collected {
            elements: elements_view(self.elements@),
            pages: self.pages as nat,
            finished: self.finished,
        }
    }
}

impl PageCollector {
    /// A collector that has taken in nothing.
    pub fn new() -> (r: Self)
        ensures
            r@ == nothing_collected(),
    {
        let r = PageCollector { elements: Vec::new(), pages: 0, finished: false };
        assert(elements_view(r.elements@) =~= Seq::empty());
        r
    }

    /// Takes in a page. An empty page is the end of the data: it is not
    /// counted, and the answer is `false`, as it is for every page after
    /// it. Any other page is added and counted, and the answer is `true`.
    pub fn accept(&mut self, page: Vec<Element>) -> (more: bool)
        requires
            old(self)@.pages < usize::MAX,
        ensures
            final(self)@ == page_taken(old(self)@, elements_view(page@)),
            more == !final(self)@.finished,
    {
        if self.finished {
            return false;
        }
        if page.len() == 0 {
            self.finished = true;
            return false;
        }
        let ghost before = elements_view(self.elements@);
        let mut page = page;
        let ghost added = elements_view(page@);
        self.elements.append(&mut page);
        self.pages = self.pages + 1;
        assert(elements_view(self.elements@) =~= before + added);
        true
    }

    /// The number of pages taken in.
    pub fn pages(&self) -> (r: usize)
        ensures
            r == self@.pages,
    {
        self.pages
    }

    /// The elements taken in so far.
    pub fn elements(&self) -> (r: &Vec<Element>)
        ensures
            elements_view(r@) == self@.elements,
    {
        &self.elements
    }

    /// Hands out the elements that were taken in.
    pub fn into_elements(self) -> (r: Vec<Element>)
        ensures
            elements_view(r@) == self@.elements,
    {
        self.elements
    }
}

/// The path of an address as `Url::parse` and `Url::path` give it, or `None`
/// for a text that is no address.
pub uninterp spec fn url_path(address: Seq<char>) -> Option<Seq<char>>;

/// The address that `Url::set_path` makes of an address and a path, written
/// out, or `None` for a text that is no address.
pub uninterp spec fn url_with_path(address: Seq<char>, path: Seq<char>) -> Option<Seq<char>>;

/// The longest address, and the longest path, that is handed to
/// `Url::set_path`, in bytes. `set_path` counts the bytes of the address
/// that it writes in 32 bits and gives up beyond them. Two texts of this
/// length stay within that count even where every byte of them is written
/// as an escape of three; nothing shorter is refused for its length.
pub const MAX_URL_BYTES: usize = 268435456;

/// Parses the address with `reqwest::Url::parse` and hands out what
/// `Url::path` gives for it. Both depend on the text alone; the outcome is
/// what [`url_path`] names.
#[verifier::external_body]
fn parse_url_path(address: &str) -> (r: Option<String>)
    ensures
        match url_path(address@) {
            Some(path) => r is Some && r->0@ == path,
            None => r is None,
        },
{
    match reqwest::Url::parse(address) {
        Ok(url) => Some(url.path().to_string()),
        Err(_) => None,
    }
}

/// Parses the address with `reqwest::Url::parse`, gives it the path with
/// `Url::set_path` and writes it out again. The outcome depends on the two
/// texts alone and is what [`url_with_path`] names. `set_path` gives up on
/// addresses beyond four gibibytes, which two texts of at most
/// [`MAX_URL_BYTES`] cannot reach.
#[verifier::external_body]
fn replace_url_path(address: &str, path: &str) -> (r: Option<String>)
    requires
        address.spec_bytes().len() <= MAX_URL_BYTES,
        path.spec_bytes().len() <= MAX_URL_BYTES,
    ensures
        match url_with_path(address@, path@) {
            Some(moved) => r is Some && r->0@ == moved,
            None => r is None,
        },
{
    match reqwest::Url::parse(address) {
        Ok(mut url) => {
            url.set_path(path);
            Some(url.to_string())
        },
        Err(_) => None,
    }
}

/// What is known of the remote service: its base address, and the
/// credentials to present, if any.
#[derive(Debug)]
pub struct SysmlV2ApiBrowser {
    pub base_url: String,
    pub maybe_username: Option<String>,
    pub maybe_password: Option<String>,
}

/// The path of a resource of the service: a path that begins with `/`
/// stands for itself, any other is put behind the base path.
pub open spec fn absolute_path(base_path: Seq<char>, url_path: Seq<char>) -> Seq<char> {
    if "/"@.is_prefix_of(url_path) {
        url_path
    } else {
        base_path + "/"@ + url_path
    }
}

/// Why an address cannot be the base of the service, if it cannot: it is no
/// address, or its path ends with `/`.
pub open spec fn base_fault(base_url: Seq<char>) -> Option<FetchError> {
    match url_path(base_url) {
        None => Some(FetchError::InvalidUrl),
        Some(path) => if "/"@.is_suffix_of(path) {
            Some(FetchError::TrailingSlash)
        } else {
            None
        },
    }
}

/// The length of a text in bytes.
pub open spec fn byte_len(text: Seq<char>) -> nat {
    vstd::utf8::encode_utf8(text).len()
}

/// The address of a resource of the service, by the base address and the
/// path of the resource. There is none where the base is no address, or
/// where the base or the whole path is longer than [`MAX_URL_BYTES`].
pub open spec fn resource_url(base_url: Seq<char>, url_path_text: Seq<char>) -> Option<Seq<char>> {
    match url_path(base_url) {
        None => None,
        Some(base_path) => {
            let path = absolute_path(base_path, url_path_text);
            if byte_len(base_url) > MAX_URL_BYTES || byte_len(path) > MAX_URL_BYTES {
                None
            } else {
                url_with_path(base_url, path)
            }
        },
    }
}

/// The credentials to present with a request.
#[derive(Debug)]
pub enum Credentials {
    /// None at all.
    Anonymous,
    /// A user name, with or without a password.
    Basic { username: String, maybe_password: Option<String> },
}

impl SysmlV2ApiBrowser {
    /// Takes the base address, whose path must not end with `/`, and the
    /// credentials.
    pub fn new(
        base_url: String,
        maybe_username: Option<String>,
        maybe_password: Option<String>,
    ) -> (r: Result<Self, FetchError>)
        ensures
            match base_fault(base_url@) {
                Some(e) => r is Err && r->Err_0 == e,
                None => r is Ok && r->Ok_0.base_url == base_url && r->Ok_0.maybe_username
                    == maybe_username && r->Ok_0.maybe_password == maybe_password,
            },
    {
        match parse_url_path(base_url.as_str()) {
            None => Err(FetchError::InvalidUrl),
            Some(path) => {
                if ends_with(path.as_str(), "/") {
                    Err(FetchError::TrailingSlash)
                } else {
                    Ok(SysmlV2ApiBrowser { base_url, maybe_username, maybe_password })
                }
            },
        }
    }

    /// The address of a resource of the service.
    pub fn absolute_url(&self, url_path: &str) -> (r: Option<String>)
        ensures
            match resource_url(self.base_url@, url_path@) {
                Some(address) => r is Some && r->0@ == address,
                None => r is None,
            },
    {
        let previous_path = match parse_url_path(self.base_url.as_str()) {
            Some(path) => path,
            None => {
                return None;
            },
        };
        let path = if starts_with(url_path, "/") {
            String::from_str(url_path)
        } else {
            let mut path = previous_path;
            path.append("/");
            path.append(url_path);
            path
        };
        if self.base_url.as_str().as_bytes().len() > MAX_URL_BYTES || path.as_str().as_bytes().len()
            > MAX_URL_BYTES {
            return None;
        }
        replace_url_path(self.base_url.as_str(), path.as_str())
    }

    /// Tells which credentials to present. A password without a user name is
    /// an error.
    pub fn maybe_set_auth(&self) -> (r: Result<Credentials, FetchError>)
        ensures
            match (self.maybe_username, self.maybe_password) {
                (None, None) => r is Ok && r->Ok_0 is Anonymous,
                (None, Some(_)) => r is Err && r->Err_0 == FetchError::PasswordWithoutUsername,
                (Some(username), maybe_password) => r is Ok && r->Ok_0 == (Credentials::Basic {
                    username,
                    maybe_password,
                }),
            },
    {
        match (&self.maybe_username, &self.maybe_password) {
            (None, None) => Ok(Credentials::Anonymous),
            (None, Some(_)) => Err(FetchError::PasswordWithoutUsername),
            (Some(username), None) => Ok(
                Credentials::Basic { username: username.clone(), maybe_password: None },
            ),
            (Some(username), Some(password)) => Ok(
                Credentials::Basic {
                    username: username.clone(),
                    maybe_password: Some(password.clone()),
                },
            ),
        }
    }
}

/// What is asked of the service to find a project and a commit.
#[derive(Debug)]
pub enum Request {
    /// All projects.
    Projects,
    /// One project.
    Project { project_id: String },
    /// All branches of a project.
    Branches { project_id: String },
    /// One branch of a project.
    Branch { project_id: String, branch_id: String },
}

/// The path of a request, relative to the base of the service.
pub open spec fn request_path(request: Request) -> Seq<char> {
    match request {
        Request::Projects => "projects"@,
        Request::Project { project_id } => "projects/"@ + project_id@,
        Request::Branches { project_id } => "projects/"@ + project_id@ + "/branches"@,
        Request::Branch { project_id, branch_id } => "projects/"@ + project_id@ + "/branches/"@
            + branch_id@,
    }
}

impl Request {
    /// The path to ask for, relative to the base of the service.
    pub fn path(&self) -> (r: String)
        ensures
            r@ == request_path(*self),
    {
        let mut path = String::from_str("projects");
        match self {
            Request::Projects => {},
            Request::Project { project_id } => {
                path.append("/");
                path.append(project_id.as_str());
                proof {
                    reveal_strlit("projects");
                    reveal_strlit("/");
                    reveal_strlit("projects/");
                    assert("projects"@ + "/"@ =~= "projects/"@);
                    assert(path@ =~= request_path(*self));
                }
            },
            Request::Branches { project_id } => {
                path.append("/");
                path.append(project_id.as_str());
                path.append("/branches");
                proof {
                    reveal_strlit("projects");
                    reveal_strlit("/");
                    reveal_strlit("projects/");
                    assert("projects"@ + "/"@ =~= "projects/"@);
                    assert(path@ =~= request_path(*self));
                }
            },
            Request::Branch { project_id, branch_id } => {
                path.append("/");
                path.append(project_id.as_str());
                path.append("/branches/");
                path.append(branch_id.as_str());
                proof {
                    reveal_strlit("projects");
                    reveal_strlit("/");
                    reveal_strlit("projects/");
                    assert("projects"@ + "/"@ =~= "projects/"@);
                    assert(path@ =~= request_path(*self));
                }
            },
        }
        path
    }
}

/// What the service has answered.
#[derive(Debug)]
pub enum Reply {
    Projects(Vec<Project>),
    Project(Project),
    Branches(Vec<Branch>),
    Branch(Branch),
}

/// What the search is waiting for.
#[derive(Debug)]
pub enum Pending {
    /// The projects, to find the one of the given name.
    ProjectByName { project_name: String, commit: CommitSelector },
    /// The project, to learn its default branch.
    ProjectForDefault { project_id: String },
    /// The branch whose head is the commit.
    BranchHead { project_id: String },
    /// The branches, to find the one of the given name.
    BranchByName { project_id: String, branch_name: String },
}

/// How far the search for a project and a commit has come.
#[derive(Debug)]
pub enum Progress {
    /// The service is to be asked, and the search goes on with its answer.
    Ask { request: Request, pending: Pending },
    /// Project and commit are found.
    Done { project_id: String, commit_id: String },
    /// The search has failed.
    Failed(FetchError),
}

/// The position of the first name from `from` on that begins with `prefix`,
/// or the number of names if there is none.
pub open spec fn first_match(names: Seq<Seq<char>>, prefix: Seq<char>, from: int) -> int
    decreases names.len() - from,
{
    if from < 0 || from >= names.len() || prefix.is_prefix_of(names[from]) {
        from
    } else {
        first_match(names, prefix, from + 1)
    }
}

/// The outcome of a search by name.
#[derive(Debug, Clone, Copy, PartialEq, Eq, Structural)]
pub enum Selection {
    /// No name begins with what was asked for.
    Missing,
    /// Several names begin with it.
    Ambiguous,
    /// Exactly the name at this position begins with it.
    Found(usize),
}

/// The one name that begins with `prefix`.
pub open spec fn sole_match(names: Seq<Seq<char>>, prefix: Seq<char>) -> Selection {
    let first = first_match(names, prefix, 0);
    if first >= names.len() {
        Selection::Missing
    } else if first_match(names, prefix, first + 1) < names.len() {
        Selection::Ambiguous
    } else {
        Selection::Found(first as usize)
    }
}

/// The names of the projects.
pub open spec fn project_names(projects: Seq<Project>) -> Seq<Seq<char>> {
    Seq::new(projects.len(), |i: int| projects[i].name@)
}

/// The names of the branches.
pub open spec fn branch_names(branches: Seq<Branch>) -> Seq<Seq<char>> {
    Seq::new(branches.len(), |i: int| branches[i].name@)
}

/// Finds the one project whose name begins with `project_name`.
pub fn select_project(projects: &Vec<Project>, project_name: &str) -> (r: Selection)
    ensures
        r == sole_match(project_names(projects@), project_name@),
        r matches Selection::Found(i) ==> i < projects@.len(),
{
    let ghost names = project_names(projects@);
    let mut first: usize = 0;
    while first < projects.len() && !starts_with(projects[first].name.as_str(), project_name)
        invariant
            first <= projects.len(),
            names == project_names(projects@),
            first_match(names, project_name@, 0) == first_match(names, project_name@, first as int),
        decreases projects.len() - first,
    {
        first += 1;
    }
    if first >= projects.len() {
        return Selection::Missing;
    }
    let mut second: usize = first + 1;
    while second < projects.len() && !starts_with(projects[second].name.as_str(), project_name)
        invariant
            first < second <= projects.len(),
            names == project_names(projects@),
            first_match(names, project_name@, first + 1) == first_match(
                names,
                project_name@,
                second as int,
            ),
        decreases projects.len() - second,
    {
        second += 1;
    }
    if second < projects.len() {
        Selection::Ambiguous
    } else {
        Selection::Found(first)
    }
}

/// Finds the one branch whose name begins with `branch_name`.
pub fn select_branch(branches: &Vec<Branch>, branch_name: &str) -> (r: Selection)
    ensures
        r == sole_match(branch_names(branches@), branch_name@),
        r matches Selection::Found(i) ==> i < branches@.len(),
{
    let ghost names = branch_names(branches@);
    let mut first: usize = 0;
    while first < branches.len() && !starts_with(branches[first].name.as_str(), branch_name)
        invariant
            first <= branches.len(),
            names == branch_names(branches@),
            first_match(names, branch_name@, 0) == first_match(names, branch_name@, first as int),
        decreases branches.len() - first,
    {
        first += 1;
    }
    if first >= branches.len() {
        return Selection::Missing;
    }
    let mut second: usize = first + 1;
    while second < branches.len() && !starts_with(branches[second].name.as_str(), branch_name)
        invariant
            first < second <= branches.len(),
            names == branch_names(branches@),
            first_match(names, branch_name@, first + 1) == first_match(
                names,
                branch_name@,
                second as int,
            ),
        decreases branches.len() - second,
    {
        second += 1;
    }
    if second < branches.len() {
        Selection::Ambiguous
    } else {
        Selection::Found(first)
    }
}

/// The step that the choice of the commit asks for, once the project is
/// known: a commit that is named is the answer; a branch is asked for by its
/// id, or the branches to find it by name; for the default branch the
/// project is asked for first, unless its default branch is known.
pub open spec fn commit_chosen(
    project_id: String,
    commit: CommitSelector,
    default_branch: Option<String>,
) -> Progress {
    match commit {
        CommitSelector::CommitId { commit_id } => Progress::Done { project_id, commit_id },
        CommitSelector::BranchId { branch_id } => Progress::Ask {
            request: Request::Branch { project_id, branch_id },
            pending: Pending::BranchHead { project_id },
        },
        CommitSelector::BranchName { branch_name } => Progress::Ask {
            request: Request::Branches { project_id },
            pending: Pending::BranchByName { project_id, branch_name },
        },
        CommitSelector::DefaultBranch => match default_branch {
            Some(branch_id) => Progress::Ask {
                request: Request::Branch { project_id, branch_id },
                pending: Pending::BranchHead { project_id },
            },
            None => Progress::Ask {
                request: Request::Project { project_id },
                pending: Pending::ProjectForDefault { project_id },
            },
        },
    }
}

fn choose_commit(project_id: &String, commit: &CommitSelector, default_branch: Option<&String>)
    -> (r: Progress)
    ensures
        r == commit_chosen(
            *project_id,
            *commit,
            match default_branch {
                Some(id) => Some(*id),
                None => None,
            },
        ),
{
    match commit {
        CommitSelector::CommitId { commit_id } => Progress::Done {
            project_id: project_id.clone(),
            commit_id: commit_id.clone(),
        },
        CommitSelector::BranchId { branch_id } => Progress::Ask {
            request: Request::Branch {
                project_id: project_id.clone(),
                branch_id: branch_id.clone(),
            },
            pending: Pending::BranchHead { project_id: project_id.clone() },
        },
        CommitSelector::BranchName { branch_name } => Progress::Ask {
            request: Request::Branches { project_id: project_id.clone() },
            pending: Pending::BranchByName {
                project_id: project_id.clone(),
                branch_name: branch_name.clone(),
            },
        },
        CommitSelector::DefaultBranch => match default_branch {
            Some(branch_id) => Progress::Ask {
                request: Request::Branch {
                    project_id: project_id.clone(),
                    branch_id: branch_id.clone(),
                },
                pending: Pending::BranchHead { project_id: project_id.clone() },
            },
            None => Progress::Ask {
                request: Request::Project { project_id: project_id.clone() },
                pending: Pending::ProjectForDefault { project_id: project_id.clone() },
            },
        },
    }
}

/// How the search begins: a project that is named by its id needs no
/// search, and one that is named by its name is looked for among all
/// projects.
pub open spec fn begun(selector: ProjectSelector) -> Progress {
    match selector {
        ProjectSelector::ProjectId { project_id, commit } => commit_chosen(
            project_id,
            commit,
            None,
        ),
        ProjectSelector::ProjectName { project_name, commit } => Progress::Ask {
            request: Request::Projects,
            pending: Pending::ProjectByName { project_name, commit },
        },
    }
}

/// How the search goes on with an answer of the service.
///
/// Among projects, and among branches, the wanted one is the only one whose
/// name begins with the name asked for. The commit is the head of the branch
/// that was found. An answer of another kind than the one awaited fails the
/// search.
pub open spec fn resumed(pending: Pending, reply: Reply) -> Progress {
    match (pending, reply) {
        (Pending::ProjectByName { project_name, commit }, Reply::Projects(projects)) => {
            match sole_match(project_names(projects@), project_name@) {
                Selection::Missing => Progress::Failed(FetchError::NoMatchingProject),
                Selection::Ambiguous => Progress::Failed(FetchError::AmbiguousProject),
                Selection::Found(i) => commit_chosen(
                    projects@[i as int].id,
                    commit,
                    Some(projects@[i as int].default_branch.id),
                ),
            }
        },
        (Pending::ProjectForDefault { project_id }, Reply::Project(project)) => Progress::Ask {
            request: Request::Branch { project_id, branch_id: project.default_branch.id },
            pending: Pending::BranchHead { project_id },
        },
        (Pending::BranchHead { project_id }, Reply::Branch(branch)) => Progress::Done {
            project_id,
            commit_id: branch.head.id,
        },
        (Pending::BranchByName { project_id, branch_name }, Reply::Branches(branches)) => {
            match sole_match(branch_names(branches@), branch_name@) {
                Selection::Missing => Progress::Failed(FetchError::NoMatchingBranch),
                Selection::Ambiguous => Progress::Failed(FetchError::AmbiguousBranch),
                Selection::Found(i) => Progress::Done {
                    project_id,
                    commit_id: branches@[i as int].head.id,
                },
            }
        },
        _ => Progress::Failed(FetchError::UnexpectedReply),
    }
}

/// Begins the search for the project and the commit that a selector names.
pub fn interprete_cli(project_selector: &ProjectSelector) -> (r: Progress)
    ensures
        r == begun(*project_selector),
{
    match project_selector {
        ProjectSelector::ProjectId { project_id, commit } => choose_commit(
            project_id,
            commit,
            None,
        ),
        ProjectSelector::ProjectName { project_name, commit } => Progress::Ask {
            request: Request::Projects,
            pending: Pending::ProjectByName {
                project_name: project_name.clone(),
                commit: clone_commit(commit),
            },
        },
    }
}

fn clone_commit(commit: &CommitSelector) -> (r: CommitSelector)
    ensures
        r == *commit,
{
    match commit {
        CommitSelector::CommitId { commit_id } => CommitSelector::CommitId {
            commit_id: commit_id.clone(),
        },
        CommitSelector::BranchId { branch_id } => CommitSelector::BranchId {
            branch_id: branch_id.clone(),
        },
        CommitSelector::BranchName { branch_name } => CommitSelector::BranchName {
            branch_name: branch_name.clone(),
        },
        CommitSelector::DefaultBranch => CommitSelector::DefaultBranch,
    }
}

/// Goes on with the search after an answer of the service.
pub fn resume_search(pending: &Pending, reply: &Reply) -> (r: Progress)
    ensures
        r == resumed(*pending, *reply),
{
    match (pending, reply) {
        (Pending::ProjectByName { project_name, commit }, Reply::Projects(projects)) => {
            match select_project(projects, project_name.as_str()) {
                Selection::Missing => Progress::Failed(FetchError::NoMatchingProject),
                Selection::Ambiguous => Progress::Failed(FetchError::AmbiguousProject),
                Selection::Found(i) => choose_commit(
                    &projects[i].id,
                    commit,
                    Some(&projects[i].default_branch.id),
                ),
            }
        },
        (Pending::ProjectForDefault { project_id }, Reply::Project(project)) => Progress::Ask {
            request: Request::Branch {
                project_id: project_id.clone(),
                branch_id: project.default_branch.id.clone(),
            },
            pending: Pending::BranchHead { project_id: project_id.clone() },
        },
        (Pending::BranchHead { project_id }, Reply::Branch(branch)) => Progress::Done {
            project_id: project_id.clone(),
            commit_id: branch.head.id.clone(),
        },
        (Pending::BranchByName { project_id, branch_name }, Reply::Branches(branches)) => {
            match select_branch(branches, branch_name.as_str()) {
                Selection::Missing => Progress::Failed(FetchError::NoMatchingBranch),
                Selection::Ambiguous => Progress::Failed(FetchError::AmbiguousBranch),
                Selection::Found(i) => Progress::Done {
                    project_id: project_id.clone(),
                    commit_id: branches[i].head.id.clone(),
                },
            }
        },
        _ => Progress::Failed(FetchError::UnexpectedReply),
    }
}

} // verus!
