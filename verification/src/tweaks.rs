//! Settings of the storage engine around a bulk import. They change how
//! fast an import runs, never what it does.

use vstd::prelude::*;
use vstd::string::StringExecFns;
use crate::util::views;

verus! {

/// The size of a page of the store, in bytes.
pub const PAGE_SIZE: u64 = 4096;

/// The size of the cache during an import: 32768 pages.
pub const CACHE_SIZE: u64 = 134217728;

/// The value of a setting.
#[derive(Debug)]
pub enum PragmaValue {
    Number(u64),
    Word(String),
}

/// A setting of the storage engine.
#[derive(Debug)]
pub struct Pragma {
    pub name: String,
    pub value: PragmaValue,
}

/// What a [`PragmaValue`] stands for.
pub ghost enum PragmaValueView {
    Number(u64),
    Word(Seq<char>),
}

/// What a list of settings stands for.
pub open spec fn pragmas_view(pragmas: Seq<Pragma>) -> Seq<(Seq<char>, PragmaValueView)> {
    Seq::new(
        pragmas.len(),
        |i: int|
            (
                pragmas[i].name@,
                match pragmas[i].value {
                    PragmaValue::Number(n) => PragmaValueView::Number(n),
                    PragmaValue::Word(w) => PragmaValueView::Word(w@),
                },
            ),
    )
}

/// The settings for a bulk import: a large cache, the page size, and no
/// waiting for the disk.
pub fn before_bulk_insert() -> (r: Vec<Pragma>)
    ensures
        pragmas_view(r@) == seq![
            ("cache_size"@, PragmaValueView::Number(CACHE_SIZE)),
            ("page_size"@, PragmaValueView::Number(PAGE_SIZE)),
            ("synchronous"@, PragmaValueView::Word("OFF"@)),
        ],
{
    let mut pragmas: Vec<Pragma> = Vec::new();
    pragmas.push(
        Pragma { name: String::from_str("cache_size"), value: PragmaValue::Number(CACHE_SIZE) },
    );
    pragmas.push(
        Pragma { name: String::from_str("page_size"), value: PragmaValue::Number(PAGE_SIZE) },
    );
    pragmas.push(
        Pragma {
            name: String::from_str("synchronous"),
            value: PragmaValue::Word(String::from_str("OFF")),
        },
    );
    assert(pragmas_view(pragmas@) =~= seq![
        ("cache_size"@, PragmaValueView::Number(CACHE_SIZE)),
        ("page_size"@, PragmaValueView::Number(PAGE_SIZE)),
        ("synchronous"@, PragmaValueView::Word("OFF"@)),
    ]);
    pragmas
}

/// What is to be done after a bulk import.
#[derive(Debug)]
pub struct AfterImport {
    /// The settings to put back.
    pub pragmas: Vec<Pragma>,
    /// The statements to run, in order.
    pub statements: Vec<String>,
}

/// The statements after an import: the store is analysed, and compacted
/// before that where it is asked for.
pub open spec fn closing_statements(vacuum: bool) -> Seq<Seq<char>> {
    if vacuum {
        seq!["VACUUM"@, "ANALYZE"@]
    } else {
        seq!["ANALYZE"@]
    }
}

/// The settings and statements after a bulk import: the store waits for the
/// disk again, is compacted where that is asked for, and analysed.
pub fn after_bulk_insert(vacuum: bool) -> (r: AfterImport)
    ensures
        pragmas_view(r.pragmas@) == seq![("synchronous"@, PragmaValueView::Word("NORMAL"@))],
        views(r.statements@) == closing_statements(vacuum),
{
    let mut pragmas: Vec<Pragma> = Vec::new();
    pragmas.push(
        Pragma {
            name: String::from_str("synchronous"),
            value: PragmaValue::Word(String::from_str("NORMAL")),
        },
    );
    let mut statements: Vec<String> = Vec::new();
    if vacuum {
        statements.push(String::from_str("VACUUM"));
    }
    statements.push(String::from_str("ANALYZE"));
    assert(pragmas_view(pragmas@) =~= seq![("synchronous"@, PragmaValueView::Word("NORMAL"@))]);
    assert(views(statements@) =~= closing_statements(vacuum));
    AfterImport { pragmas, statements }
}

} // verus!
