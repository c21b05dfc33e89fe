//! JSON-shaped values: what an attribute of an element may hold.

use vstd::prelude::*;
use vstd::std_specs::cmp::PartialEqSpecImpl;

verus! {

/// A JSON number: a non-negative integer, a negative integer, or any other
/// number, which is kept as the numeral that stands for it.
#[derive(Debug)]
pub enum JsonNumber {
    PosInt(u64),
    NegInt(i64),
    Float(String),
}

/// A JSON value. The entries of an object are kept in the order in which the
/// object holds them. In a well-formed value every name of an object occurs
/// once ([`json_wf`]); what is decoded from a document is well-formed.
#[derive(Debug)]
pub enum JsonValue {
    Null,
    Bool(bool),
    Number(JsonNumber),
    String(String),
    Array(Vec<JsonValue>),
    Object(Vec<(String, JsonValue)>),
}

/// What a [`JsonNumber`] stands for.
pub ghost enum JsonNumberView {
    PosInt(u64),
    NegInt(i64),
    Float(Seq<char>),
}

/// What a [`JsonValue`] stands for.
pub ghost enum JsonValueView {
    Null,
    Bool(bool),
    Number(JsonNumberView),
    String(Seq<char>),
    Array(Seq<JsonValueView>),
    Object(Seq<(Seq<char>, JsonValueView)>),
}

impl View for JsonNumber {
    type V = JsonNumberView;

    open spec fn view(&self) -> JsonNumberView {
        match self {
            JsonNumber::PosInt(n) => JsonNumberView::PosInt(*n),
            JsonNumber::NegInt(n) => JsonNumberView::NegInt(*n),
            JsonNumber::Float(numeral) => JsonNumberView::Float(numeral@),
        }
    }
}

/// What a value stands for.
pub open spec fn json_view(value: JsonValue) -> JsonValueView
    decreases value,
{
    match value {
        JsonValue::Null => JsonValueView::Null,
        JsonValue::Bool(b) => JsonValueView::Bool(b),
        JsonValue::Number(n) => JsonValueView::Number(n@),
        JsonValue::String(s) => JsonValueView::String(s@),
        JsonValue::Array(items) => JsonValueView::Array(array_view(items)),
        JsonValue::Object(entries) => JsonValueView::Object(object_view(entries)),
    }
}

/// What the items of an array stand for.
pub open spec fn array_view(items: Vec<JsonValue>) -> Seq<JsonValueView>
    decreases items,
{
    Seq::new(
        items@.len(),
        |i: int|
            if 0 <= i < items@.len() {
                json_view(items@[i])
            } else {
                JsonValueView::Null
            },
    )
}

/// What the entries of an object stand for.
pub open spec fn object_view(entries: Vec<(String, JsonValue)>) -> Seq<(Seq<char>, JsonValueView)>
    decreases entries,
{
    Seq::new(
        entries@.len(),
        |i: int|
            if 0 <= i < entries@.len() {
                (entries@[i].0@, json_view(entries@[i].1))
            } else {
                (Seq::empty(), JsonValueView::Null)
            },
    )
}

impl View for JsonValue {
    type V = JsonValueView;

    open spec fn view(&self) -> JsonValueView {
        json_view(*self)
    }
}

/// Whether no name occurs twice among the entries.
pub open spec fn names_once(entries: Seq<(Seq<char>, JsonValueView)>) -> bool {
    forall|i: int, j: int|
        0 <= i < j < entries.len() ==> (#[trigger] entries[i]).0 != (#[trigger] entries[j]).0
}

/// Whether a value is well-formed: in every object in it, at any depth,
/// each name occurs once.
pub open spec fn json_wf(value: JsonValueView) -> bool
    decreases value,
{
    match value {
        JsonValueView::Array(items) => forall|i: int|
            0 <= i < items.len() ==> json_wf(#[trigger] items[i]),
        JsonValueView::Object(entries) => names_once(entries) && forall|i: int|
            0 <= i < entries.len() ==> json_wf((#[trigger] entries[i]).1),
        _ => true,
    }
}

/// The value that the first entry named `name` holds.
pub open spec fn entry_of(entries: Seq<(Seq<char>, JsonValueView)>, name: Seq<char>) -> Option<
    JsonValueView,
>
    decreases entries.len(),
{
    if entries.len() == 0 {
        None
    } else if entries[0].0 == name {
        Some(entries[0].1)
    } else {
        entry_of(entries.drop_first(), name)
    }
}

/// The position of the first entry named `name` from `from` on, or the
/// number of entries if there is none.
pub open spec fn entry_position(
    entries: Seq<(Seq<char>, JsonValueView)>,
    name: Seq<char>,
    from: int,
) -> int
    decreases entries.len() - from,
{
    if from < 0 || from >= entries.len() || entries[from].0 == name {
        from
    } else {
        entry_position(entries, name, from + 1)
    }
}

/// The first entry named `name` is the one at its position.
pub proof fn lemma_entry_of_position(
    entries: Seq<(Seq<char>, JsonValueView)>,
    name: Seq<char>,
)
    ensures
        0 <= entry_position(entries, name, 0) <= entries.len(),
        entry_of(entries, name) == if entry_position(entries, name, 0) < entries.len() {
            Some(entries[entry_position(entries, name, 0)].1)
        } else {
            None
        },
    decreases entries.len(),
{
    lemma_entry_position_shift(entries, name, 0);
    if entries.len() > 0 && entries[0].0 != name {
        lemma_entry_of_position(entries.drop_first(), name);
        lemma_entry_position_tail(entries, name, 0);
    }
}

proof fn lemma_entry_position_shift(
    entries: Seq<(Seq<char>, JsonValueView)>,
    name: Seq<char>,
    from: int,
)
    requires
        0 <= from <= entries.len(),
    ensures
        from <= entry_position(entries, name, from) <= entries.len(),
    decreases entries.len() - from,
{
    if from < entries.len() && entries[from].0 != name {
        lemma_entry_position_shift(entries, name, from + 1);
    }
}

proof fn lemma_entry_position_tail(
    entries: Seq<(Seq<char>, JsonValueView)>,
    name: Seq<char>,
    from: int,
)
    requires
        0 <= from < entries.len(),
    ensures
        entry_position(entries, name, from + 1) == entry_position(
            entries.drop_first(),
            name,
            from,
        ) + 1,
    decreases entries.len() - from,
{
    let tail = entries.drop_first();
    if from + 1 < entries.len() {
        assert(tail[from] == entries[from + 1]);
        if entries[from + 1].0 != name {
            lemma_entry_position_tail(entries, name, from + 1);
        }
    }
}

/// Looks up the value of the first entry named `name`.
pub fn get_entry<'a>(entries: &'a Vec<(String, JsonValue)>, name: &str) -> (r: Option<
    &'a JsonValue,
>)
    ensures
        match entry_of(object_view(*entries), name@) {
            Some(v) => r is Some && r->0@ == v,
            None => r is None,
        },
{
    let ghost all = object_view(*entries);
    let mut i: usize = 0;
    while i < entries.len()
        invariant
            i <= entries.len(),
            all == object_view(*entries),
            entry_position(all, name@, 0) == entry_position(all, name@, i as int),
        decreases entries.len() - i,
    {
        if *entries[i].0.as_str() == *name {
            proof {
                lemma_entry_of_position(all, name@);
            }
            return Some(&entries[i].1);
        }
        i += 1;
    }
    proof {
        lemma_entry_of_position(all, name@);
    }
    None
}

fn number_eq(a: &JsonNumber, b: &JsonNumber) -> (r: bool)
    ensures
        r == (a@ == b@),
{
    match (a, b) {
        (JsonNumber::PosInt(x), JsonNumber::PosInt(y)) => *x == *y,
        (JsonNumber::NegInt(x), JsonNumber::NegInt(y)) => *x == *y,
        (JsonNumber::Float(x), JsonNumber::Float(y)) => *x == *y,
        _ => false,
    }
}

fn array_eq(x: &Vec<JsonValue>, y: &Vec<JsonValue>) -> (r: bool)
    ensures
        r == (array_view(*x) == array_view(*y)),
    decreases x,
{
    if x.len() != y.len() {
        assert(array_view(*x).len() != array_view(*y).len());
        return false;
    }
    let mut i: usize = 0;
    while i < x.len()
        invariant
            i <= x.len(),
            x.len() == y.len(),
            forall|k: int| 0 <= k < i ==> x@[k]@ == y@[k]@,
        decreases x.len() - i,
    {
        if !json_eq(&x[i], &y[i]) {
            assert(array_view(*x)[i as int] != array_view(*y)[i as int]);
            return false;
        }
        i += 1;
    }
    assert(array_view(*x) =~= array_view(*y));
    true
}

/// Tells whether two objects hold the same entries in the same order.
pub fn entries_eq(x: &Vec<(String, JsonValue)>, y: &Vec<(String, JsonValue)>) -> (r: bool)
    ensures
        r == (object_view(*x) == object_view(*y)),
    decreases x,
{
    if x.len() != y.len() {
        assert(object_view(*x).len() != object_view(*y).len());
        return false;
    }
    let mut i: usize = 0;
    while i < x.len()
        invariant
            i <= x.len(),
            x.len() == y.len(),
            forall|k: int| 0 <= k < i ==> x@[k].0@ == y@[k].0@ && x@[k].1@ == y@[k].1@,
        decreases x.len() - i,
    {
        if x[i].0 != y[i].0 || !json_eq(&x[i].1, &y[i].1) {
            assert(object_view(*x)[i as int] != object_view(*y)[i as int]);
            return false;
        }
        i += 1;
    }
    assert(object_view(*x) =~= object_view(*y));
    true
}

/// Tells whether two values are the same, part by part.
pub fn json_eq(a: &JsonValue, b: &JsonValue) -> (r: bool)
    ensures
        r == (a@ == b@),
    decreases a,
{
    match (a, b) {
        (JsonValue::Null, JsonValue::Null) => true,
        (JsonValue::Bool(x), JsonValue::Bool(y)) => *x == *y,
        (JsonValue::Number(x), JsonValue::Number(y)) => number_eq(x, y),
        (JsonValue::String(x), JsonValue::String(y)) => *x == *y,
        (JsonValue::Array(x), JsonValue::Array(y)) => array_eq(x, y),
        (JsonValue::Object(x), JsonValue::Object(y)) => entries_eq(x, y),
        _ => false,
    }
}

impl PartialEq for JsonValue {
    fn eq(&self, other: &Self) -> (r: bool) {
        json_eq(self, other)
    }
}

impl PartialEqSpecImpl for JsonValue {
    open spec fn obeys_eq_spec() -> bool {
        true
    }

    open spec fn eq_spec(&self, other: &Self) -> bool {
        self@ == other@
    }
}

fn clone_number(n: &JsonNumber) -> (r: JsonNumber)
    ensures
        r@ == n@,
{
    match n {
        JsonNumber::PosInt(n) => JsonNumber::PosInt(*n),
        JsonNumber::NegInt(n) => JsonNumber::NegInt(*n),
        JsonNumber::Float(numeral) => JsonNumber::Float(numeral.clone()),
    }
}

/// A copy of the entries of an object.
pub fn clone_entries(entries: &Vec<(String, JsonValue)>) -> (r: Vec<(String, JsonValue)>)
    ensures
        object_view(r) == object_view(*entries),
    decreases entries,
{
    let mut out: Vec<(String, JsonValue)> = Vec::new();
    let mut i: usize = 0;
    while i < entries.len()
        invariant
            i <= entries.len(),
            out@.len() == i,
            forall|k: int|
                0 <= k < i ==> out@[k].0@ == entries@[k].0@ && out@[k].1@ == entries@[k].1@,
        decreases entries.len() - i,
    {
        out.push((entries[i].0.clone(), clone_json(&entries[i].1)));
        i += 1;
    }
    assert(object_view(out) =~= object_view(*entries));
    out
}

fn clone_array(items: &Vec<JsonValue>) -> (r: Vec<JsonValue>)
    ensures
        array_view(r) == array_view(*items),
    decreases items,
{
    let mut out: Vec<JsonValue> = Vec::new();
    let mut i: usize = 0;
    while i < items.len()
        invariant
            i <= items.len(),
            out@.len() == i,
            forall|k: int| 0 <= k < i ==> out@[k]@ == items@[k]@,
        decreases items.len() - i,
    {
        out.push(clone_json(&items[i]));
        i += 1;
    }
    assert(array_view(out) =~= array_view(*items));
    out
}

/// A copy of a value.
pub fn clone_json(value: &JsonValue) -> (r: JsonValue)
    ensures
        r@ == value@,
    decreases value,
{
    match value {
        JsonValue::Null => JsonValue::Null,
        JsonValue::Bool(b) => JsonValue::Bool(*b),
        JsonValue::Number(n) => JsonValue::Number(clone_number(n)),
        JsonValue::String(s) => JsonValue::String(s.clone()),
        JsonValue::Array(items) => JsonValue::Array(clone_array(items)),
        JsonValue::Object(entries) => JsonValue::Object(clone_entries(entries)),
    }
}

impl Clone for JsonValue {
    fn clone(&self) -> (r: Self)
        ensures
            r@ == self@,
    {
        clone_json(self)
    }
}

} // verus!
