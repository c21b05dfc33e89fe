//! Elements out of a JSON document whose top level is an array, one at a
//! time and without reading further than the element asked for.

use vstd::prelude::*;
use vstd::string::StringExecFns;
use vstd::slice::slice_subrange;
use crate::config::ELEMENT_PK_COL;
use crate::import::{Element, ElementView, element_wf, elements_view};
use crate::json::{JsonNumber, JsonValue, JsonValueView};
use crate::json::{entry_position, json_wf, object_view};

verus! {

/// A JSON value as `serde_json` holds it.
#[verifier::external_type_specification]
#[verifier::external_body]
pub struct ExValue(serde_json::Value);

/// What stands at the beginning of some bytes.
#[derive(Debug)]
pub enum Prefix {
    /// A JSON value, and the number of bytes that it takes with the white
    /// space before it.
    Value(JsonValue, usize),
    /// White space up to the end.
    Nothing,
    /// Something that is not a JSON value.
    Invalid,
}

/// What a [`Prefix`] stands for.
pub ghost enum PrefixView {
    Value(JsonValueView, nat),
    Nothing,
    Invalid,
}

impl View for Prefix {
    type V = PrefixView;

    open spec fn view(&self) -> PrefixView {
        match self {
            Prefix::Value(value, taken) => PrefixView::Value(value@, *taken as nat),
            Prefix::Nothing => PrefixView::Nothing,
            Prefix::Invalid => PrefixView::Invalid,
        }
    }
}

/// What `serde_json` finds at the beginning of the bytes when it is asked
/// for the first value of a stream of values.
pub uninterp spec fn json_prefix(input: Seq<u8>) -> PrefixView;

/// Turns a value of `serde_json` into a value of this library, part by part.
/// A number is an integer where `serde_json` holds it as one, and else the
/// numeral that `serde_json` prints for it.
#[verifier::external_body]
fn json_from_serde(value: serde_json::Value) -> JsonValue {
    match value {
        serde_json::Value::Null => JsonValue::Null,
        serde_json::Value::Bool(b) => JsonValue::Bool(b),
        serde_json::Value::Number(n) => JsonValue::Number(match (n.as_u64(), n.as_i64()) {
            (Some(u), _) => JsonNumber::PosInt(u),
            (None, Some(i)) => JsonNumber::NegInt(i),
            (None, None) => JsonNumber::Float(n.to_string()),
        }),
        serde_json::Value::String(s) => JsonValue::String(s),
        serde_json::Value::Array(a) => JsonValue::Array(a.into_iter().map(json_from_serde).collect()),
        serde_json::Value::Object(m) => JsonValue::Object(m.into_iter().map(|(k, v)| (k, json_from_serde(v))).collect()),
    }
}

/// Asks `serde_json::StreamDeserializer` for the first value of the bytes
/// and for `byte_offset` after it. The outcome depends on the bytes alone
/// and is what [`json_prefix`] names. The offset is a position in the bytes
/// that were given. An object of `serde_json` is a map, so no name occurs
/// twice in an object of the value.
#[verifier::external_body]
fn decode_prefix(input: &[u8]) -> (r: Prefix)
    ensures
        r@ == json_prefix(input@),
        r matches Prefix::Value(_, taken) ==> taken <= input@.len(),
        r matches Prefix::Value(value, _) ==> json_wf(value@),
{
    let mut stream = serde_json::Deserializer::from_slice(input).into_iter::<serde_json::Value>();
    match stream.next() {
        Some(Ok(value)) => Prefix::Value(json_from_serde(value), stream.byte_offset()),
        Some(Err(_)) => Prefix::Invalid,
        None => Prefix::Nothing,
    }
}

/// Why a document could not be decoded.
#[derive(Debug, Clone, Copy, PartialEq, Eq, Structural)]
pub enum StreamError {
    /// The document ends where a byte was expected.
    UnexpectedEof,
    /// The document does not begin with `[`.
    ArrayStartNotFound,
    /// A value is followed by neither `,` nor `]`.
    SeparatorNotFound,
    /// The document ends where a value was expected.
    PrematureEof,
    /// What stands where a value was expected is not well-formed.
    InvalidValue,
    /// A value is not an element: it is no object, or it has no `@id` that
    /// holds a string.
    NotAnElement,
}

/// The words for a document that cannot be decoded.
pub open spec fn stream_error_text(error: StreamError) -> Seq<char> {
    match error {
        StreamError::UnexpectedEof => "failed to fill whole buffer"@,
        StreamError::ArrayStartNotFound => "`[` not found"@,
        StreamError::SeparatorNotFound => "`,` or `]` not found"@,
        StreamError::PrematureEof => "premature EOF"@,
        StreamError::InvalidValue => "a value is not well-formed JSON"@,
        StreamError::NotAnElement => "a value is not an element"@,
    }
}

impl StreamError {
    /// Says in words what went wrong.
    pub fn describe(&self) -> (r: String)
        ensures
            r@ == stream_error_text(*self),
    {
        match self {
            StreamError::UnexpectedEof => String::from_str("failed to fill whole buffer"),
            StreamError::ArrayStartNotFound => String::from_str("`[` not found"),
            StreamError::SeparatorNotFound => String::from_str("`,` or `]` not found"),
            StreamError::PrematureEof => String::from_str("premature EOF"),
            StreamError::InvalidValue => String::from_str("a value is not well-formed JSON"),
            StreamError::NotAnElement => String::from_str("a value is not an element"),
        }
    }
}

/// Whether a byte is white space: space, tab, line feed, form feed or
/// carriage return.
pub open spec fn is_ws(byte: u8) -> bool {
    byte == 0x20 || byte == 0x09 || byte == 0x0a || byte == 0x0c || byte == 0x0d
}

/// The position of the first byte from `pos` on that is not white space, or
/// the length of the bytes if there is none.
pub open spec fn skip_ws(bytes: Seq<u8>, pos: int) -> int
    decreases bytes.len() - pos,
{
    if pos < 0 || pos >= bytes.len() || !is_ws(bytes[pos]) {
        pos
    } else {
        skip_ws(bytes, pos + 1)
    }
}

/// Skipping white space never goes back, nor beyond the end.
pub proof fn lemma_skip_ws_bounds(bytes: Seq<u8>, pos: int)
    requires
        0 <= pos <= bytes.len(),
    ensures
        pos <= skip_ws(bytes, pos) <= bytes.len(),
    decreases bytes.len() - pos,
{
    if pos < bytes.len() && is_ws(bytes[pos]) {
        lemma_skip_ws_bounds(bytes, pos + 1);
    }
}

/// The element that a value is: an object with an `@id` that holds a string.
/// The other entries of the object are the attributes of the element.
pub open spec fn element_of(value: JsonValueView) -> Option<ElementView> {
    match value {
        JsonValueView::Object(entries) => {
            let at = entry_position(entries, ELEMENT_PK_COL@, 0);
            if at < entries.len() && entries[at].1 is String {
                Some(ElementView { id: entries[at].1->String_0, rest: entries.remove(at) })
            } else {
                None
            }
        },
        _ => None,
    }
}

/// One step of the decoder.
pub ghost enum StepView {
    /// An element, and the position after it.
    Item(ElementView, int),
    /// The end of the array, and the position after it.
    End(int),
    /// A failure.
    Fail(StreamError),
}

/// The element whose value begins at `pos`.
pub open spec fn element_at(bytes: Seq<u8>, pos: int) -> StepView {
    match json_prefix(bytes.subrange(pos, bytes.len() as int)) {
        PrefixView::Value(value, taken) => match element_of(value) {
            Some(element) => StepView::Item(element, pos + taken),
            None => StepView::Fail(StreamError::NotAnElement),
        },
        PrefixView::Nothing => StepView::Fail(StreamError::PrematureEof),
        PrefixView::Invalid => StepView::Fail(StreamError::InvalidValue),
    }
}

/// What the decoder finds from `pos` on.
///
/// Before the first element it skips white space and wants `[`; after more
/// white space, `]` ends the array, and anything else begins the first
/// element. After an element it skips white space and wants `,`, which is
/// followed by the next element, or `]`, which ends the array.
pub open spec fn step(bytes: Seq<u8>, pos: int, started: bool) -> StepView {
    let p = skip_ws(bytes, pos);
    if p >= bytes.len() {
        StepView::Fail(StreamError::UnexpectedEof)
    } else if !started {
        if bytes[p] != 0x5b {
            StepView::Fail(StreamError::ArrayStartNotFound)
        } else {
            let q = skip_ws(bytes, p + 1);
            if q >= bytes.len() {
                StepView::Fail(StreamError::UnexpectedEof)
            } else if bytes[q] == 0x5d {
                StepView::End(q + 1)
            } else {
                element_at(bytes, q)
            }
        }
    } else if bytes[p] == 0x2c {
        element_at(bytes, p + 1)
    } else if bytes[p] == 0x5d {
        StepView::End(p + 1)
    } else {
        StepView::Fail(StreamError::SeparatorNotFound)
    }
}

/// Every step moves on, and an element ends within the bytes where
/// `serde_json` stays within them.
pub proof fn lemma_step_moves(bytes: Seq<u8>, pos: int, started: bool)
    requires
        0 <= pos <= bytes.len(),
    ensures
        step(bytes, pos, started) matches StepView::Item(_, next) ==> pos < next,
        step(bytes, pos, started) matches StepView::End(next) ==> pos < next <= bytes.len(),
{
    lemma_skip_ws_bounds(bytes, pos);
    let p = skip_ws(bytes, pos);
    if p < bytes.len() {
        lemma_skip_ws_bounds(bytes, p + 1);
    }
}

/// The elements that a document yields, and the failure that ended them, if
/// one did.
pub ghost struct Decoded {
    pub elements: Seq<ElementView>,
    pub failure: Option<StreamError>,
}

/// The elements from `pos` on, up to the end of the array or the first
/// failure.
pub open spec fn decoded_from(bytes: Seq<u8>, pos: int, started: bool) -> Decoded
    decreases bytes.len() - pos,
{
    match step(bytes, pos, started) {
        StepView::Fail(e) => Decoded { elements: Seq::empty(), failure: Some(e) },
        StepView::End(_) => Decoded { elements: Seq::empty(), failure: None },
        StepView::Item(element, next) => {
            if 0 <= pos < next <= bytes.len() {
                let rest = decoded_from(bytes, next, true);
                Decoded { elements: seq![element] + rest.elements, failure: rest.failure }
            } else {
                Decoded { elements: Seq::empty(), failure: Some(StreamError::InvalidValue) }
            }
        },
    }
}

/// The elements of a document.
pub open spec fn decoded(bytes: Seq<u8>) -> Decoded {
    decoded_from(bytes, 0, false)
}

fn is_ascii_whitespace(byte: u8) -> (r: bool)
    ensures
        r == is_ws(byte),
{
    byte == 0x20 || byte == 0x09 || byte == 0x0a || byte == 0x0c || byte == 0x0d
}

/// Reads bytes from `pos` on until one is found that is not white space.
/// Returns that byte and the position after it.
pub fn read_skipping_ws(bytes: &[u8], pos: usize) -> (r: Result<(u8, usize), StreamError>)
    requires
        pos <= bytes@.len(),
    ensures
        match r {
            Ok((byte, next)) => skip_ws(bytes@, pos as int) < bytes@.len() && byte == bytes@[skip_ws(
                bytes@,
                pos as int,
            )] && next == skip_ws(bytes@, pos as int) + 1,
            Err(e) => skip_ws(bytes@, pos as int) >= bytes@.len() && e
                == StreamError::UnexpectedEof,
        },
{
    let mut at: usize = pos;
    while at < bytes.len()
        invariant
            pos <= at <= bytes@.len(),
            skip_ws(bytes@, pos as int) == skip_ws(bytes@, at as int),
        decreases bytes.len() - at,
    {
        let byte = bytes[at];
        if !is_ascii_whitespace(byte) {
            return Ok((byte, at + 1));
        }
        at += 1;
    }
    Err(StreamError::UnexpectedEof)
}

/// Makes an element of a value.
pub fn element_from_json(value: JsonValue) -> (r: Option<Element>)
    ensures
        match element_of(value@) {
            Some(element) => r is Some && r->0@ == element,
            None => r is None,
        },
        json_wf(value@) && r is Some ==> element_wf(r->0@),
{
    let ghost whole = value@;
    match value {
        JsonValue::Object(entries) => {
            let ghost all = object_view(entries);
            assert(whole == JsonValueView::Object(all));
            let mut entries = entries;
            let mut i: usize = 0;
            while i < entries.len() && *entries[i].0.as_str() != *ELEMENT_PK_COL
                invariant
                    i <= entries.len(),
                    all == object_view(entries),
                    entry_position(all, ELEMENT_PK_COL@, 0) == entry_position(
                        all,
                        ELEMENT_PK_COL@,
                        i as int,
                    ),
                decreases entries.len() - i,
            {
                i += 1;
            }
            assert(entry_position(all, ELEMENT_PK_COL@, 0) == i);
            if i >= entries.len() {
                return None;
            }
            assert(all[i as int] == (entries@[i as int].0@, entries@[i as int].1@));
            let is_string = match &entries[i].1 {
                JsonValue::String(_) => true,
                _ => false,
            };
            if !is_string {
                return None;
            }
            let (_, id_value) = entries.remove(i);
            assert(object_view(entries) =~= all.remove(i as int));
            match id_value {
                JsonValue::String(id) => Some(Element { id, rest: entries }),
                _ => None,
            }
        },
        _ => None,
    }
}

/// Decodes the element whose value begins at `pos`. Returns it with the
/// position after it.
pub fn deserialize_single(bytes: &[u8], pos: usize) -> (r: Result<(Element, usize), StreamError>)
    requires
        pos <= bytes@.len(),
    ensures
        match element_at(bytes@, pos as int) {
            StepView::Item(element, next) => r is Ok && r->Ok_0.0@ == element && r->Ok_0.1 == next
                && next <= bytes@.len() && element_wf(element),
            StepView::End(_) => false,
            StepView::Fail(e) => r is Err && r->Err_0 == e,
        },
{
    let rest = slice_subrange(bytes, pos, bytes.len());
    match decode_prefix(rest) {
        Prefix::Value(value, taken) => match element_from_json(value) {
            Some(element) => Ok((element, pos + taken)),
            None => Err(StreamError::NotAnElement),
        },
        Prefix::Nothing => Err(StreamError::PrematureEof),
        Prefix::Invalid => Err(StreamError::InvalidValue),
    }
}

/// Takes one step from `pos` on: the next element, or `None` at the end of
/// the array. `pos` moves behind what was read, and `started` is set.
pub fn yield_next_obj(bytes: &[u8], pos: &mut usize, started: &mut bool) -> (r: Result<
    Option<Element>,
    StreamError,
>)
    requires
        *old(pos) <= bytes@.len(),
    ensures
        *final(started),
        *final(pos) <= bytes@.len(),
        match step(bytes@, *old(pos) as int, *old(started)) {
            StepView::Item(element, next) => r is Ok && r->Ok_0 is Some && r->Ok_0->0@ == element
                && *final(pos) == next && element_wf(element),
            StepView::End(next) => r is Ok && r->Ok_0 is None && *final(pos) == next,
            StepView::Fail(e) => r is Err && r->Err_0 == e && *final(pos) == *old(pos),
        },
{
    let was_started = *started;
    *started = true;
    let (byte, after) = match read_skipping_ws(bytes, *pos) {
        Ok(found) => found,
        Err(e) => {
            return Err(e);
        },
    };
    proof {
        lemma_skip_ws_bounds(bytes@, *old(pos) as int);
    }
    if !was_started {
        if byte == 0x5b {
            // the next byte tells whether the array is empty
            let (peek, behind) = match read_skipping_ws(bytes, after) {
                Ok(found) => found,
                Err(e) => {
                    return Err(e);
                },
            };
            proof {
                lemma_skip_ws_bounds(bytes@, after as int);
            }
            if peek == 0x5d {
                *pos = behind;
                Ok(None)
            } else {
                match deserialize_single(bytes, behind - 1) {
                    Ok((element, next)) => {
                        *pos = next;
                        Ok(Some(element))
                    },
                    Err(e) => Err(e),
                }
            }
        } else {
            Err(StreamError::ArrayStartNotFound)
        }
    } else if byte == 0x2c {
        match deserialize_single(bytes, after) {
            Ok((element, next)) => {
                *pos = next;
                Ok(Some(element))
            },
            Err(e) => Err(e),
        }
    } else if byte == 0x5d {
        *pos = after;
        Ok(None)
    } else {
        Err(StreamError::SeparatorNotFound)
    }
}

/// One step of the decoder on a window: the bytes of a document from some
/// place on, as far as they have been read.
#[derive(Debug)]
pub enum WindowStep {
    /// An element, and the position after it.
    Item(Element, usize),
    /// The end of the array, and the position after it.
    End(usize),
    /// The window ends too early to tell: more of the document has to be
    /// read.
    More,
    /// A failure.
    Fail(StreamError),
}

/// What a [`WindowStep`] stands for.
pub ghost enum WindowStepView {
    Item(ElementView, int),
    End(int),
    More,
    Fail(StreamError),
}

impl View for WindowStep {
    type V = WindowStepView;

    open spec fn view(&self) -> WindowStepView {
        match self {
            WindowStep::Item(element, next) => WindowStepView::Item(element@, *next as int),
            WindowStep::End(next) => WindowStepView::End(*next as int),
            WindowStep::More => WindowStepView::More,
            WindowStep::Fail(e) => WindowStepView::Fail(*e),
        }
    }
}

/// Whether a failure may come from a window that ends too early: the bytes
/// have run out, or a value is cut short.
pub open spec fn may_need_more(e: StreamError) -> bool {
    e == StreamError::UnexpectedEof || e == StreamError::PrematureEof || e
        == StreamError::InvalidValue
}

/// What the decoder finds in a window from `pos` on. In a window that holds
/// the document to its end this is the step of the decoder. In any other
/// window a failure that more bytes could mend asks for more.
pub open spec fn window_step(window: Seq<u8>, pos: int, started: bool, complete: bool)
    -> WindowStepView {
    match step(window, pos, started) {
        StepView::Item(element, next) => WindowStepView::Item(element, next),
        StepView::End(next) => WindowStepView::End(next),
        StepView::Fail(e) => {
            if !complete && may_need_more(e) {
                WindowStepView::More
            } else {
                WindowStepView::Fail(e)
            }
        },
    }
}

/// Takes one step in a window of a document that is read piece by piece.
/// `complete` tells that the window holds the document to its end.
pub fn next_in_window(window: &[u8], pos: usize, started: bool, complete: bool) -> (r: WindowStep)
    requires
        pos <= window@.len(),
    ensures
        r@ == window_step(window@, pos as int, started, complete),
        r matches WindowStep::Item(element, next) ==> pos < next <= window@.len() && element_wf(
            element@,
        ),
        r matches WindowStep::End(next) ==> pos < next <= window@.len(),
{
    let mut at = pos;
    let mut begun = started;
    proof {
        lemma_step_moves(window@, pos as int, started);
    }
    match yield_next_obj(window, &mut at, &mut begun) {
        Ok(Some(element)) => WindowStep::Item(element, at),
        Ok(None) => WindowStep::End(at),
        Err(e) => {
            let cut_short = match e {
                StreamError::UnexpectedEof => true,
                StreamError::PrematureEof => true,
                StreamError::InvalidValue => true,
                _ => false,
            };
            if !complete && cut_short {
                WindowStep::More
            } else {
                WindowStep::Fail(e)
            }
        },
    }
}

/// Decodes all elements of a document.
pub fn decode_all(bytes: &[u8]) -> (r: Result<Vec<Element>, StreamError>)
    ensures
        match decoded(bytes@).failure {
            None => r is Ok && elements_view(r->Ok_0@) == decoded(bytes@).elements,
            Some(e) => r is Err && r->Err_0 == e,
        },
        r matches Ok(elements) ==> forall|i: int|
            0 <= i < elements@.len() ==> element_wf((#[trigger] elements@[i])@),
{
    let mut elements: Vec<Element> = Vec::new();
    let mut pos: usize = 0;
    let mut started = false;
    assert(elements_view(elements@) + decoded(bytes@).elements =~= decoded(bytes@).elements);
    loop
        invariant
            pos <= bytes@.len(),
            decoded(bytes@).failure == decoded_from(bytes@, pos as int, started).failure,
            forall|i: int| 0 <= i < elements@.len() ==> element_wf((#[trigger] elements@[i])@),
            decoded(bytes@).elements == elements_view(elements@) + decoded_from(
                bytes@,
                pos as int,
                started,
            ).elements,
        decreases bytes@.len() - pos,
    {
        let ghost before = pos;
        let ghost was_started = started;
        let ghost found = elements_view(elements@);
        proof {
            lemma_step_moves(bytes@, pos as int, started);
        }
        match yield_next_obj(bytes, &mut pos, &mut started) {
            Err(e) => {
                return Err(e);
            },
            Ok(None) => {
                assert(found + Seq::<ElementView>::empty() =~= found);
                return Ok(elements);
            },
            Ok(Some(element)) => {
                elements.push(element);
                proof {
                    let rest = decoded_from(bytes@, pos as int, true);
                    assert(elements_view(elements@) =~= found.push(element@));
                    assert(found + (seq![element@] + rest.elements) =~= found.push(element@)
                        + rest.elements);
                }
            },
        }
    }
}

/// Starts to decode a document: the iterator over its elements.
pub fn iter_json_array(source: Vec<u8>) -> (r: crate::util::CloneableJsonArrayStreamIterator)
    ensures
        r.wf(),
        r.source() == source@,
        r.position() == 0,
        !r.started(),
        !r.finished(),
{
    crate::util::CloneableJsonArrayStreamIterator::new(source)
}

} // verus!
