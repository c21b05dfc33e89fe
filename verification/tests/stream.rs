use sysml_v2_sql::import::Element;
use sysml_v2_sql::json::{JsonNumber, JsonValue};
use sysml_v2_sql::util::stream_json::{
    decode_all, deserialize_single, element_from_json, iter_json_array, next_in_window,
    read_skipping_ws, yield_next_obj, StreamError, WindowStep,
};
use sysml_v2_sql::util::CloneableJsonArrayStreamIterator;

fn ids(elements: &[Element]) -> Vec<&str> {
    elements.iter().map(|e| e.id.as_str()).collect()
}

#[test]
fn decoding_an_empty_array_yields_nothing() {
    assert_eq!(decode_all(b"[]").unwrap().len(), 0);
    assert_eq!(decode_all(b" \n\t[ \r\n ]").unwrap().len(), 0);
    let mut stream = iter_json_array(b"[]".to_vec());
    assert!(stream.next().is_none());
    assert!(stream.next().is_none());
}

#[test]
fn decoding_two_elements_yields_them_in_order() {
    let elements = decode_all(br#"[{"@id":"a"},{"@id":"b"}]"#).unwrap();
    assert_eq!(ids(&elements), vec!["a", "b"]);
    assert!(elements[0].rest.is_empty());

    let mut stream = CloneableJsonArrayStreamIterator::new(br#"[{"@id":"a"},{"@id":"b"}]"#.to_vec());
    assert_eq!(stream.next().unwrap().unwrap().id, "a");
    assert_eq!(stream.next().unwrap().unwrap().id, "b");
    assert!(stream.next().is_none());
    assert!(stream.next().is_none());
}

#[test]
fn a_trailing_comma_is_a_malformed_document() {
    assert_eq!(decode_all(br#"[{"@id":"a"},]"#).unwrap_err(), StreamError::InvalidValue);
    let mut stream = iter_json_array(br#"[{"@id":"a"},]"#.to_vec());
    assert_eq!(stream.next().unwrap().unwrap().id, "a");
    assert_eq!(stream.next().unwrap().unwrap_err(), StreamError::InvalidValue);
    assert!(stream.next().is_none());
}

#[test]
fn malformed_documents_of_every_kind() {
    assert_eq!(decode_all(b"").unwrap_err(), StreamError::UnexpectedEof);
    assert_eq!(decode_all(b"   ").unwrap_err(), StreamError::UnexpectedEof);
    assert_eq!(decode_all(b"[").unwrap_err(), StreamError::UnexpectedEof);
    assert_eq!(decode_all(br#"{"@id":"a"}"#).unwrap_err(), StreamError::ArrayStartNotFound);
    assert_eq!(
        decode_all(br#"[{"@id":"a"} {"@id":"b"}]"#).unwrap_err(),
        StreamError::SeparatorNotFound
    );
    assert_eq!(decode_all(br#"[{"@id":"a"}"#).unwrap_err(), StreamError::UnexpectedEof);
    assert_eq!(decode_all(br#"[{"@id":"a"},"#).unwrap_err(), StreamError::PrematureEof);
    assert_eq!(decode_all(br#"[{"@id":"a"},   "#).unwrap_err(), StreamError::PrematureEof);
    assert_eq!(decode_all(br#"[{"@id":"a"#).unwrap_err(), StreamError::InvalidValue);
    assert_eq!(decode_all(br#"[{"name":"a"}]"#).unwrap_err(), StreamError::NotAnElement);
    assert_eq!(decode_all(br#"[{"@id":1}]"#).unwrap_err(), StreamError::NotAnElement);
    assert_eq!(decode_all(b"[1, 2]").unwrap_err(), StreamError::NotAnElement);
}

#[test]
fn what_follows_the_array_is_not_read() {
    let elements = decode_all(br#"[{"@id":"a"}] this is not read"#).unwrap();
    assert_eq!(ids(&elements), vec!["a"]);
}

#[test]
fn a_clone_starts_again_at_the_beginning() {
    let mut first = iter_json_array(br#" [ {"@id":"a"} , {"@id":"b"} ] "#.to_vec());
    assert_eq!(first.next().unwrap().unwrap().id, "a");
    let mut second = first.clone();
    assert_eq!(second.next().unwrap().unwrap().id, "a");
    assert_eq!(first.next().unwrap().unwrap().id, "b");
    assert_eq!(second.next().unwrap().unwrap().id, "b");
    assert!(first.next().is_none());
    assert!(second.next().is_none());
}

#[test]
fn attributes_are_decoded_with_their_values() {
    let document = br#"[{"name":"n","@id":"x","size":3,"ratio":1.5,"debt":-7,"on":true,
        "none":null,"tags":["a","b"],"owner":{"@id":"y"},"big":18446744073709551615}]"#;
    let elements = decode_all(document).unwrap();
    assert_eq!(elements.len(), 1);
    let element = &elements[0];
    assert_eq!(element.id, "x");
    let get = |name: &str| {
        element.rest.iter().find(|(n, _)| n == name).map(|(_, v)| v).unwrap()
    };
    assert!(element.rest.iter().all(|(n, _)| n != "@id"));
    assert_eq!(element.rest.len(), 9);
    assert_eq!(*get("name"), JsonValue::String("n".to_string()));
    assert_eq!(*get("size"), JsonValue::Number(JsonNumber::PosInt(3)));
    assert_eq!(*get("ratio"), JsonValue::Number(JsonNumber::Float("1.5".to_string())));
    assert_eq!(*get("debt"), JsonValue::Number(JsonNumber::NegInt(-7)));
    assert_eq!(*get("big"), JsonValue::Number(JsonNumber::PosInt(u64::MAX)));
    assert_eq!(*get("on"), JsonValue::Bool(true));
    assert_eq!(*get("none"), JsonValue::Null);
    assert_eq!(
        *get("tags"),
        JsonValue::Array(vec![
            JsonValue::String("a".to_string()),
            JsonValue::String("b".to_string())
        ])
    );
    assert_eq!(
        *get("owner"),
        JsonValue::Object(vec![("@id".to_string(), JsonValue::String("y".to_string()))])
    );
}

#[test]
fn reading_skips_white_space() {
    assert_eq!(read_skipping_ws(b"  \t\n\x0c\r[x", 0).unwrap(), (b'[', 7));
    assert_eq!(read_skipping_ws(b"ab", 1).unwrap(), (b'b', 2));
    assert_eq!(read_skipping_ws(b"a  ", 1).unwrap_err(), StreamError::UnexpectedEof);
    assert_eq!(read_skipping_ws(b"", 0).unwrap_err(), StreamError::UnexpectedEof);
    // a vertical tab is no white space
    assert_eq!(read_skipping_ws(b" \x0b", 0).unwrap(), (0x0b, 2));
}

#[test]
fn a_single_element_is_decoded_with_the_position_behind_it() {
    let (element, next) = deserialize_single(br#"xx {"@id":"a"} , "#, 2).unwrap();
    assert_eq!(element.id, "a");
    assert_eq!(next, 14);
    assert_eq!(deserialize_single(b"   ", 1).unwrap_err(), StreamError::PrematureEof);
    assert_eq!(deserialize_single(b"nope", 0).unwrap_err(), StreamError::InvalidValue);
}

#[test]
fn steps_move_the_position() {
    let bytes = br#"[{"@id":"a"}]"#;
    let mut pos = 0;
    let mut started = false;
    let first = yield_next_obj(bytes, &mut pos, &mut started).unwrap();
    assert_eq!(first.unwrap().id, "a");
    assert_eq!(pos, 12);
    assert!(started);
    assert!(yield_next_obj(bytes, &mut pos, &mut started).unwrap().is_none());
    assert_eq!(pos, 13);
}

#[test]
fn elements_are_made_of_objects_with_an_id() {
    let value = JsonValue::Object(vec![
        ("a".to_string(), JsonValue::Null),
        ("@id".to_string(), JsonValue::String("7".to_string())),
        ("b".to_string(), JsonValue::Bool(false)),
    ]);
    let element = element_from_json(value).unwrap();
    assert_eq!(element.id, "7");
    assert_eq!(
        element.rest,
        vec![("a".to_string(), JsonValue::Null), ("b".to_string(), JsonValue::Bool(false))]
    );
    assert!(element_from_json(JsonValue::Null).is_none());
    assert!(element_from_json(JsonValue::Object(Vec::new())).is_none());
    assert!(element_from_json(JsonValue::Array(Vec::new())).is_none());
}

#[test]
fn a_window_that_ends_too_early_asks_for_more() {
    let document = br#" [ {"@id":"a","name":"x"} , {"@id":"b"} ] "#;
    // every cut of the document, as a window that is not yet complete
    let mut elements = Vec::new();
    let mut pos = 0;
    let mut started = false;
    let mut read = 0;
    let mut ended = false;
    while !ended {
        match next_in_window(&document[..read], pos, started, read == document.len()) {
            WindowStep::Item(element, next) => {
                elements.push(element.id);
                pos = next;
                started = true;
            }
            WindowStep::End(next) => {
                assert_eq!(next, document.len() - 1);
                ended = true;
            }
            WindowStep::More => {
                assert!(read < document.len());
                read += 1;
            }
            WindowStep::Fail(e) => panic!("the document is well-formed: {e:?}"),
        }
    }
    assert_eq!(elements, vec!["a".to_string(), "b".to_string()]);
    // the second element was found as soon as its closing brace was read
    assert!(read < document.len());

    // a complete window tells a failure at once
    assert!(matches!(
        next_in_window(br#"[{"@id":"a""#, 0, false, true),
        WindowStep::Fail(StreamError::InvalidValue)
    ));
    assert!(matches!(next_in_window(br#"[{"@id":"a""#, 0, false, false), WindowStep::More));
    assert!(matches!(next_in_window(b"", 0, false, false), WindowStep::More));
    assert!(matches!(next_in_window(b"", 0, false, true), WindowStep::Fail(StreamError::UnexpectedEof)));
    assert!(matches!(
        next_in_window(b"{", 0, false, false),
        WindowStep::Fail(StreamError::ArrayStartNotFound)
    ));
    assert!(matches!(
        next_in_window(br#"[{"@id":"a"} x"#, 12, true, false),
        WindowStep::Fail(StreamError::SeparatorNotFound)
    ));
    assert!(matches!(
        next_in_window(b"[7 ", 0, false, false),
        WindowStep::Fail(StreamError::NotAnElement)
    ));
}

#[test]
fn decoded_elements_hold_each_name_once() {
    // an object of a document holds a name once: the last value stands
    let elements = decode_all(br#"[{"@id":"a","name":"x","name":"y"}]"#).unwrap();
    assert_eq!(elements[0].rest.len(), 1);
    assert_eq!(elements[0].rest[0].0, "name");
}
