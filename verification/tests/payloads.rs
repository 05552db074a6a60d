use stream_decoder::event::{decode_line, decode_payload, DecodeError, Event};
use stream_decoder::json::lookup;
use stream_decoder::path::{FieldPath, PathStep};

fn parsed(text: &str) -> serde_json::Value {
    serde_json::from_str::<serde_json::Value>(text).unwrap()
}

#[test]
fn lookup_finds_a_member() {
    let value = parsed(r#"{"completion": "hello", "stop": null}"#);
    assert_eq!(
        lookup(&value, &FieldPath::completion()),
        Some("hello".to_string())
    );
}

#[test]
fn lookup_follows_keys_and_indices() {
    let value = parsed(r#"{"choices":[{"message":{"role":"assistant","content":"hi there"}}]}"#);
    assert_eq!(
        lookup(&value, &FieldPath::chat_message()),
        Some("hi there".to_string())
    );
    assert_eq!(lookup(&value, &FieldPath::chat_delta()), None);
}

#[test]
fn lookup_takes_the_element_at_the_index() {
    let value = parsed(r#"{"list": ["zero", "one", "two"]}"#);
    let path = FieldPath::new().key("list").index(1);
    assert_eq!(lookup(&value, &path), Some("one".to_string()));
    let path = FieldPath::new().key("list").index(3);
    assert_eq!(lookup(&value, &path), None);
}

#[test]
fn lookup_of_the_empty_path_is_the_root() {
    assert_eq!(
        lookup(&parsed(r#""root""#), &FieldPath::new()),
        Some("root".to_string())
    );
    assert_eq!(lookup(&parsed(r#"{"a": "b"}"#), &FieldPath::new()), None);
}

#[test]
fn lookup_does_not_mix_keys_and_indices() {
    let value = parsed(r#"{"0": "by key", "list": ["by index"]}"#);
    assert_eq!(lookup(&value, &FieldPath::new().index(0)), None);
    assert_eq!(
        lookup(&value, &FieldPath::new().key("0")),
        Some("by key".to_string())
    );
    assert_eq!(lookup(&value, &FieldPath::new().key("list").key("0")), None);
    assert_eq!(
        lookup(&value, &FieldPath::new().key("list").index(0)),
        Some("by index".to_string())
    );
}

#[test]
fn lookup_gives_nothing_for_what_is_not_a_string() {
    let value = parsed(r#"{"n": 1, "b": true, "z": null, "o": {}, "a": []}"#);
    for name in ["n", "b", "z", "o", "a", "missing"] {
        assert_eq!(lookup(&value, &FieldPath::new().key(name)), None);
    }
}

#[test]
fn lookup_cannot_pass_through_a_string() {
    let value = parsed(r#"{"completion": "text"}"#);
    let path = FieldPath::new().key("completion").key("more");
    assert_eq!(lookup(&value, &path), None);
    let path = FieldPath::new().key("completion").index(0);
    assert_eq!(lookup(&value, &path), None);
}

#[test]
fn lookup_returns_unescaped_text() {
    let value = parsed(r#"{"completion": "a\nb \"c\" é"}"#);
    assert_eq!(
        lookup(&value, &FieldPath::completion()),
        Some("a\nb \"c\" \u{e9}".to_string())
    );
}

#[test]
fn path_builders_add_steps_in_order() {
    let path = FieldPath::new().key("choices").index(0).key("delta").key("content");
    assert_eq!(path, FieldPath::chat_delta());
    assert_eq!(path.len(), 4);
    assert_eq!(path.step(0), &PathStep::Key("choices".to_string()));
    assert_eq!(path.step(1), &PathStep::Index(0));
    assert_eq!(path.step(3), &PathStep::Key("content".to_string()));
    assert_eq!(FieldPath::new().len(), 0);
    assert_eq!(FieldPath::completion(), FieldPath::new().key("completion"));
    assert_eq!(
        FieldPath::chat_message(),
        FieldPath::new().key("choices").index(0).key("message").key("content")
    );
}

#[test]
fn decode_payload_reads_a_whole_response() {
    let body = r#"{
        "id": "chatcmpl-1",
        "choices": [
            {"index": 0, "message": {"role": "assistant", "content": "No errors found."}}
        ]
    }"#;
    assert_eq!(
        decode_payload(body, &FieldPath::chat_message()),
        Ok(Some("No errors found.".to_string()))
    );
}

#[test]
fn decode_payload_without_the_field_is_no_error() {
    assert_eq!(
        decode_payload(r#"{"choices":[{"delta":{"role":"assistant"}}]}"#, &FieldPath::chat_delta()),
        Ok(None)
    );
    assert_eq!(decode_payload("{}", &FieldPath::completion()), Ok(None));
    assert_eq!(decode_payload("[]", &FieldPath::completion()), Ok(None));
}

#[test]
fn decode_payload_rejects_what_is_not_json() {
    for text in ["{not valid json}", "", "{\"completion\": \"x\"", "{} {}", "[DONE"] {
        assert_eq!(
            decode_payload(text, &FieldPath::completion()),
            Err(DecodeError::InvalidPayload {
                payload: text.to_string()
            })
        );
    }
}

#[test]
fn decode_line_tells_the_kinds_of_line_apart() {
    let path = FieldPath::completion();
    assert_eq!(decode_line(b"", &path), Ok(Event::Noise));
    assert_eq!(decode_line(b": ping", &path), Ok(Event::Noise));
    assert_eq!(decode_line(b"data: [DONE]", &path), Ok(Event::Done));
    assert_eq!(
        decode_line(b"data: {\"other\": \"x\"}", &path),
        Ok(Event::NoField)
    );
    assert_eq!(
        decode_line(b"data: {\"completion\": \"x\"}", &path),
        Ok(Event::Fragment("x".to_string()))
    );
}

#[test]
fn decode_line_trims_the_payload() {
    let path = FieldPath::completion();
    assert_eq!(
        decode_line(b"data:  \t{\"completion\": \"x\"} \r", &path),
        Ok(Event::Fragment("x".to_string()))
    );
}

#[test]
fn decode_line_reports_the_payload_that_is_not_json() {
    assert_eq!(
        decode_line(b"data:  {not valid json} ", &FieldPath::completion()),
        Err(DecodeError::InvalidPayload {
            payload: "{not valid json}".to_string()
        })
    );
}

#[test]
fn decode_line_reports_where_the_text_breaks() {
    let path = FieldPath::completion();
    assert_eq!(
        decode_line(b"data: \xff", &path),
        Err(DecodeError::InvalidUtf8 { offset: 6 })
    );
    assert_eq!(
        decode_line(b"data: {\"completion\": \"a\xffb\"}", &path),
        Err(DecodeError::InvalidUtf8 { offset: 23 })
    );
    assert_eq!(
        decode_line(b"data:   {\"completion\": \"\xc3\xa9\xc3\"}", &path),
        Err(DecodeError::InvalidUtf8 { offset: 26 })
    );
}

#[test]
fn decode_line_ignores_bad_text_in_noise() {
    assert_eq!(
        decode_line(b"\xff\xfe garbage", &FieldPath::completion()),
        Ok(Event::Noise)
    );
}

#[test]
fn decode_line_reads_text_beyond_ascii() {
    assert_eq!(
        decode_line("data: {\"completion\": \"caf\u{e9} \u{1f600}\"}".as_bytes(), &FieldPath::completion()),
        Ok(Event::Fragment("caf\u{e9} \u{1f600}".to_string()))
    );
}
