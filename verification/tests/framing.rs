use stream_decoder::lines::LineBuffer;

#[test]
fn push_splits_complete_lines() {
    let mut buffer = LineBuffer::new();
    let lines = buffer.push(b"ab\ncd\nef");
    assert_eq!(lines, vec![b"ab".to_vec(), b"cd".to_vec()]);
    assert_eq!(buffer.as_slice(), b"ef");
}

#[test]
fn push_without_newline_only_buffers() {
    let mut buffer = LineBuffer::new();
    assert!(buffer.push(b"par").is_empty());
    assert!(buffer.push(b"tial").is_empty());
    assert_eq!(buffer.as_slice(), b"partial");
}

#[test]
fn push_completes_a_line_begun_earlier() {
    let mut buffer = LineBuffer::new();
    assert!(buffer.push(b"hel").is_empty());
    let lines = buffer.push(b"lo\nwor");
    assert_eq!(lines, vec![b"hello".to_vec()]);
    assert_eq!(buffer.as_slice(), b"wor");
    let lines = buffer.push(b"ld\n");
    assert_eq!(lines, vec![b"world".to_vec()]);
    assert_eq!(buffer.as_slice(), b"");
}

#[test]
fn push_keeps_empty_lines() {
    let mut buffer = LineBuffer::new();
    let lines = buffer.push(b"\n\na\n\n");
    assert_eq!(
        lines,
        vec![Vec::new(), Vec::new(), b"a".to_vec(), Vec::new()]
    );
    assert_eq!(buffer.as_slice(), b"");
}

#[test]
fn push_keeps_carriage_returns_in_the_line() {
    let mut buffer = LineBuffer::new();
    let lines = buffer.push(b"a\r\nb");
    assert_eq!(lines, vec![b"a\r".to_vec()]);
    assert_eq!(buffer.as_slice(), b"b");
}

#[test]
fn push_of_an_empty_chunk_changes_nothing() {
    let mut buffer = LineBuffer::new();
    buffer.push(b"abc");
    assert!(buffer.push(b"").is_empty());
    assert_eq!(buffer.as_slice(), b"abc");
}

#[test]
fn framing_is_the_same_byte_by_byte() {
    let stream = b"one\ntwo\n\nthree\nrest";
    let mut whole = LineBuffer::new();
    let expected = whole.push(stream);
    let mut single = LineBuffer::new();
    let mut lines = Vec::new();
    for byte in stream.iter() {
        lines.extend(single.push(&[*byte]));
    }
    assert_eq!(lines, expected);
    assert_eq!(single.as_slice(), whole.as_slice());
    assert_eq!(single.as_slice(), b"rest");
}
