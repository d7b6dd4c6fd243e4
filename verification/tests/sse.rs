use smart_tavern::sse::SseDecoder;

#[test]
fn decodes_split_sse_events() {
    let mut decoder = SseDecoder::default();

    assert!(decoder.push_str("data: {\"a\"").is_empty());
    assert_eq!(decoder.push_str(":1}\n\n"), vec!["{\"a\":1}"]);
}

#[test]
fn decodes_multiple_events_from_one_chunk() {
    let mut decoder = SseDecoder::default();

    assert_eq!(
        decoder.push_str("event: one\ndata: first\r\n\r\ndata: second\n\n"),
        vec!["first", "second"]
    );
}

#[test]
fn joins_multiline_data_payloads() {
    let mut decoder = SseDecoder::default();

    assert_eq!(
        decoder.push_str("data: hello\ndata: world\n\n"),
        vec!["hello\nworld"]
    );
}

#[test]
fn chunked_input_decodes_like_whole_input() {
    let stream = "data: a\r\n\r\nevent: x\ndata:b\ndata:  c\n\ndata: tail";
    let mut whole = SseDecoder::default();
    let all = whole.push_str(stream);
    let mut pieces = SseDecoder::default();
    let mut collected = Vec::new();
    for chunk in ["data: a\r", "\n\r", "\nevent: x\nda", "ta:b\ndata:  c\n", "\ndata: tail"] {
        collected.extend(pieces.push_str(chunk));
    }
    assert_eq!(all, collected);
    assert_eq!(all, vec!["a", "b\n c"]);
    assert_eq!(whole.finish(), vec!["tail"]);
    assert_eq!(pieces.finish(), vec!["tail"]);
}

#[test]
fn finish_ignores_whitespace_only_buffer() {
    let mut decoder = SseDecoder::default();
    assert!(decoder.push_str(" \r\n ").is_empty());
    assert!(decoder.finish().is_empty());
    assert!(decoder.finish().is_empty());
}

#[test]
fn events_without_data_lines_yield_nothing() {
    let mut decoder = SseDecoder::default();
    assert!(decoder.push_str("event: ping\nid: 3\n\n").is_empty());
    assert_eq!(decoder.push_str("data:x\r\r\n\n"), vec!["x"]);
}
