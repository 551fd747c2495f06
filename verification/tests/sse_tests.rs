//! Frame decoding: delimiter conventions and chunk-boundary invariance.

use sidestream::sse::{data_payload, frame_payloads, split_lines, FrameDecoder, FrameDelimiter};

fn decode_all(delim: FrameDelimiter, chunks: &[&[u8]]) -> Vec<Vec<u8>> {
    let mut d = FrameDecoder::new(delim);
    let mut frames = Vec::new();
    for c in chunks {
        frames.extend(d.push_chunk(c));
    }
    frames
}

#[test]
fn blank_line_frames_split_correctly() {
    let frames = decode_all(
        FrameDelimiter::BlankLine,
        &[b"data: a\n\ndata: b\n\npartial"],
    );
    assert_eq!(frames, vec![b"data: a".to_vec(), b"data: b".to_vec()]);
}

#[test]
fn frame_split_across_chunks_reassembles() {
    let frames = decode_all(FrameDelimiter::BlankLine, &[b"data: hel", b"lo\n", b"\n"]);
    assert_eq!(frames, vec![b"data: hello".to_vec()]);
}

#[test]
fn per_byte_feeding_equals_whole_feeding() {
    let input: &[u8] = b"data: one\n\nignored line\ndata: two\n\ndata: {\"k\":1}\n\ntail";
    let whole = decode_all(FrameDelimiter::BlankLine, &[input]);
    let mut single_bytes: Vec<Vec<u8>> = Vec::new();
    for b in input {
        single_bytes.push(vec![*b]);
    }
    let refs: Vec<&[u8]> = single_bytes.iter().map(|v| v.as_slice()).collect();
    let bytewise = decode_all(FrameDelimiter::BlankLine, &refs);
    assert_eq!(whole, bytewise);
}

#[test]
fn newline_frames_strip_carriage_returns() {
    let frames = decode_all(FrameDelimiter::Newline, &[b"data: x\r\ndata: y\npart"]);
    assert_eq!(frames, vec![b"data: x".to_vec(), b"data: y".to_vec()]);
}

#[test]
fn newline_per_byte_feeding_equals_whole_feeding() {
    let input: &[u8] = b"data: {\"a\":1}\r\ndata: {\"b\":2}\r\nrest";
    let whole = decode_all(FrameDelimiter::Newline, &[input]);
    let mut refs_store: Vec<Vec<u8>> = Vec::new();
    for b in input {
        refs_store.push(vec![*b]);
    }
    let refs: Vec<&[u8]> = refs_store.iter().map(|v| v.as_slice()).collect();
    let bytewise = decode_all(FrameDelimiter::Newline, &refs);
    assert_eq!(whole, bytewise);
}

#[test]
fn split_lines_matches_line_conventions() {
    let lines = split_lines("a\r\nb\nc");
    assert_eq!(lines, vec!["a".to_string(), "b".to_string(), "c".to_string()]);
    let lines2 = split_lines("a\n");
    assert_eq!(lines2, vec!["a".to_string()]);
    let empty = split_lines("");
    assert!(empty.is_empty());
}

#[test]
fn data_payload_strips_prefix_only() {
    assert_eq!(data_payload("data: hello"), Some("hello".to_string()));
    assert_eq!(data_payload("event: ping"), None);
    assert_eq!(data_payload("data:nospace"), None);
}

#[test]
fn frame_payloads_ignores_non_data_lines() {
    let p = frame_payloads(b"event: message\ndata: one\nretry: 3\ndata: two");
    assert_eq!(p, vec!["one".to_string(), "two".to_string()]);
}
