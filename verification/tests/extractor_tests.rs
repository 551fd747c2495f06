//! Incremental JSON-array item extraction.

use sidestream::discovery::{
    extract_candidates_from_buffer, extract_items_from_buffer, JsonParseState,
};
use sidestream::json::{parse_json, JsonValue};

#[test]
fn one_character_chunks_yield_both_objects_in_order() {
    let doc = "{\"items\":[{\"a\":1},{\"a\":2}]}";
    let mut state = JsonParseState::new();
    let mut cands: Vec<String> = Vec::new();
    for c in doc.chars() {
        let chunk = c.to_string();
        cands.extend(extract_candidates_from_buffer(chunk.as_str(), &mut state));
    }
    assert_eq!(cands, vec!["{\"a\":1}".to_string(), "{\"a\":2}".to_string()]);
    // Each candidate parses as the same value the whole document holds.
    assert_eq!(parse_json(&cands[0]), parse_json("{\"a\":1}"));
    assert_eq!(parse_json(&cands[1]), parse_json("{\"a\":2}"));
    assert!(parse_json(&cands[0]).is_some());
}

#[test]
fn chunked_extraction_equals_whole_extraction() {
    let doc = "{\"items\": [{\"x\":\"a{b}\",\"y\":[1,2]},{\"x\":\"c\\\"d\",\"y\":[]}],\"z\":0}";
    let mut whole_state = JsonParseState::new();
    let whole = extract_candidates_from_buffer(doc, &mut whole_state);
    let mut part_state = JsonParseState::new();
    let (a, b) = doc.split_at(13);
    let mut parts = extract_candidates_from_buffer(a, &mut part_state);
    parts.extend(extract_candidates_from_buffer(b, &mut part_state));
    assert_eq!(whole, parts);
    assert_eq!(whole.len(), 2);
    assert_eq!(whole[0], "{\"x\":\"a{b}\",\"y\":[1,2]}".to_string());
}

#[test]
fn braces_inside_strings_are_ignored() {
    let doc = "{\"items\":[{\"t\":\"}{\"}]}";
    let mut state = JsonParseState::new();
    let cands = extract_candidates_from_buffer(doc, &mut state);
    assert_eq!(cands, vec!["{\"t\":\"}{\"}".to_string()]);
}

#[test]
fn closing_bracket_ends_extraction() {
    let mut state = JsonParseState::new();
    let mut cands = extract_candidates_from_buffer("{\"items\":[{\"a\":1}]", &mut state);
    cands.extend(extract_candidates_from_buffer("],\"more\":[{\"a\":9}]}", &mut state));
    assert_eq!(cands, vec!["{\"a\":1}".to_string()]);
}

fn full_record_json() -> String {
    "{\"title\":\"T\",\"oneLiner\":\"O\",\"fullSummary\":\"S\",\"relevanceExplanation\":\"R\",\"sourceUrl\":\"http://e\",\"sourceDomain\":\"e\",\"category\":\"c\",\"relevanceScore\":7}"
    .to_string()
}

#[test]
fn complete_records_parse_into_items() {
    let doc = format!("{{\"items\":[{}]}}", full_record_json());
    let mut state = JsonParseState::new();
    let mut items = Vec::new();
    // Feed in three-character chunks to cross record boundaries.
    let chars: Vec<char> = doc.chars().collect();
    for chunk in chars.chunks(3) {
        let s: String = chunk.iter().collect();
        items.extend(extract_items_from_buffer(&s, &mut state));
    }
    assert_eq!(items.len(), 1);
    assert_eq!(items[0].title, "T".to_string());
    assert_eq!(items[0].relevance_score, 7);
    assert_eq!(items[0].source_url, "http://e".to_string());
}

#[test]
fn malformed_records_are_discarded_silently() {
    let doc = "{\"items\":[{\"title\":\"only\"},{\"a\":1}]}";
    let mut state = JsonParseState::new();
    let items = extract_items_from_buffer(doc, &mut state);
    assert!(items.is_empty());
}

#[test]
fn parse_json_models_documents() {
    let v = parse_json("{\"a\": [1, true, null, \"s\"]}").unwrap();
    match &v {
        JsonValue::Object(fields) => {
            assert_eq!(fields.len(), 1);
            assert_eq!(fields[0].0, "a".to_string());
            match &fields[0].1 {
                JsonValue::Array(items) => {
                    assert_eq!(items.len(), 4);
                    assert_eq!(items[0], JsonValue::Int(1));
                    assert_eq!(items[1], JsonValue::Bool(true));
                    assert_eq!(items[2], JsonValue::Null);
                    assert_eq!(items[3], JsonValue::Text("s".to_string()));
                },
                other => panic!("not an array: {:?}", other),
            }
        },
        other => panic!("not an object: {:?}", other),
    }
    assert_eq!(parse_json("not json"), None);
}
