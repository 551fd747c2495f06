//! The discovery turn over streamed frames, per provider.

use sidestream::discovery::{DiscoveryEvent, DiscoveryTurn};
use sidestream::routing::Provider;

fn record(n: u32) -> String {
    format!(
        "{{\"title\":\"T{}\",\"oneLiner\":\"O\",\"fullSummary\":\"S\",\"relevanceExplanation\":\"R\",\"sourceUrl\":\"http://e\",\"sourceDomain\":\"e\",\"category\":\"c\",\"relevanceScore\":{}}}",
        n, n
    )
}

#[test]
fn anthropic_discovery_yields_items_then_done() {
    let mut turn = DiscoveryTurn::new("d1".to_string(), Provider::Anthropic);
    let doc = format!("{{\"items\":[{},{}]}}", record(1), record(2));
    let escaped = doc.replace('\\', "\\\\").replace('"', "\\\"");
    let frame = format!(
        "data: {{\"type\":\"content_block_delta\",\"delta\":{{\"type\":\"text_delta\",\"text\":\"{}\"}}}}\n\ndata: {{\"type\":\"message_stop\"}}\n\n",
        escaped
    );
    let events = turn.push_bytes(frame.as_bytes());
    let titles: Vec<String> = events
        .iter()
        .filter_map(|e| match e {
            DiscoveryEvent::Item(it) => Some(it.item.title.clone()),
            _ => None,
        })
        .collect();
    assert_eq!(titles, vec!["T1".to_string(), "T2".to_string()]);
    assert!(matches!(events.last(), Some(DiscoveryEvent::Done(_))));
}

#[test]
fn openai_discovery_error_is_terminal() {
    let mut turn = DiscoveryTurn::new("d2".to_string(), Provider::OpenAI);
    let events = turn.push_bytes(
        b"data: {\"type\":\"error\",\"error\":{\"message\":\"nope\"}}\n\n",
    );
    assert_eq!(events.len(), 1);
    match &events[0] {
        DiscoveryEvent::Error(e) => {
            assert_eq!(e.turn_id, "d2".to_string());
            assert_eq!(e.error, "nope".to_string());
        },
        other => panic!("unexpected event: {:?}", other),
    }
    assert!(turn.finish().is_empty());
}

#[test]
fn gemini_discovery_diffs_cumulative_text_before_extracting() {
    let mut turn = DiscoveryTurn::new("d3".to_string(), Provider::Gemini);
    let doc = format!("{{\"items\":[{}]}}", record(3));
    let half = &doc[..doc.len() / 2];
    let quote = |s: &str| s.replace('\\', "\\\\").replace('"', "\\\"");
    let frames = format!(
        "data: {{\"candidates\":[{{\"content\":{{\"parts\":[{{\"text\":\"{}\"}}]}}}}]}}\r\ndata: {{\"candidates\":[{{\"content\":{{\"parts\":[{{\"text\":\"{}\"}}]}}}}]}}\r\ndata: {{\"usageMetadata\":{{}}}}\r\n",
        quote(half),
        quote(&doc)
    );
    let events = turn.push_bytes(frames.as_bytes());
    let titles: Vec<String> = events
        .iter()
        .filter_map(|e| match e {
            DiscoveryEvent::Item(it) => Some(it.item.title.clone()),
            _ => None,
        })
        .collect();
    assert_eq!(titles, vec!["T3".to_string()]);
    assert!(matches!(events.last(), Some(DiscoveryEvent::Done(_))));
    assert_eq!(turn.full_response, doc);
}

#[test]
fn discovery_fail_reports_the_transport_error() {
    let mut turn = DiscoveryTurn::new("d4".to_string(), Provider::Anthropic);
    let events = turn.fail("connection reset".to_string());
    assert_eq!(events.len(), 1);
    match &events[0] {
        DiscoveryEvent::Error(e) => assert_eq!(e.error, "connection reset".to_string()),
        other => panic!("unexpected event: {:?}", other),
    }
    // No completion after a failure.
    assert!(turn.finish().is_empty());
}
