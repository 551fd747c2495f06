//! Turn orchestration: accumulation, terminal behaviour, cancellation,
//! citation offsets and transcription extraction.

use sidestream::events::{TurnEvent, TurnPhase};
use sidestream::gemini::GeminiStreamEvent;
use sidestream::turn_anthropic::AnthropicTurn;
use sidestream::turn_gemini::GeminiTurn;
use sidestream::turn_openai::OpenAITurn;
use sidestream::voice::{extract_transcription, VoiceTurn};

fn delta_text(ev: &TurnEvent) -> Option<String> {
    match ev {
        TurnEvent::Delta(d) if !d.text.is_empty() => Some(d.text.clone()),
        _ => None,
    }
}

#[test]
fn anthropic_stream_accumulates_and_finishes() {
    let mut turn = AnthropicTurn::new("t1".to_string());
    let bytes = "data: {\"type\":\"content_block_start\",\"content_block\":{\"type\":\"text\"}}\n\ndata: {\"type\":\"content_block_delta\",\"delta\":{\"type\":\"text_delta\",\"text\":\"Hel\"}}\n\ndata: {\"type\":\"content_block_delta\",\"delta\":{\"type\":\"text_delta\",\"text\":\"lo\"}}\n\ndata: {\"type\":\"message_stop\"}\n\n";
    // Cut the stream at an arbitrary position inside a frame.
    let (a, b) = bytes.as_bytes().split_at(57);
    let mut events = turn.push_bytes(a);
    events.extend(turn.push_bytes(b));
    let texts: Vec<String> = events.iter().filter_map(delta_text).collect();
    assert_eq!(texts, vec!["Hel".to_string(), "lo".to_string()]);
    assert_eq!(events.last(), Some(&TurnEvent::Done { turn_id: "t1".to_string() }));
    assert_eq!(turn.full_response, "Hello".to_string());
}

#[test]
fn anthropic_paragraph_break_after_thinking_block() {
    let mut turn = AnthropicTurn::new("t".to_string());
    let bytes = "data: {\"type\":\"content_block_start\",\"content_block\":{\"type\":\"thinking\"}}\n\ndata: {\"type\":\"content_block_stop\"}\n\ndata: {\"type\":\"content_block_start\",\"content_block\":{\"type\":\"text\"}}\n\n";
    let events = turn.push_bytes(bytes.as_bytes());
    let texts: Vec<String> = events.iter().filter_map(delta_text).collect();
    assert_eq!(texts, vec!["\n\n".to_string()]);
}

#[test]
fn anthropic_citation_lands_at_accumulated_length() {
    let mut turn = AnthropicTurn::new("t".to_string());
    let bytes = "data: {\"type\":\"content_block_delta\",\"delta\":{\"type\":\"text_delta\",\"text\":\"Hello\"}}\n\ndata: {\"type\":\"content_block_delta\",\"delta\":{\"type\":\"citations_delta\",\"citation\":{\"url\":\"http://u\",\"title\":\"T\",\"cited_text\":\"He\"}}}\n\n";
    let events = turn.push_bytes(bytes.as_bytes());
    let mut offsets = Vec::new();
    for ev in &events {
        if let TurnEvent::Delta(d) = ev {
            if let Some(cs) = &d.inline_citations {
                for c in cs {
                    offsets.push(c.char_offset);
                }
            }
        }
    }
    assert_eq!(offsets, vec![5]);
}

#[test]
fn anthropic_tool_lifecycle_emits_started_and_result() {
    let mut turn = AnthropicTurn::new("t".to_string());
    let bytes = "data: {\"type\":\"content_block_start\",\"content_block\":{\"type\":\"server_tool_use\",\"id\":\"i\",\"name\":\"bash_code_execution\"}}\n\ndata: {\"type\":\"content_block_delta\",\"delta\":{\"type\":\"input_json_delta\",\"partial_json\":\"{\\\"comm\"}}\n\ndata: {\"type\":\"content_block_delta\",\"delta\":{\"type\":\"input_json_delta\",\"partial_json\":\"and\\\": \\\"ls\\\"}\"}}\n\ndata: {\"type\":\"content_block_stop\"}\n\n";
    let events = turn.push_bytes(bytes.as_bytes());
    assert_eq!(events.len(), 1);
    match &events[0] {
        TurnEvent::Delta(d) => {
            let e = d.execution.as_ref().expect("execution delta expected");
            assert_eq!(e.tool_name, "bash_code_execution".to_string());
            assert_eq!(e.code, Some("ls".to_string()));
        },
        other => panic!("unexpected event: {:?}", other),
    }
}

#[test]
fn cancellation_before_any_frame_yields_exactly_one_cancelled_event() {
    let mut turn = AnthropicTurn::new("t9".to_string());
    let events = turn.cancel();
    assert_eq!(events, vec![TurnEvent::Cancelled { turn_id: "t9".to_string() }]);
    // Later bytes are absorbed without further events.
    let more = turn.push_bytes(
        b"data: {\"type\":\"content_block_delta\",\"delta\":{\"type\":\"text_delta\",\"text\":\"x\"}}\n\n",
    );
    assert!(more.is_empty());
    assert!(turn.finish().is_empty());
    assert!(matches!(turn.phase, TurnPhase::Cancelled));
}

#[test]
fn terminal_event_is_last_and_unique() {
    let mut turn = AnthropicTurn::new("t".to_string());
    let mut events = turn.push_bytes(
        b"data: {\"type\":\"content_block_delta\",\"delta\":{\"type\":\"text_delta\",\"text\":\"a\"}}\n\ndata: {\"type\":\"message_stop\"}\n\ndata: {\"type\":\"content_block_delta\",\"delta\":{\"type\":\"text_delta\",\"text\":\"late\"}}\n\n",
    );
    events.extend(turn.finish());
    events.extend(turn.cancel());
    let terminal_count = events
        .iter()
        .filter(|e| {
            matches!(
                e,
                TurnEvent::Done { .. } | TurnEvent::Cancelled { .. } | TurnEvent::Error { .. }
            )
        })
        .count();
    assert_eq!(terminal_count, 1);
    assert!(matches!(events.last(), Some(TurnEvent::Done { .. })));
}

#[test]
fn openai_stream_text_and_completion() {
    let mut turn = OpenAITurn::new("o1".to_string());
    let bytes = "data: {\"type\":\"response.output_text.delta\",\"delta\":\"Hi\"}\n\ndata: [DONE]\n\n";
    let events = turn.push_bytes(bytes.as_bytes());
    let texts: Vec<String> = events.iter().filter_map(delta_text).collect();
    assert_eq!(texts, vec!["Hi".to_string()]);
    assert_eq!(events.last(), Some(&TurnEvent::Done { turn_id: "o1".to_string() }));
}

#[test]
fn openai_error_frame_is_terminal() {
    let mut turn = OpenAITurn::new("o2".to_string());
    let events = turn.push_bytes(
        b"data: {\"type\":\"error\",\"error\":{\"message\":\"bad key\"}}\n\n",
    );
    assert_eq!(
        events,
        vec![TurnEvent::Error { turn_id: "o2".to_string(), message: "bad key".to_string() }]
    );
    assert!(turn.finish().is_empty());
}

#[test]
fn openai_end_of_message_citations_use_accumulated_length() {
    let mut turn = OpenAITurn::new("o3".to_string());
    let bytes = "data: {\"type\":\"response.output_text.delta\",\"delta\":\"abcd\"}\n\ndata: {\"type\":\"response.output_text.done\",\"text\":\"abcd\",\"annotations\":[{\"type\":\"url_citation\",\"url\":\"http://u\",\"title\":\"T\"}]}\n\n";
    let events = turn.push_bytes(bytes.as_bytes());
    let mut offsets = Vec::new();
    for ev in &events {
        if let TurnEvent::Delta(d) = ev {
            if let Some(cs) = &d.inline_citations {
                for c in cs {
                    offsets.push(c.char_offset);
                }
            }
        }
    }
    assert_eq!(offsets, vec![4]);
}

#[test]
fn gemini_cumulative_text_is_diffed() {
    let mut turn = GeminiTurn::new("g1".to_string());
    let mut texts = Vec::new();
    for cumulative in ["Hi", "Hi there", "Hi there!"] {
        let events = turn.handle_event(
            GeminiStreamEvent::TextDelta { text: cumulative.to_string() },
            0,
        );
        texts.extend(events.iter().filter_map(delta_text));
    }
    assert_eq!(texts, vec!["Hi".to_string(), " there".to_string(), "!".to_string()]);
    assert_eq!(turn.full_response, "Hi there!".to_string());

    // A non-prefix continuation resets and is emitted in full.
    let events = turn.handle_event(GeminiStreamEvent::TextDelta { text: "Bye".to_string() }, 0);
    let t: Vec<String> = events.iter().filter_map(delta_text).collect();
    assert_eq!(t, vec!["Bye".to_string()]);
}

#[test]
fn gemini_stream_bytes_end_to_end() {
    let mut turn = GeminiTurn::new("g2".to_string());
    let bytes = "data: {\"candidates\":[{\"content\":{\"parts\":[{\"text\":\"Hi\"}]}}]}\r\ndata: {\"candidates\":[{\"content\":{\"parts\":[{\"text\":\"Hi!\"}]}}]}\r\ndata: {\"usageMetadata\":{\"totalTokenCount\":3}}\r\n";
    let events = turn.push_bytes(bytes.as_bytes(), 17);
    let texts: Vec<String> = events.iter().filter_map(delta_text).collect();
    assert_eq!(texts, vec!["Hi".to_string(), "!".to_string()]);
    assert_eq!(events.last(), Some(&TurnEvent::Done { turn_id: "g2".to_string() }));
}

#[test]
fn gemini_inline_file_synthesizes_identity() {
    let mut turn = GeminiTurn::new("g3".to_string());
    let events = turn.handle_event(
        GeminiStreamEvent::InlineData {
            mime_type: "image/png".to_string(),
            data: "QUJD".to_string(),
        },
        1700000000123,
    );
    assert_eq!(events.len(), 1);
    match &events[0] {
        TurnEvent::Delta(d) => {
            let e = d.execution.as_ref().unwrap();
            let files = e.files.as_ref().unwrap();
            assert_eq!(files.len(), 1);
            assert_eq!(files[0].file_id, "gemini-1700000000123-0".to_string());
            assert_eq!(files[0].filename, "generated-1700000000123.png".to_string());
            assert_eq!(files[0].mime_type, Some("image/png".to_string()));
            assert_eq!(
                files[0].image_preview,
                Some("data:image/png;base64,QUJD".to_string())
            );
            assert_eq!(files[0].inline_data, Some("QUJD".to_string()));
        },
        other => panic!("unexpected event: {:?}", other),
    }
    assert_eq!(turn.generated_file_count, 1);
}

#[test]
fn transcription_extraction() {
    assert_eq!(
        extract_transcription("[TRANSCRIPTION] hello [/TRANSCRIPTION] rest"),
        Some("hello".to_string())
    );
    assert_eq!(extract_transcription("[TRANSCRIPTION] unfinished"), None);
    assert_eq!(extract_transcription("no tags"), None);
}

#[test]
fn voice_turn_emits_transcription_once_then_clean_delta() {
    let mut turn = VoiceTurn::new("v1".to_string());
    let events = turn.handle_event(GeminiStreamEvent::TextDelta {
        text: "[TRANSCRIPTION]hello[/TRANSCRIPTION]\n\nHi there".to_string(),
    });
    assert_eq!(events.len(), 2);
    assert_eq!(
        events[0],
        TurnEvent::Transcription {
            turn_id: "v1".to_string(),
            transcription: "hello".to_string(),
        }
    );
    assert_eq!(delta_text(&events[1]), Some("Hi there".to_string()));

    // Later cumulative text only yields ordinary deltas; the transcription
    // event never fires again.
    let more = turn.handle_event(GeminiStreamEvent::TextDelta {
        text: "[TRANSCRIPTION]hello[/TRANSCRIPTION]\n\nHi there, friend".to_string(),
    });
    assert_eq!(more.len(), 1);
    assert_eq!(delta_text(&more[0]), Some(", friend".to_string()));
}

#[test]
fn voice_turn_holds_text_until_transcription_completes() {
    let mut turn = VoiceTurn::new("v2".to_string());
    let first = turn.handle_event(GeminiStreamEvent::TextDelta {
        text: "[TRANSCRIPTION]hel".to_string(),
    });
    assert!(first.is_empty());
    let second = turn.handle_event(GeminiStreamEvent::TextDelta {
        text: "[TRANSCRIPTION]hello[/TRANSCRIPTION]".to_string(),
    });
    assert_eq!(second.len(), 1);
    assert_eq!(
        second[0],
        TurnEvent::Transcription {
            turn_id: "v2".to_string(),
            transcription: "hello".to_string(),
        }
    );
}
