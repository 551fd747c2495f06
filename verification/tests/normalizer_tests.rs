//! Per-provider frame normalization over real JSON payloads.

use sidestream::anthropic;
use sidestream::anthropic::AnthropicStreamEvent;
use sidestream::gemini;
use sidestream::gemini::{extract_inline_citations_from_grounding, GeminiStreamEvent};
use sidestream::openai;
use sidestream::openai::OpenAIStreamEvent;

#[test]
fn anthropic_done_sentinel_and_stop_frames() {
    assert_eq!(anthropic::parse_sse_event("[DONE]"), AnthropicStreamEvent::Done);
    assert_eq!(
        anthropic::parse_sse_event("{\"type\":\"message_stop\"}"),
        AnthropicStreamEvent::MessageStop
    );
    assert_eq!(
        anthropic::parse_sse_event("{\"type\":\"content_block_stop\"}"),
        AnthropicStreamEvent::ContentBlockStop
    );
    assert_eq!(anthropic::parse_sse_event("not json"), AnthropicStreamEvent::Unknown);
    assert_eq!(anthropic::parse_sse_event("{\"type\":\"ping\"}"), AnthropicStreamEvent::Unknown);
}

#[test]
fn anthropic_text_delta_frame() {
    let e = anthropic::parse_sse_event(
        "{\"type\":\"content_block_delta\",\"delta\":{\"type\":\"text_delta\",\"text\":\"Hi\"}}",
    );
    match e {
        AnthropicStreamEvent::ContentBlockDelta { text, thinking, citation, input_json } => {
            assert_eq!(text, Some("Hi".to_string()));
            assert_eq!(thinking, None);
            assert_eq!(citation, None);
            assert_eq!(input_json, None);
        },
        other => panic!("unexpected event: {:?}", other),
    }
}

#[test]
fn anthropic_citation_delta_frame() {
    let e = anthropic::parse_sse_event("{\"type\":\"content_block_delta\",\"delta\":{\"type\":\"citations_delta\",\"citation\":{\"url\":\"http://u\",\"title\":\"t\",\"cited_text\":\"q\"}}}");
    match e {
        AnthropicStreamEvent::ContentBlockDelta { citation, .. } => {
            let c = citation.expect("citation expected");
            assert_eq!(c.url, "http://u".to_string());
            assert_eq!(c.title, "t".to_string());
            assert_eq!(c.cited_text, "q".to_string());
        },
        other => panic!("unexpected event: {:?}", other),
    }
}

#[test]
fn anthropic_block_start_carries_tool_identity() {
    let e = anthropic::parse_sse_event("{\"type\":\"content_block_start\",\"content_block\":{\"type\":\"server_tool_use\",\"id\":\"t1\",\"name\":\"bash_code_execution\"}}");
    match e {
        AnthropicStreamEvent::ContentBlockStart { block_type, tool_id, tool_name, exec_result } => {
            assert_eq!(block_type, "server_tool_use".to_string());
            assert_eq!(tool_id, Some("t1".to_string()));
            assert_eq!(tool_name, Some("bash_code_execution".to_string()));
            assert!(exec_result.is_none());
        },
        other => panic!("unexpected event: {:?}", other),
    }
}

#[test]
fn anthropic_exec_result_block_is_parsed() {
    let e = anthropic::parse_sse_event("{\"type\":\"content_block_start\",\"content_block\":{\"type\":\"bash_code_execution_tool_result\",\"content\":{\"stdout\":\"ok\",\"stderr\":\"\",\"return_code\":0,\"content\":[{\"file_id\":\"f1\",\"filename\":\"out.csv\"}]}}}");
    match e {
        AnthropicStreamEvent::ContentBlockStart { exec_result, .. } => {
            let r = exec_result.expect("result expected");
            assert_eq!(r.stdout, Some("ok".to_string()));
            assert_eq!(r.return_code, Some(0));
            assert_eq!(r.files.len(), 1);
            assert_eq!(r.files[0].file_id, "f1".to_string());
            assert_eq!(r.files[0].filename, Some("out.csv".to_string()));
        },
        other => panic!("unexpected event: {:?}", other),
    }
}

#[test]
fn openai_frames_normalize() {
    assert_eq!(openai::parse_sse_event("[DONE]"), OpenAIStreamEvent::Done);
    assert_eq!(
        openai::parse_sse_event("{\"type\":\"response.completed\"}"),
        OpenAIStreamEvent::ResponseCompleted
    );
    let e = openai::parse_sse_event(
        "{\"type\":\"response.output_text.delta\",\"delta\":\"chunk\"}",
    );
    assert_eq!(e, OpenAIStreamEvent::TextDelta { text: "chunk".to_string() });
    let err = openai::parse_sse_event("{\"type\":\"error\",\"error\":{\"message\":\"boom\"}}");
    assert_eq!(err, OpenAIStreamEvent::Error { message: "boom".to_string() });
    let err2 = openai::parse_sse_event("{\"type\":\"error\"}");
    assert_eq!(err2, OpenAIStreamEvent::Error { message: "Unknown error".to_string() });
}

#[test]
fn openai_text_done_collects_citations_and_files() {
    let e = openai::parse_sse_event("{\"type\":\"response.output_text.done\",\"text\":\"body\",\"annotations\":[{\"type\":\"url_citation\",\"url\":\"http://u\",\"title\":\"T\",\"start_index\":3},{\"type\":\"container_file_citation\",\"file_id\":\"f9\",\"container_id\":\"c1\",\"filename\":\"a.png\"},{\"type\":\"container_file_citation\",\"file_id\":\"\"}]}");
    match e {
        OpenAIStreamEvent::TextDone { text, annotations, file_citations } => {
            assert_eq!(text, "body".to_string());
            assert_eq!(annotations.len(), 1);
            assert_eq!(annotations[0].url, "http://u".to_string());
            assert_eq!(annotations[0].start_index, Some(3));
            assert_eq!(annotations[0].end_index, None);
            assert_eq!(file_citations.len(), 1);
            assert_eq!(file_citations[0].file_id, "f9".to_string());
            assert_eq!(file_citations[0].container_id, "c1".to_string());
        },
        other => panic!("unexpected event: {:?}", other),
    }
}

#[test]
fn openai_reasoning_summary_joins_entries() {
    let e = openai::parse_sse_event("{\"type\":\"response.output_item.added\",\"item\":{\"type\":\"reasoning\",\"summary\":[{\"type\":\"summary_text\",\"text\":\"a\"},{\"type\":\"other\",\"text\":\"skip\"},{\"type\":\"summary_text\",\"text\":\"b\"}]}}");
    assert_eq!(e, OpenAIStreamEvent::ReasoningSummary { text: "a\nb".to_string() });
}

#[test]
fn gemini_structural_sniffing() {
    let errs = gemini::parse_sse_event("{\"error\":{\"message\":\"quota\"}}");
    assert_eq!(errs, vec![GeminiStreamEvent::Error { message: "quota".to_string() }]);

    let text = gemini::parse_sse_event(
        "{\"candidates\":[{\"content\":{\"parts\":[{\"text\":\"Hello\"}]}}]}",
    );
    assert_eq!(text, vec![GeminiStreamEvent::TextDelta { text: "Hello".to_string() }]);

    let thinking = gemini::parse_sse_event(
        "{\"candidates\":[{\"content\":{\"parts\":[{\"thought\":true,\"text\":\"mull\"}]}}]}",
    );
    assert_eq!(thinking, vec![GeminiStreamEvent::ThinkingDelta { text: "mull".to_string() }]);

    let done = gemini::parse_sse_event("{\"usageMetadata\":{\"totalTokenCount\":5}}");
    assert_eq!(done, vec![GeminiStreamEvent::ResponseComplete]);

    let unknown = gemini::parse_sse_event("{}");
    assert_eq!(unknown, vec![GeminiStreamEvent::Unknown]);
    let bad = gemini::parse_sse_event("###");
    assert_eq!(bad, vec![GeminiStreamEvent::Unknown]);
}

#[test]
fn gemini_one_frame_can_carry_several_facts() {
    let events = gemini::parse_sse_event("{\"candidates\":[{\"content\":{\"parts\":[{\"executableCode\":{\"code\":\"print(1)\"}},{\"codeExecutionResult\":{\"output\":\"1\"}},{\"text\":\"done\"}]}}]}");
    assert_eq!(
        events,
        vec![
            GeminiStreamEvent::ExecutableCode { code: "print(1)".to_string() },
            GeminiStreamEvent::CodeExecutionResult { output: "1".to_string() },
            GeminiStreamEvent::TextDelta { text: "done".to_string() },
        ]
    );
}

#[test]
fn gemini_citation_offsets_count_characters_not_bytes() {
    let events = gemini::parse_sse_event("{\"candidates\":[{\"groundingMetadata\":{\"webSearchQueries\":[],\"groundingChunks\":[{\"web\":{\"uri\":\"http://s\",\"title\":\"S\"}}],\"groundingSupports\":[{\"segment\":{\"startIndex\":0,\"endIndex\":3,\"text\":\"eé\"},\"groundingChunkIndices\":[0]}]}}]}");
    let metadata = match &events[0] {
        GeminiStreamEvent::GroundingMetadata { metadata } => metadata,
        other => panic!("unexpected event: {:?}", other),
    };
    // 'é' is two bytes: byte offset 3 covers two whole characters.
    let citations = extract_inline_citations_from_grounding(metadata, "eé rest");
    assert_eq!(citations.len(), 1);
    assert_eq!(citations[0].char_offset, 2);
    assert_eq!(citations[0].cited_text, "eé".to_string());

    // Without supports, every source lands at the character count of the
    // whole text.
    let no_supports = gemini::parse_sse_event("{\"candidates\":[{\"groundingMetadata\":{\"webSearchQueries\":[],\"groundingChunks\":[{\"web\":{\"uri\":\"http://s\",\"title\":\"S\"}}],\"groundingSupports\":[]}}]}");
    let metadata2 = match &no_supports[0] {
        GeminiStreamEvent::GroundingMetadata { metadata } => metadata,
        other => panic!("unexpected event: {:?}", other),
    };
    let citations2 = extract_inline_citations_from_grounding(metadata2, "eé日");
    assert_eq!(citations2.len(), 1);
    assert_eq!(citations2[0].char_offset, 3);
}

#[test]
fn gemini_grounding_parses_sources_and_supports() {
    let events = gemini::parse_sse_event("{\"candidates\":[{\"groundingMetadata\":{\"webSearchQueries\":[\"q\"],\"groundingChunks\":[{\"web\":{\"uri\":\"http://s\",\"title\":\"S\"}}],\"groundingSupports\":[{\"segment\":{\"startIndex\":0,\"endIndex\":4,\"text\":\"abcd\"},\"groundingChunkIndices\":[0]}]}}]}");
    assert_eq!(events.len(), 1);
    match &events[0] {
        GeminiStreamEvent::GroundingMetadata { metadata } => {
            assert_eq!(metadata.web_search_queries, vec!["q".to_string()]);
            assert_eq!(metadata.grounding_chunks.len(), 1);
            let w = metadata.grounding_chunks[0].web.as_ref().unwrap();
            assert_eq!(w.uri, "http://s".to_string());
            assert_eq!(metadata.grounding_supports.len(), 1);
            assert_eq!(metadata.grounding_supports[0].segment.end_index, 4);
            assert_eq!(metadata.grounding_supports[0].grounding_chunk_indices, vec![0]);
        },
        other => panic!("unexpected event: {:?}", other),
    }
}
