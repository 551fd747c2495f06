//! Request-body construction for the three providers.

use sidestream::anthropic::{
    add_cache_control_to_last_message, transform_file_blocks_for_anthropic, AnthropicClient,
    ChatRequestConfig, DiscoveryRequestConfig, ThinkingConfig,
};
use sidestream::gemini::{
    GeminiClient, ChatRequestConfig as GeminiChatRequestConfig, ThinkingConfig as GeminiThinking,
    VoiceChatRequestConfig,
};
use sidestream::json::{parse_json, JsonValue};
use sidestream::openai::{
    OpenAIClient, ChatRequestConfig as OpenAIChatRequestConfig,
    DiscoveryRequestConfig as OpenAIDiscoveryRequestConfig, ReasoningEffort,
};

fn msg(role: &str, content: &str) -> JsonValue {
    parse_json(&format!("{{\"role\":\"{}\",\"content\":\"{}\"}}", role, content)).unwrap()
}

#[test]
fn anthropic_chat_request_holds_the_configured_fields() {
    let client = AnthropicClient::new("k".to_string());
    let config = ChatRequestConfig {
        model: "model-alpha".to_string(),
        messages: vec![msg("user", "hi")],
        system_prompt: Some("be brief".to_string()),
        max_tokens: 8192,
        extended_thinking: Some(ThinkingConfig { budget_tokens: 2048 }),
        web_search_enabled: true,
    };
    let body = client.build_chat_request(&config);
    assert_eq!(body.get_str("model"), Some("model-alpha"));
    assert_eq!(body.get("max_tokens").unwrap().as_int(), Some(8192));
    assert_eq!(body.get("stream").unwrap().as_bool(), Some(true));
    let msgs = body.get("messages").unwrap().as_array().unwrap();
    assert_eq!(msgs.len(), 1);
    assert_eq!(msgs[0].get_str("role"), Some("user"));
    let thinking = body.get("thinking").unwrap();
    assert_eq!(thinking.get_str("type"), Some("enabled"));
    assert_eq!(thinking.get("budget_tokens").unwrap().as_int(), Some(2048));
    let tools = body.get("tools").unwrap().as_array().unwrap();
    assert_eq!(tools[0].get_str("name"), Some("web_search"));
    let system = body.get("system").unwrap().as_array().unwrap();
    assert_eq!(system[0].get_str("text"), Some("be brief"));
    assert_eq!(system[0].get("cache_control").unwrap().get_str("type"), Some("ephemeral"));
}

#[test]
fn anthropic_chat_request_omits_unconfigured_fields() {
    let client = AnthropicClient::new("k".to_string());
    let config = ChatRequestConfig {
        model: "model-beta".to_string(),
        messages: Vec::new(),
        system_prompt: None,
        max_tokens: 100,
        extended_thinking: None,
        web_search_enabled: false,
    };
    let body = client.build_chat_request(&config);
    assert!(body.get("thinking").is_none());
    assert!(body.get("tools").is_none());
    assert!(body.get("system").is_none());
}

#[test]
fn anthropic_discovery_request_raises_ceiling_for_thinking() {
    let client = AnthropicClient::new("k".to_string());
    let base = DiscoveryRequestConfig {
        model: "model-alpha".to_string(),
        system_prompt: "sys".to_string(),
        conversation: "conv".to_string(),
        extended_thinking_enabled: None,
        thinking_budget: None,
    };
    let body = client.build_discovery_request(&base);
    assert_eq!(body.get("max_tokens").unwrap().as_int(), Some(4096));
    assert!(body.get("thinking").is_none());

    let thinking = DiscoveryRequestConfig { extended_thinking_enabled: Some(true), ..base };
    let body2 = client.build_discovery_request(&thinking);
    assert_eq!(body2.get("max_tokens").unwrap().as_int(), Some(16000));
    assert_eq!(body2.get("thinking").unwrap().get("budget_tokens").unwrap().as_int(), Some(10000));
}

#[test]
fn cache_control_wraps_string_content_of_last_message() {
    let mut messages = vec![msg("user", "first"), msg("user", "second")];
    add_cache_control_to_last_message(&mut messages);
    // The first message is untouched.
    assert_eq!(messages[0].get_str("content"), Some("first"));
    // The last message's content became one cached text block.
    let content = messages[1].get("content").unwrap().as_array().unwrap();
    assert_eq!(content.len(), 1);
    assert_eq!(content[0].get_str("type"), Some("text"));
    assert_eq!(content[0].get_str("text"), Some("second"));
    assert_eq!(content[0].get("cache_control").unwrap().get_str("type"), Some("ephemeral"));
}

#[test]
fn cache_control_marks_last_block_of_array_content() {
    let m = parse_json("{\"role\":\"user\",\"content\":[{\"type\":\"text\",\"text\":\"a\"},{\"type\":\"text\",\"text\":\"b\"}]}")
    .unwrap();
    let mut messages = vec![m];
    add_cache_control_to_last_message(&mut messages);
    let content = messages[0].get("content").unwrap().as_array().unwrap();
    assert!(content[0].get("cache_control").is_none());
    assert_eq!(content[1].get("cache_control").unwrap().get_str("type"), Some("ephemeral"));
}

#[test]
fn file_blocks_are_resent_as_document_blocks() {
    let content = parse_json("[{\"type\":\"text\",\"text\":\"t\"},{\"type\":\"file\",\"source\":{\"media_type\":\"application/zip\",\"data\":\"QQ==\"}}]")
        .unwrap();
    let out = transform_file_blocks_for_anthropic(&content);
    let blocks = out.as_array().unwrap();
    assert_eq!(blocks[0].get_str("type"), Some("text"));
    assert_eq!(blocks[1].get_str("type"), Some("document"));
    assert_eq!(blocks[1].get("source").unwrap().get_str("data"), Some("QQ=="));
    // Non-array content passes through unchanged.
    let s = parse_json("\"plain\"").unwrap();
    assert_eq!(transform_file_blocks_for_anthropic(&s), s);
}

#[test]
fn openai_chat_request_converts_messages_and_tools() {
    let client = OpenAIClient::new("k".to_string());
    let config = OpenAIChatRequestConfig {
        model: "gpt-5".to_string(),
        messages: vec![msg("user", "hi")],
        system_prompt: Some("sys".to_string()),
        reasoning_effort: Some(ReasoningEffort::Low),
        web_search_enabled: true,
        prompt_cache_key: Some("chat-1".to_string()),
        code_interpreter_enabled: true,
        container_id: None,
    };
    let body = client.build_chat_request(&config);
    assert_eq!(body.get_str("model"), Some("gpt-5"));
    let input = body.get("input").unwrap().as_array().unwrap();
    assert_eq!(input.len(), 2);
    assert_eq!(input[0].get_str("role"), Some("system"));
    assert_eq!(input[0].get_str("content"), Some("sys"));
    assert_eq!(input[1].get_str("role"), Some("user"));
    assert_eq!(input[1].get_str("content"), Some("hi"));
    let reasoning = body.get("reasoning").unwrap();
    assert_eq!(reasoning.get_str("effort"), Some("low"));
    assert_eq!(reasoning.get_str("summary"), Some("auto"));
    let tools = body.get("tools").unwrap().as_array().unwrap();
    assert_eq!(tools.len(), 2);
    assert_eq!(tools[0].get_str("type"), Some("web_search"));
    assert_eq!(tools[1].get_str("type"), Some("code_interpreter"));
    assert_eq!(tools[1].get("container").unwrap().get_str("type"), Some("auto"));
    assert_eq!(body.get_str("prompt_cache_key"), Some("chat-1"));
}

#[test]
fn openai_container_reuse_rides_in_the_tool() {
    let client = OpenAIClient::new("k".to_string());
    let config = OpenAIChatRequestConfig {
        model: "gpt-5".to_string(),
        messages: Vec::new(),
        system_prompt: None,
        reasoning_effort: None,
        web_search_enabled: false,
        prompt_cache_key: None,
        code_interpreter_enabled: true,
        container_id: Some("cont-7".to_string()),
    };
    let body = client.build_chat_request(&config);
    let tools = body.get("tools").unwrap().as_array().unwrap();
    assert_eq!(tools.len(), 1);
    assert_eq!(tools[0].get_str("container"), Some("cont-7"));
    assert!(body.get("reasoning").is_none());
    assert!(body.get("prompt_cache_key").is_none());
}

#[test]
fn openai_image_blocks_become_data_urls() {
    let client = OpenAIClient::new("k".to_string());
    let m = parse_json("{\"role\":\"user\",\"content\":[{\"type\":\"text\",\"text\":\"see\"},{\"type\":\"image\",\"source\":{\"media_type\":\"image/png\",\"data\":\"QUJD\"}},{\"type\":\"unsupported\"}]}")
    .unwrap();
    let config = OpenAIChatRequestConfig {
        model: "gpt-4o".to_string(),
        messages: vec![m],
        system_prompt: None,
        reasoning_effort: None,
        web_search_enabled: false,
        prompt_cache_key: None,
        code_interpreter_enabled: false,
        container_id: None,
    };
    let body = client.build_chat_request(&config);
    let input = body.get("input").unwrap().as_array().unwrap();
    let content = input[0].get("content").unwrap().as_array().unwrap();
    assert_eq!(content.len(), 2);
    assert_eq!(content[0].get_str("type"), Some("input_text"));
    assert_eq!(content[1].get_str("image_url"), Some("data:image/png;base64,QUJD"));
}

#[test]
fn openai_discovery_effort_defaults_to_low() {
    let client = OpenAIClient::new("k".to_string());
    let config = OpenAIDiscoveryRequestConfig {
        model: "gpt-5".to_string(),
        system_prompt: "s".to_string(),
        conversation: "c".to_string(),
        prompt_cache_key: Some("discovery".to_string()),
        reasoning_level: None,
    };
    let body = client.build_discovery_request(&config);
    assert_eq!(body.get("reasoning").unwrap().get_str("effort"), Some("low"));
    assert_eq!(body.get_str("prompt_cache_key"), Some("discovery"));
    let config2 = OpenAIDiscoveryRequestConfig {
        reasoning_level: Some("off".to_string()),
        prompt_cache_key: None,
        ..config
    };
    let body2 = client.build_discovery_request(&config2);
    assert_eq!(body2.get("reasoning").unwrap().get_str("effort"), Some("none"));
    assert!(body2.get("prompt_cache_key").is_none());
}

#[test]
fn gemini_chat_request_maps_roles_and_tools() {
    let client = GeminiClient::new("key-1".to_string());
    let config = GeminiChatRequestConfig {
        messages: vec![msg("assistant", "earlier"), msg("user", "now")],
        system_prompt: Some("sys".to_string()),
        thinking_config: Some(GeminiThinking::Budget(5000)),
        web_search_enabled: true,
        code_execution_enabled: true,
    };
    let body = client.build_chat_request(&config);
    let contents = body.get("contents").unwrap().as_array().unwrap();
    assert_eq!(contents[0].get_str("role"), Some("model"));
    assert_eq!(contents[1].get_str("role"), Some("user"));
    let parts = contents[1].get("parts").unwrap().as_array().unwrap();
    assert_eq!(parts[0].get_str("text"), Some("now"));
    let sysi = body.get("systemInstruction").unwrap();
    let sys_parts = sysi.get("parts").unwrap().as_array().unwrap();
    assert_eq!(sys_parts[0].get_str("text"), Some("sys"));
    let genc = body.get("generationConfig").unwrap();
    assert_eq!(
        genc.get("thinkingConfig").unwrap().get("thinkingBudget").unwrap().as_int(),
        Some(5000)
    );
    let tools = body.get("tools").unwrap().as_array().unwrap();
    assert_eq!(tools.len(), 2);
    assert!(tools[0].get("google_search").is_some());
    assert!(tools[1].get("code_execution").is_some());
}

#[test]
fn gemini_urls_carry_the_credential() {
    let client = GeminiClient::new("secret".to_string());
    assert_eq!(
        client.build_stream_url("gemini-2.5-pro"),
        "https://generativelanguage.googleapis.com/v1beta/models/gemini-2.5-pro:streamGenerateContent?alt=sse&key=secret".to_string()
    );
    assert_eq!(
        client.build_url("gemini-2.0-flash"),
        "https://generativelanguage.googleapis.com/v1beta/models/gemini-2.0-flash:generateContent?key=secret".to_string()
    );
}

#[test]
fn gemini_voice_request_appends_audio_and_instruction() {
    let client = GeminiClient::new("k".to_string());
    let config = VoiceChatRequestConfig {
        messages: vec![msg("user", "before")],
        audio_base64: "QUJD".to_string(),
        system_prompt: Some("base".to_string()),
        thinking_config: None,
        web_search_enabled: false,
    };
    let body = client.build_voice_chat_request(&config);
    let contents = body.get("contents").unwrap().as_array().unwrap();
    assert_eq!(contents.len(), 2);
    let audio_parts = contents[1].get("parts").unwrap().as_array().unwrap();
    let inline = audio_parts[0].get("inlineData").unwrap();
    assert_eq!(inline.get_str("mimeType"), Some("audio/wav"));
    assert_eq!(inline.get_str("data"), Some("QUJD"));
    let sysi = body.get("systemInstruction").unwrap();
    let text = sysi.get("parts").unwrap().as_array().unwrap()[0]
        .get_str("text")
        .unwrap()
        .to_string();
    assert!(text.starts_with("IMPORTANT: The user has sent an audio message."));
    assert!(text.ends_with("base"));
}

#[test]
fn gemini_transcription_request_and_response_text() {
    let client = GeminiClient::new("k".to_string());
    let body = client.build_transcription_request("AAAA");
    let contents = body.get("contents").unwrap().as_array().unwrap();
    let inline = contents[0].get("parts").unwrap().as_array().unwrap()[0]
        .get("inlineData")
        .unwrap()
        .get_str("data");
    assert_eq!(inline, Some("AAAA"));

    let response = parse_json(
        "{\"candidates\":[{\"content\":{\"parts\":[{\"text\":\" words \"}]}}]}",
    )
    .unwrap();
    assert_eq!(client.response_text(&response), " words ".to_string());
    let empty = parse_json("{}").unwrap();
    assert_eq!(client.response_text(&empty), "".to_string());
}
