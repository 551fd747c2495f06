//! Provider routing, credential-name validation, and setting mappings.

use sidestream::anthropic::calculate_max_tokens;
use sidestream::cancel::CancellationSlot;
use sidestream::diffing::CumulativeText;
use sidestream::gemini::{
    is_gemini_3_flash_model, is_gemini_3_model, string_to_thinking_config, supports_thinking,
    ThinkingConfig, ThinkingLevel,
};
use sidestream::openai::{string_to_reasoning_effort, supports_reasoning, ReasoningEffort};
use sidestream::routing::{get_provider_for_model, validate_provider, Provider};

#[test]
fn provider_routing() {
    assert_eq!(get_provider_for_model("gpt-4o"), Provider::OpenAI);
    assert_eq!(get_provider_for_model("gemini-2.5-pro"), Provider::Gemini);
    assert_eq!(get_provider_for_model("model-alpha"), Provider::Anthropic);
    assert_eq!(get_provider_for_model("o3-mini"), Provider::OpenAI);
    assert_eq!(get_provider_for_model("unknown-model"), Provider::Anthropic);
    assert_eq!(get_provider_for_model("o4-mini"), Provider::OpenAI);
}

#[test]
fn provider_names_validate() {
    assert!(validate_provider("anthropic").is_ok());
    assert!(validate_provider("openai").is_ok());
    assert!(validate_provider("google").is_ok());
    let err = validate_provider("bedrock").unwrap_err();
    assert_eq!(err, "Invalid provider: bedrock".to_string());
}

#[test]
fn cumulative_diffing_sequences() {
    let mut t = CumulativeText::new();
    assert_eq!(t.push("Hi"), "Hi".to_string());
    assert_eq!(t.push("Hi there"), " there".to_string());
    assert_eq!(t.push("Hi there!"), "!".to_string());

    let mut t2 = CumulativeText::new();
    assert_eq!(t2.push("Hi"), "Hi".to_string());
    assert_eq!(t2.push("Bye"), "Bye".to_string());
}

#[test]
fn max_tokens_formula() {
    assert_eq!(calculate_max_tokens(false, None), 8192);
    assert_eq!(calculate_max_tokens(false, Some(4000)), 8192);
    assert_eq!(calculate_max_tokens(true, Some(4000)), 12192);
    assert_eq!(calculate_max_tokens(true, None), 18192);
}

#[test]
fn reasoning_effort_mapping() {
    assert_eq!(string_to_reasoning_effort("off"), ReasoningEffort::Off);
    assert_eq!(string_to_reasoning_effort("NONE"), ReasoningEffort::Off);
    assert_eq!(string_to_reasoning_effort("minimal"), ReasoningEffort::Minimal);
    assert_eq!(string_to_reasoning_effort("xhigh"), ReasoningEffort::XHigh);
    assert_eq!(string_to_reasoning_effort("whatever"), ReasoningEffort::Medium);
    assert_eq!(ReasoningEffort::Off.as_str(), "none");
    assert_eq!(ReasoningEffort::XHigh.as_str(), "xhigh");
}

#[test]
fn reasoning_support_predicate() {
    assert!(supports_reasoning("o3-mini"));
    assert!(supports_reasoning("gpt-5-turbo"));
    assert!(!supports_reasoning("gpt-4o"));
}

#[test]
fn thinking_config_mapping() {
    assert_eq!(string_to_thinking_config("off", "gemini-2.5-pro"), None);
    assert_eq!(
        string_to_thinking_config("on", "gemini-2.5-pro"),
        Some(ThinkingConfig::Budget(10000))
    );
    assert_eq!(
        string_to_thinking_config("low", "gemini-2.5-pro"),
        Some(ThinkingConfig::Budget(5000))
    );
    assert_eq!(
        string_to_thinking_config("low", "gemini-3-pro"),
        Some(ThinkingConfig::Level(ThinkingLevel::Low))
    );
    assert_eq!(
        string_to_thinking_config("medium", "gemini-3-flash"),
        Some(ThinkingConfig::Level(ThinkingLevel::Medium))
    );
    assert_eq!(
        string_to_thinking_config("medium", "gemini-3-pro"),
        Some(ThinkingConfig::Budget(15000))
    );
    assert_eq!(string_to_thinking_config("bogus", "gemini-2.5-pro"), None);
    assert_eq!(ThinkingLevel::Low.as_str(), "LOW");
    assert_eq!(ThinkingLevel::Minimal.as_str(), "minimal");
}

#[test]
fn gemini_model_predicates() {
    assert!(is_gemini_3_model("gemini-3-pro"));
    assert!(is_gemini_3_flash_model("gemini-3-flash"));
    assert!(!is_gemini_3_flash_model("gemini-3-pro"));
    assert!(supports_thinking("gemini-2.5-flash"));
    assert!(!supports_thinking("gemini-2.0-flash"));
}

#[test]
fn cancellation_slot_single_occupancy() {
    let mut slot = CancellationSlot::new();
    assert_eq!(slot.take(), None);
    assert_eq!(slot.install(1), None);
    assert_eq!(slot.install(2), Some(1));
    assert_eq!(slot.take(), Some(2));
    assert_eq!(slot.take(), None);
}
