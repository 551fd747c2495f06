//! Provider selection: a pure function of the model identifier.

use vstd::prelude::*;

use crate::text::{spec_starts_with, str_eq, str_starts_with};

verus! {

/// The three supported providers.
#[derive(Clone, Copy, PartialEq, Eq, Structural, Debug)]
pub enum Provider {
    Anthropic,
    OpenAI,
    Gemini,
}

/// The provider that owns a model identifier: `gpt`, `o3` and `o4` prefixes
/// go to OpenAI, the `gemini` prefix to Gemini, everything else (including
/// unknown names) to Anthropic.
pub open spec fn spec_provider_for_model(m: Seq<char>) -> Provider {
    if spec_starts_with(m, "gpt"@) || spec_starts_with(m, "o3"@) || spec_starts_with(m, "o4"@) {
        Provider::OpenAI
    } else if spec_starts_with(m, "gemini"@) {
        Provider::Gemini
    } else {
        Provider::Anthropic
    }
}

/// Select the provider for a model identifier.
pub fn get_provider_for_model(model: &str) -> (r: Provider)
    ensures
        r == spec_provider_for_model(model@),
{
    if str_starts_with(model, "gpt") || str_starts_with(model, "o3") || str_starts_with(
        model,
        "o4",
    ) {
        Provider::OpenAI
    } else if str_starts_with(model, "gemini") {
        Provider::Gemini
    } else {
        Provider::Anthropic
    }
}

/// Which providers have a credential on file.
#[derive(Clone, Copy, PartialEq, Eq, Structural, Debug)]
pub struct ApiKeysConfig {
    pub anthropic: bool,
    pub openai: bool,
    pub google: bool,
}

impl ApiKeysConfig {
    /// At least one provider is ready to use.
    pub fn any_configured(&self) -> (r: bool)
        ensures
            r == (self.anthropic || self.openai || self.google),
    {
        self.anthropic || self.openai || self.google
    }
}

/// A provider name accepted by the credential store.
pub open spec fn spec_is_valid_provider(p: Seq<char>) -> bool {
    p == "anthropic"@ || p == "openai"@ || p == "google"@
}

/// Reject any provider name but the three known ones, with the offending
/// name echoed in the error.
pub fn validate_provider(provider: &str) -> (r: Result<(), String>)
    ensures
        r is Ok <==> spec_is_valid_provider(provider@),
        r matches Err(m) ==> m@ == "Invalid provider: "@ + provider@,
{
    if str_eq(provider, "anthropic") || str_eq(provider, "openai") || str_eq(provider, "google") {
        Ok(())
    } else {
        let msg = String::from_str("Invalid provider: ").concat(provider);
        Err(msg)
    }
}


} // verus!
