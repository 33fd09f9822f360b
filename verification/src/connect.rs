//! Which browser sign-in flow a provider uses.

use vstd::prelude::*;

use crate::text::{chars_of, contains_chars, contains_seq, str_eq};

verus! {

/// The browser OAuth configurations a provider can sign in with.
#[derive(Debug, Clone, Copy, PartialEq, Eq, Structural)]
pub enum OAuthFlow {
    /// OpenAI subscription sign-in.
    OpenAiSubscription,
    /// Anthropic Max plan sign-in.
    AnthropicMax,
    /// Anthropic console sign-in.
    AnthropicConsole,
}

/// The sign-in flow for `provider_id` ("openai" or "anthropic"; the Max
/// plan when the display name mentions "Max"); other providers have none.
pub fn oauth_flow_for(provider_id: &str, display_name: &str) -> (r: Option<OAuthFlow>)
    ensures
        provider_id@ == "openai"@ ==> r == Some(OAuthFlow::OpenAiSubscription),
        provider_id@ == "anthropic"@ ==> r == if contains_seq(display_name@, "Max"@) {
            Some(OAuthFlow::AnthropicMax)
        } else {
            Some(OAuthFlow::AnthropicConsole)
        },
        provider_id@ != "openai"@ && provider_id@ != "anthropic"@ ==> r is None,
{
    proof {
        reveal_strlit("openai");
        reveal_strlit("anthropic");
        assert("openai"@ != "anthropic"@) by {
            assert("openai"@.len() != "anthropic"@.len());
        }
    }
    if str_eq(provider_id, "openai") {
        Some(OAuthFlow::OpenAiSubscription)
    } else if str_eq(provider_id, "anthropic") {
        let name = chars_of(display_name);
        let max = chars_of("Max");
        if contains_chars(&name, &max) {
            Some(OAuthFlow::AnthropicMax)
        } else {
            Some(OAuthFlow::AnthropicConsole)
        }
    } else {
        None
    }
}

} // verus!
