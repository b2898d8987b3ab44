//! Which key a provider is used with.

use crate::provider::{
    anthropic_preset, key_of, minimax_preset, models_of, ollama_preset, openai_preset, WireApi,
};
use crate::strs::trimmed;
use vstd::prelude::*;

verus! {

/// A stored key counts before the environment, and a key of white space alone counts as none. The
/// environment counts only for a provider that names a variable.
pub proof fn law_stored_keys_count_first(stored: Option<Seq<char>>, env: Option<Seq<char>>)
    ensures
        ({
            let kept = stored matches Some(s) && trimmed(s).len() > 0;
            let given = env matches Some(s) && trimmed(s).len() > 0;
            &&& kept ==> key_of(true, stored, env) == stored && key_of(false, stored, env) == stored
            &&& !kept && given ==> key_of(true, stored, env) == env
            &&& !kept ==> key_of(false, stored, env) is None
            &&& !kept && !given ==> key_of(true, stored, env) is None
        }),
{
}

/// The providers that are known speak their own wires; only the local one needs no key.
pub proof fn law_known_providers_have_their_wire()
    ensures
        openai_preset().wire_api == WireApi::Responses,
        ollama_preset().wire_api == WireApi::ChatCompletions,
        minimax_preset().wire_api == WireApi::Messages,
        anthropic_preset().wire_api == WireApi::Messages,
        openai_preset().env_key == Some("OPENAI_API_KEY"@),
        ollama_preset().env_key is None,
        minimax_preset().env_key == Some("MINIMAX_API_KEY"@),
        anthropic_preset().env_key == Some("ANTHROPIC_API_KEY"@),
        openai_preset().base_url == "https://api.openai.com/v1"@,
        ollama_preset().base_url == "http://localhost:11434/v1"@,
        minimax_preset().base_url == "https://api.minimax.io/v1"@,
        anthropic_preset().base_url == "https://api.anthropic.com"@,
{
}

/// Every provider has a model to offer, where those that are given are not none.
pub proof fn law_every_provider_has_a_model(name: Seq<char>, given: Seq<Seq<char>>)
    requires
        given.len() > 0,
    ensures
        models_of(name, given).len() > 0,
        models_of("Anthropic"@, given) == given,
        models_of("OpenAI"@, given)[0] == "gpt-5"@,
        models_of("MiniMax"@, given)[0] == "MiniMax-M3"@,
        name != "OpenAI"@ && name != "Anthropic"@ && name != "MiniMax"@ ==> models_of(name, given)
            == seq!["custom"@],
{
    reveal_strlit("OpenAI");
    reveal_strlit("Anthropic");
    reveal_strlit("MiniMax");
    assert("OpenAI"@.len() == 6 && "Anthropic"@.len() == 9 && "MiniMax"@.len() == 7);
}

} // verus!
