//! The model catalogue: which backend serves each model, and what each
//! model can do.

use vstd::prelude::*;

verus! {

/// A model a backend can serve.
#[derive(Debug, Clone, Copy, PartialEq, Eq, Hash, Structural)]
pub enum ModelId {
    Gpt4o,
    Gpt4oMini,
    Gpt41,
    Gpt41Mini,
    Gpt41Nano,
    O3,
    O3Mini,
    O4Mini,
    Gpt4Turbo,
    Gpt35Turbo,
    Claude35Sonnet,
    Claude35Haiku,
    Claude3Opus,
    Claude37Sonnet,
    Claude4Sonnet,
    Claude4Opus,
    Gemini15Pro,
    Gemini15Flash,
    Gemini15Flash8b,
    Gemini20FlashExp,
    Gemini25Pro,
    Gemini25Flash,
    DeepseekReason,
    DeepseekChat,
    DeepseekCoder,
    Grok3,
    Grok3Mini,
    Grok3Reasoning,
    Grok3MiniReasoning,
    Grok2,
    Grok1,
    Llama33,
    Llama32,
    Codellama,
    Mistral,
    Mistral7b,
    Gemma2,
    Qwen25,
    Phi3,
    ElevenMultilingualV2,
    ElevenFlashV25,
    ElevenTurboV25,
}

/// A backend provider.
#[derive(Debug, Clone, Copy, PartialEq, Eq, Hash, Structural)]
pub enum Provider {
    OpenAI,
    Anthropic,
    Google,
    AzureOpenAI,
    DeepSeek,
    Xai,
    Groq,
    Ollama,
    ElevenLabs,
}

/// The provider that serves each model.
pub open spec fn provider_spec(m: ModelId) -> Provider {
    match m {
        ModelId::Gpt4o
        | ModelId::Gpt4oMini
        | ModelId::Gpt41
        | ModelId::Gpt41Mini
        | ModelId::Gpt41Nano
        | ModelId::O3
        | ModelId::O3Mini
        | ModelId::O4Mini
        | ModelId::Gpt4Turbo
        | ModelId::Gpt35Turbo => Provider::OpenAI,
        ModelId::Claude35Sonnet
        | ModelId::Claude35Haiku
        | ModelId::Claude3Opus
        | ModelId::Claude37Sonnet
        | ModelId::Claude4Sonnet
        | ModelId::Claude4Opus => Provider::Anthropic,
        ModelId::Gemini15Pro
        | ModelId::Gemini15Flash
        | ModelId::Gemini15Flash8b
        | ModelId::Gemini20FlashExp
        | ModelId::Gemini25Pro
        | ModelId::Gemini25Flash => Provider::Google,
        ModelId::DeepseekReason | ModelId::DeepseekChat | ModelId::DeepseekCoder
            => Provider::DeepSeek,
        ModelId::Grok3
        | ModelId::Grok3Mini
        | ModelId::Grok3Reasoning
        | ModelId::Grok3MiniReasoning
        | ModelId::Grok2
        | ModelId::Grok1 => Provider::Xai,
        ModelId::Llama33
        | ModelId::Llama32
        | ModelId::Codellama
        | ModelId::Mistral
        | ModelId::Mistral7b
        | ModelId::Gemma2
        | ModelId::Qwen25
        | ModelId::Phi3 => Provider::Ollama,
        ModelId::ElevenMultilingualV2 | ModelId::ElevenFlashV25 | ModelId::ElevenTurboV25
            => Provider::ElevenLabs,
    }
}

/// The models that accept a structured-output schema.
pub open spec fn structured_output_spec(m: ModelId) -> bool {
    m matches (ModelId::Gpt4o | ModelId::Gpt4oMini | ModelId::Gpt41 | ModelId::Gpt41Mini
        | ModelId::O3 | ModelId::O3Mini | ModelId::O4Mini | ModelId::Claude35Sonnet
        | ModelId::Claude35Haiku | ModelId::Claude3Opus | ModelId::Claude37Sonnet
        | ModelId::Claude4Sonnet | ModelId::Claude4Opus | ModelId::Gemini15Pro
        | ModelId::Gemini15Flash | ModelId::Gemini20FlashExp | ModelId::Gemini25Pro
        | ModelId::Gemini25Flash | ModelId::DeepseekChat | ModelId::DeepseekReason
        | ModelId::DeepseekCoder | ModelId::Grok3 | ModelId::Grok3Mini | ModelId::Grok2)
}

/// The models with reasoning capability.
pub open spec fn reasoning_spec(m: ModelId) -> bool {
    m matches (ModelId::O3 | ModelId::O3Mini | ModelId::O4Mini | ModelId::Claude37Sonnet
        | ModelId::Claude4Sonnet | ModelId::Claude4Opus | ModelId::Gemini25Pro
        | ModelId::Gemini25Flash | ModelId::DeepseekReason | ModelId::Grok3Reasoning
        | ModelId::Grok3MiniReasoning)
}

/// The models that take multimodal input.
pub open spec fn multimodal_spec(m: ModelId) -> bool {
    m matches (ModelId::Gpt4o | ModelId::Gpt4oMini | ModelId::Gpt41 | ModelId::O3
        | ModelId::O4Mini | ModelId::Claude35Sonnet | ModelId::Claude35Haiku
        | ModelId::Claude3Opus | ModelId::Claude37Sonnet | ModelId::Claude4Sonnet
        | ModelId::Claude4Opus | ModelId::Gemini15Pro | ModelId::Gemini15Flash
        | ModelId::Gemini15Flash8b | ModelId::Gemini20FlashExp | ModelId::Gemini25Pro
        | ModelId::Gemini25Flash | ModelId::Grok3 | ModelId::Grok3Mini | ModelId::Grok2)
}

impl ModelId {
    /// Returns the provider that serves this model.
    pub fn provider(&self) -> (r: Provider)
        ensures
            r == provider_spec(*self),
    {
        match self {
            ModelId::Gpt4o
            | ModelId::Gpt4oMini
            | ModelId::Gpt41
            | ModelId::Gpt41Mini
            | ModelId::Gpt41Nano
            | ModelId::O3
            | ModelId::O3Mini
            | ModelId::O4Mini
            | ModelId::Gpt4Turbo
            | ModelId::Gpt35Turbo => Provider::OpenAI,
            ModelId::Claude35Sonnet
            | ModelId::Claude35Haiku
            | ModelId::Claude3Opus
            | ModelId::Claude37Sonnet
            | ModelId::Claude4Sonnet
            | ModelId::Claude4Opus => Provider::Anthropic,
            ModelId::Gemini15Pro
            | ModelId::Gemini15Flash
            | ModelId::Gemini15Flash8b
            | ModelId::Gemini20FlashExp
            | ModelId::Gemini25Pro
            | ModelId::Gemini25Flash => Provider::Google,
            ModelId::DeepseekReason | ModelId::DeepseekChat | ModelId::DeepseekCoder
                => Provider::DeepSeek,
            ModelId::Grok3
            | ModelId::Grok3Mini
            | ModelId::Grok3Reasoning
            | ModelId::Grok3MiniReasoning
            | ModelId::Grok2
            | ModelId::Grok1 => Provider::Xai,
            ModelId::Llama33
            | ModelId::Llama32
            | ModelId::Codellama
            | ModelId::Mistral
            | ModelId::Mistral7b
            | ModelId::Gemma2
            | ModelId::Qwen25
            | ModelId::Phi3 => Provider::Ollama,
            ModelId::ElevenMultilingualV2 | ModelId::ElevenFlashV25 | ModelId::ElevenTurboV25
                => Provider::ElevenLabs,
        }
    }

    /// Returns true if this model supports structured output.
    pub fn supports_structured_output(&self) -> (r: bool)
        ensures
            r == structured_output_spec(*self),
    {
        matches!(
            self,
            ModelId::Gpt4o | ModelId::Gpt4oMini | ModelId::Gpt41 | ModelId::Gpt41Mini
                | ModelId::O3 | ModelId::O3Mini | ModelId::O4Mini | ModelId::Claude35Sonnet
                | ModelId::Claude35Haiku | ModelId::Claude3Opus | ModelId::Claude37Sonnet
                | ModelId::Claude4Sonnet | ModelId::Claude4Opus | ModelId::Gemini15Pro
                | ModelId::Gemini15Flash | ModelId::Gemini20FlashExp | ModelId::Gemini25Pro
                | ModelId::Gemini25Flash | ModelId::DeepseekChat | ModelId::DeepseekReason
                | ModelId::DeepseekCoder | ModelId::Grok3 | ModelId::Grok3Mini | ModelId::Grok2
        )
    }

    /// Returns true if this model has reasoning capabilities.
    pub fn has_reasoning(&self) -> (r: bool)
        ensures
            r == reasoning_spec(*self),
    {
        matches!(
            self,
            ModelId::O3 | ModelId::O3Mini | ModelId::O4Mini | ModelId::Claude37Sonnet
                | ModelId::Claude4Sonnet | ModelId::Claude4Opus | ModelId::Gemini25Pro
                | ModelId::Gemini25Flash | ModelId::DeepseekReason | ModelId::Grok3Reasoning
                | ModelId::Grok3MiniReasoning
        )
    }

    /// Returns true if this model supports multimodal input.
    pub fn is_multimodal(&self) -> (r: bool)
        ensures
            r == multimodal_spec(*self),
    {
        matches!(
            self,
            ModelId::Gpt4o | ModelId::Gpt4oMini | ModelId::Gpt41 | ModelId::O3 | ModelId::O4Mini
                | ModelId::Claude35Sonnet | ModelId::Claude35Haiku | ModelId::Claude3Opus
                | ModelId::Claude37Sonnet | ModelId::Claude4Sonnet | ModelId::Claude4Opus
                | ModelId::Gemini15Pro | ModelId::Gemini15Flash | ModelId::Gemini15Flash8b
                | ModelId::Gemini20FlashExp | ModelId::Gemini25Pro | ModelId::Gemini25Flash
                | ModelId::Grok3 | ModelId::Grok3Mini | ModelId::Grok2
        )
    }
}

/// A small integer distinguishing each model, used when a client identity is
/// hashed.
pub open spec fn model_tag_spec(m: ModelId) -> u8 {
    match m {
        ModelId::Gpt4o => 1,
        ModelId::Gpt4oMini => 2,
        ModelId::Gpt41 => 3,
        ModelId::Gpt41Mini => 4,
        ModelId::Gpt41Nano => 5,
        ModelId::O3 => 6,
        ModelId::O3Mini => 7,
        ModelId::O4Mini => 8,
        ModelId::Gpt4Turbo => 9,
        ModelId::Gpt35Turbo => 10,
        ModelId::Claude35Sonnet => 11,
        ModelId::Claude35Haiku => 12,
        ModelId::Claude3Opus => 13,
        ModelId::Claude37Sonnet => 14,
        ModelId::Claude4Sonnet => 15,
        ModelId::Claude4Opus => 16,
        ModelId::Gemini15Pro => 17,
        ModelId::Gemini15Flash => 18,
        ModelId::Gemini15Flash8b => 19,
        ModelId::Gemini20FlashExp => 20,
        ModelId::Gemini25Pro => 21,
        ModelId::Gemini25Flash => 22,
        ModelId::DeepseekReason => 23,
        ModelId::DeepseekChat => 24,
        ModelId::DeepseekCoder => 25,
        ModelId::Grok3 => 26,
        ModelId::Grok3Mini => 27,
        ModelId::Grok3Reasoning => 28,
        ModelId::Grok3MiniReasoning => 29,
        ModelId::Grok2 => 30,
        ModelId::Grok1 => 31,
        ModelId::Llama33 => 32,
        ModelId::Llama32 => 33,
        ModelId::Codellama => 34,
        ModelId::Mistral => 35,
        ModelId::Mistral7b => 36,
        ModelId::Gemma2 => 37,
        ModelId::Qwen25 => 38,
        ModelId::Phi3 => 39,
        ModelId::ElevenMultilingualV2 => 40,
        ModelId::ElevenFlashV25 => 41,
        ModelId::ElevenTurboV25 => 42,
    }
}

/// The distinguishing tag of this model.
#[verifier::when_used_as_spec(model_tag_spec)]
pub fn model_tag(m: ModelId) -> (r: u8)
    ensures
        r == model_tag_spec(m),
{
    match m {
        ModelId::Gpt4o => 1,
        ModelId::Gpt4oMini => 2,
        ModelId::Gpt41 => 3,
        ModelId::Gpt41Mini => 4,
        ModelId::Gpt41Nano => 5,
        ModelId::O3 => 6,
        ModelId::O3Mini => 7,
        ModelId::O4Mini => 8,
        ModelId::Gpt4Turbo => 9,
        ModelId::Gpt35Turbo => 10,
        ModelId::Claude35Sonnet => 11,
        ModelId::Claude35Haiku => 12,
        ModelId::Claude3Opus => 13,
        ModelId::Claude37Sonnet => 14,
        ModelId::Claude4Sonnet => 15,
        ModelId::Claude4Opus => 16,
        ModelId::Gemini15Pro => 17,
        ModelId::Gemini15Flash => 18,
        ModelId::Gemini15Flash8b => 19,
        ModelId::Gemini20FlashExp => 20,
        ModelId::Gemini25Pro => 21,
        ModelId::Gemini25Flash => 22,
        ModelId::DeepseekReason => 23,
        ModelId::DeepseekChat => 24,
        ModelId::DeepseekCoder => 25,
        ModelId::Grok3 => 26,
        ModelId::Grok3Mini => 27,
        ModelId::Grok3Reasoning => 28,
        ModelId::Grok3MiniReasoning => 29,
        ModelId::Grok2 => 30,
        ModelId::Grok1 => 31,
        ModelId::Llama33 => 32,
        ModelId::Llama32 => 33,
        ModelId::Codellama => 34,
        ModelId::Mistral => 35,
        ModelId::Mistral7b => 36,
        ModelId::Gemma2 => 37,
        ModelId::Qwen25 => 38,
        ModelId::Phi3 => 39,
        ModelId::ElevenMultilingualV2 => 40,
        ModelId::ElevenFlashV25 => 41,
        ModelId::ElevenTurboV25 => 42,
    }
}

} // verus!
