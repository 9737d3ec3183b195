use auto_doc::models::{ModelId, Provider};

#[test]
fn provider_mapping_samples() {
    assert_eq!(ModelId::Gpt4o.provider(), Provider::OpenAI);
    assert_eq!(ModelId::Claude35Sonnet.provider(), Provider::Anthropic);
    assert_eq!(ModelId::Gemini15Pro.provider(), Provider::Google);
    assert_eq!(ModelId::DeepseekChat.provider(), Provider::DeepSeek);
    assert_eq!(ModelId::Grok2.provider(), Provider::Xai);
    assert_eq!(ModelId::Llama33.provider(), Provider::Ollama);
    assert_eq!(ModelId::ElevenFlashV25.provider(), Provider::ElevenLabs);
}

#[test]
fn capability_predicates() {
    assert!(ModelId::Gpt4o.supports_structured_output());
    assert!(!ModelId::Grok1.supports_structured_output());
    assert!(ModelId::O3.has_reasoning());
    assert!(!ModelId::Gpt4o.has_reasoning());
    assert!(ModelId::Claude4Opus.is_multimodal());
    assert!(!ModelId::Mistral.is_multimodal());
}
