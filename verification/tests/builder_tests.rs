use auto_doc::client::{LlmClient, LlmClientBuilderError};
use auto_doc::models::ModelId;
use auto_doc::pool::{Behavior, LlmPool, LlmPoolBuilderError};

#[test]
fn builder_test_builder_errors() {
    let result = LlmPool::builder().build();
    assert!(matches!(result, Err(LlmPoolBuilderError::Missingbehaviour)));

    let result = LlmPool::builder().behaviour(Behavior::Distribute).build();
    assert!(matches!(result, Err(LlmPoolBuilderError::NoClients)));
}

#[test]
fn test_default_behaviour_builder() {
    let result = LlmPool::builder().build_with_default_behaviour();
    assert!(matches!(result, Err(LlmPoolBuilderError::NoClients)));
}

#[test]
fn client_builder_missing_model() {
    let result = LlmClient::builder().build();
    assert!(matches!(result, Err(LlmClientBuilderError::MissingModel)));
}

#[test]
fn pool_builder_collects_members() {
    let client = LlmClient::new(ModelId::Gpt4o, Some("k".to_string()), None, None);
    let pool = LlmPool::builder()
        .behaviour(Behavior::Failover)
        .add_client_with_priority(client, 4)
        .build()
        .unwrap();
    assert_eq!(pool.len(), 1);
    assert_eq!(pool.behavior, Behavior::Failover);
}

#[test]
fn client_builder_defaults_and_retry_settings() {
    let client = LlmClient::builder()
        .model(ModelId::Claude35Haiku)
        .api_key("secret".to_string())
        .retry_settings()
        .max_retries(2)
        .initial_interval(500)
        .finish()
        .build()
        .unwrap();
    assert_eq!(client.max_tokens, 1500);
    assert_eq!(client.temperature, 50);
    let rc = client.retry_config.unwrap();
    assert_eq!(rc.max_retries, 2);
    assert_eq!(rc.initial_interval, 500);
    assert_eq!(rc.max_interval, 60000);
    assert_eq!(rc.multiplier, 200);
    assert_eq!(rc.max_elapsed_time, 300000);
}
