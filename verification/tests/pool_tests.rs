use auto_doc::client::LlmClient;
use auto_doc::models::ModelId;
use auto_doc::pool::{Behavior, LlmPool, PoolMember};

const NOW: u64 = 10_000_000;

fn create_test_client(api_key: &str, model: ModelId) -> LlmClient {
    LlmClient::new(model, Some(api_key.to_string()), None, None)
}

fn create_pool_member(api_key: &str, model: ModelId, priority: usize) -> PoolMember {
    PoolMember {
        priority,
        client: create_test_client(api_key, model),
        last_error: None,
    }
}

fn create_pool_member_with_error(
    api_key: &str,
    model: ModelId,
    priority: usize,
    error_time: u64,
) -> PoolMember {
    PoolMember {
        priority,
        client: create_test_client(api_key, model),
        last_error: Some(error_time),
    }
}

fn client_id(client: &LlmClient) -> u64 {
    client.id()
}

#[test]
fn test_pool_construction() {
    let members = vec![
        create_pool_member("key1", ModelId::Gpt4o, 1),
        create_pool_member("key2", ModelId::Claude35Sonnet, 2),
    ];
    let pool = LlmPool::new(members, Behavior::Distribute);

    assert_eq!(pool.len(), 2);
    assert!(!pool.is_empty());
    assert_eq!(pool.client_order.len(), 2);
}

#[test]
fn test_distribute_single_client() {
    let members = vec![create_pool_member("key1", ModelId::Gpt4o, 1)];
    let mut pool = LlmPool::new(members, Behavior::Distribute);

    let client1 = pool.get_client(NOW);
    let client2 = pool.get_client(NOW);

    assert_eq!(client_id(&client1), client_id(&client2));
}

#[test]
fn test_distribute_round_robin() {
    let members = vec![
        create_pool_member("key1", ModelId::Gpt4o, 1),
        create_pool_member("key2", ModelId::Claude35Sonnet, 2),
        create_pool_member("key3", ModelId::Gemini15Pro, 3),
    ];
    let mut pool = LlmPool::new(members, Behavior::Distribute);

    let client1 = pool.get_client(NOW);
    let client2 = pool.get_client(NOW);
    let client3 = pool.get_client(NOW);
    let client4 = pool.get_client(NOW);

    let id1 = client_id(&client1);
    let id2 = client_id(&client2);
    let id3 = client_id(&client3);
    let id4 = client_id(&client4);

    assert_ne!(id1, id2);
    assert_ne!(id2, id3);
    assert_eq!(id1, id4);
}

#[test]
fn test_failover_priority_order() {
    let members = vec![
        create_pool_member("key3", ModelId::Gpt4o, 3),
        create_pool_member("key1", ModelId::Claude35Sonnet, 1),
        create_pool_member("key2", ModelId::Gemini15Pro, 2),
    ];
    let mut pool = LlmPool::new(members, Behavior::Failover);

    let client = pool.get_client(NOW);
    let expected_client = create_test_client("key1", ModelId::Claude35Sonnet);
    assert_eq!(client_id(&client), client_id(&expected_client));
}

#[test]
fn test_failover_skips_errored_clients() {
    let members = vec![
        create_pool_member_with_error("key1", ModelId::Gpt4o, 1, NOW),
        create_pool_member("key2", ModelId::Claude35Sonnet, 2),
        create_pool_member("key3", ModelId::Gemini15Pro, 3),
    ];
    let mut pool = LlmPool::new(members, Behavior::Failover);

    let client = pool.get_client(NOW);
    let expected_client = create_test_client("key2", ModelId::Claude35Sonnet);
    assert_eq!(client_id(&client), client_id(&expected_client));
}

#[test]
fn test_failover_uses_errored_client_after_cooldown() {
    let old_error = NOW - 120_000;
    let members = vec![
        create_pool_member_with_error("key1", ModelId::Gpt4o, 1, old_error),
        create_pool_member("key2", ModelId::Gemini15Pro, 3),
    ];
    let mut pool = LlmPool::new(members, Behavior::Failover);

    let client = pool.get_client(NOW);
    let expected_client = create_test_client("key1", ModelId::Gpt4o);
    assert_eq!(client_id(&client), client_id(&expected_client));
}

#[test]
fn test_failover_returns_highest_priority_when_all_errored() {
    let members = vec![
        create_pool_member_with_error("key1", ModelId::Gpt4o, 1, NOW),
        create_pool_member_with_error("key2", ModelId::Gemini15Pro, 3, NOW),
    ];
    let mut pool = LlmPool::new(members, Behavior::Failover);

    let client = pool.get_client(NOW);
    let expected_client = create_test_client("key1", ModelId::Gpt4o);
    assert_eq!(client_id(&client), client_id(&expected_client));
}

#[test]
fn test_combination_priority_groups() {
    let members = vec![
        create_pool_member("key1", ModelId::Gpt4o, 1),
        create_pool_member("key2", ModelId::Claude35Sonnet, 1),
        create_pool_member("key3", ModelId::Gemini15Pro, 2),
    ];
    let mut pool = LlmPool::new(members, Behavior::Combination);

    let client1 = pool.get_client(NOW);
    let client2 = pool.get_client(NOW);
    let client3 = pool.get_client(NOW);

    let id1 = client_id(&client1);
    let id2 = client_id(&client2);
    let id3 = client_id(&client3);

    let high_priority_id1 = client_id(&create_test_client("key1", ModelId::Gpt4o));
    let high_priority_id2 = client_id(&create_test_client("key2", ModelId::Claude35Sonnet));
    let low_priority_id = client_id(&create_test_client("key3", ModelId::Gemini15Pro));

    assert!(id1 == high_priority_id1 || id1 == high_priority_id2);
    assert!(id2 == high_priority_id1 || id2 == high_priority_id2);
    assert!(id3 == high_priority_id1 || id3 == high_priority_id2);

    assert_ne!(id1, low_priority_id);
    assert_ne!(id2, low_priority_id);
    assert_ne!(id3, low_priority_id);
}

#[test]
fn test_combination_falls_back_to_lower_priority() {
    let members = vec![
        create_pool_member_with_error("key1", ModelId::Gpt4o, 1, NOW),
        create_pool_member_with_error("key2", ModelId::Claude35Sonnet, 1, NOW),
        create_pool_member("key3", ModelId::Gemini15Pro, 2),
        create_pool_member("key4", ModelId::DeepseekChat, 2),
    ];
    let mut pool = LlmPool::new(members, Behavior::Combination);

    let client1 = pool.get_client(NOW);
    let client2 = pool.get_client(NOW);

    let id1 = client_id(&client1);
    let id2 = client_id(&client2);

    let low_priority_id1 = client_id(&create_test_client("key3", ModelId::Gemini15Pro));
    let low_priority_id2 = client_id(&create_test_client("key4", ModelId::DeepseekChat));

    assert!(id1 == low_priority_id1 || id1 == low_priority_id2);
    assert!(id2 == low_priority_id1 || id2 == low_priority_id2);
    assert_ne!(id1, id2);
}

#[test]
fn test_mark_error() {
    let members = vec![
        create_pool_member("key1", ModelId::Gpt4o, 1),
        create_pool_member("key2", ModelId::Claude35Sonnet, 2),
    ];
    let mut pool = LlmPool::new(members, Behavior::Failover);

    let client1 = pool.get_client(NOW);
    let expected_id = client_id(&create_test_client("key1", ModelId::Gpt4o));
    assert_eq!(client_id(&client1), expected_id);

    pool.mark_error(&client1, NOW);

    let client2 = pool.get_client(NOW);
    let expected_id2 = client_id(&create_test_client("key2", ModelId::Claude35Sonnet));
    assert_eq!(client_id(&client2), expected_id2);
}

#[test]
fn test_clear_error() {
    let members = vec![
        create_pool_member_with_error("key1", ModelId::Gpt4o, 1, NOW),
        create_pool_member("key2", ModelId::Claude35Sonnet, 2),
    ];
    let mut pool = LlmPool::new(members, Behavior::Failover);

    let client = pool.get_client(NOW);
    let expected_id = client_id(&create_test_client("key2", ModelId::Claude35Sonnet));
    assert_eq!(client_id(&client), expected_id);

    let client1 = create_test_client("key1", ModelId::Gpt4o);
    pool.clear_error(&client1);

    let client = pool.get_client(NOW);
    let expected_id1 = client_id(&create_test_client("key1", ModelId::Gpt4o));
    assert_eq!(client_id(&client), expected_id1);
}

#[test]
fn test_add_client() {
    let members = vec![create_pool_member("key1", ModelId::Gpt4o, 1)];
    let mut pool = LlmPool::new(members, Behavior::Distribute);

    assert_eq!(pool.len(), 1);

    let new_member = create_pool_member("key2", ModelId::Claude35Sonnet, 2);
    pool.add_client(new_member);

    assert_eq!(pool.len(), 2);
    assert_eq!(pool.client_order.len(), 2);
}

#[test]
fn test_remove_client() {
    let members = vec![
        create_pool_member("key1", ModelId::Gpt4o, 1),
        create_pool_member("key2", ModelId::Claude35Sonnet, 2),
    ];
    let mut pool = LlmPool::new(members, Behavior::Distribute);

    assert_eq!(pool.len(), 2);

    let client_to_remove = create_test_client("key1", ModelId::Gpt4o);
    let removed = pool.remove_client(&client_to_remove);

    assert!(removed.is_some());
    assert_eq!(pool.len(), 1);
    assert_eq!(pool.client_order.len(), 1);
}

#[test]
fn test_round_robin_index_persistence() {
    let members = vec![
        create_pool_member("key1", ModelId::Gpt4o, 1),
        create_pool_member("key2", ModelId::Claude35Sonnet, 2),
    ];
    let mut pool = LlmPool::new(members, Behavior::Distribute);

    let client1 = pool.get_client(NOW);
    let client2 = pool.get_client(NOW);
    let client3 = pool.get_client(NOW);

    let id1 = client_id(&client1);
    let id2 = client_id(&client2);
    let id3 = client_id(&client3);

    assert_ne!(id1, id2);
    assert_eq!(id1, id3);
}

#[test]
fn test_clone_preserves_state() {
    let members = vec![
        create_pool_member("key1", ModelId::Gpt4o, 1),
        create_pool_member("key2", ModelId::Claude35Sonnet, 2),
    ];
    let mut pool = LlmPool::new(members, Behavior::Distribute);

    let _ = pool.get_client(NOW);

    let mut cloned_pool = pool.clone();
    let client = cloned_pool.get_client(NOW);

    let original_client = pool.get_client(NOW);
    assert_eq!(client_id(&client), client_id(&original_client));
}

#[test]
fn test_hashmap_efficiency() {
    let members = vec![
        create_pool_member("key1", ModelId::Gpt4o, 1),
        create_pool_member("key2", ModelId::Claude35Sonnet, 2),
        create_pool_member("key3", ModelId::Gemini15Pro, 3),
    ];
    let mut pool = LlmPool::new(members, Behavior::Distribute);

    let test_client = create_test_client("key2", ModelId::Claude35Sonnet);
    let client_id = test_client.id();

    assert!(pool.clients.contains_key(&client_id));

    pool.mark_error(&test_client, NOW);
    let member = pool.clients.get(&client_id).unwrap();
    assert!(member.last_error.is_some());

    pool.clear_error(&test_client);
    let member = pool.clients.get(&client_id).unwrap();
    assert!(member.last_error.is_none());
}

#[test]
fn test_different_providers() {
    let members = vec![
        create_pool_member("openai_key", ModelId::Gpt4o, 1),
        create_pool_member("anthropic_key", ModelId::Claude35Sonnet, 1),
        create_pool_member("google_key", ModelId::Gemini15Pro, 1),
        create_pool_member("deepseek_key", ModelId::DeepseekChat, 1),
    ];
    let mut pool = LlmPool::new(members, Behavior::Combination);

    let mut seen_providers = std::collections::HashSet::new();
    for _ in 0..8 {
        let client = pool.get_client(NOW);
        seen_providers.insert(format!("{:?}", client.model.provider()));
    }

    assert!(seen_providers.len() > 1);
}

#[test]
fn test_unique_client_ids() {
    let client1 = create_test_client("key1", ModelId::Gpt4o);
    let client2 = create_test_client("key2", ModelId::Gpt4o);
    let client3 = create_test_client("key1", ModelId::Claude35Sonnet);
    let client4 = create_test_client("key1", ModelId::Gpt4o);

    assert_ne!(client_id(&client1), client_id(&client2));
    assert_ne!(client_id(&client1), client_id(&client3));
    assert_eq!(client_id(&client1), client_id(&client4));
}

#[test]
fn duplicate_identities_collapse_in_the_mapping() {
    let members = vec![
        create_pool_member("key1", ModelId::Gpt4o, 1),
        create_pool_member("key1", ModelId::Gpt4o, 7),
    ];
    let pool = LlmPool::new(members, Behavior::Failover);
    assert_eq!(pool.len(), 1);
    assert_eq!(pool.client_order.len(), 2);
    let id = create_test_client("key1", ModelId::Gpt4o).id();
    assert_eq!(pool.clients.get(&id).unwrap().priority, 7);
}

#[test]
fn cooldown_boundary_is_inclusive() {
    let boundary = NOW - 60_000;
    let members = vec![
        create_pool_member_with_error("key1", ModelId::Gpt4o, 1, boundary),
        create_pool_member("key2", ModelId::Claude35Sonnet, 2),
    ];
    let mut pool = LlmPool::new(members, Behavior::Failover);
    let client = pool.get_client(NOW);
    let expected = create_test_client("key1", ModelId::Gpt4o);
    assert_eq!(client.id(), expected.id());

    let inside = NOW - 59_999;
    let members = vec![
        create_pool_member_with_error("key1", ModelId::Gpt4o, 1, inside),
        create_pool_member("key2", ModelId::Claude35Sonnet, 2),
    ];
    let mut pool = LlmPool::new(members, Behavior::Failover);
    let client = pool.get_client(NOW);
    let expected = create_test_client("key2", ModelId::Claude35Sonnet);
    assert_eq!(client.id(), expected.id());
}
