use auto_doc::extract::{extract_json_aggressively, extract_json_from_response, json_candidates};

#[test]
fn test_json_extraction() {
    let response1 = r#"
Here's the analysis:
```json
{"name": "test", "value": 42}
```
Hope this helps!
        "#;

    let response2 = r#"
The result is: {"name": "test", "value": 42}
        "#;

    let response3 = r#"{"name": "test", "value": 42}"#;

    assert_eq!(
        extract_json_from_response(response1),
        Some(r#"{"name": "test", "value": 42}"#.to_string())
    );

    assert_eq!(
        extract_json_from_response(response2),
        Some(r#"{"name": "test", "value": 42}"#.to_string())
    );

    assert_eq!(
        extract_json_from_response(response3),
        Some(r#"{"name": "test", "value": 42}"#.to_string())
    );
}

#[test]
fn code_block_strategy_parses() {
    let input = "prefix ```json\n{\"a\":1}\n```\nsuffix";
    let candidate = extract_json_from_response(input).expect("code block candidate");
    assert_eq!(candidate, "{\"a\":1}");
    let value: serde_json::Value = serde_json::from_str(&candidate).expect("parses");
    assert_eq!(value["a"], 1);
}

#[test]
fn brace_counting_recovers_nested_object() {
    let input = "note {\"a\":{\"b\":1}} trailing text";
    let candidates = extract_json_aggressively(input);
    assert!(candidates.iter().any(|c| c == "{\"a\":{\"b\":1}}"));
    let balanced = candidates.iter().find(|c| c == &"{\"a\":{\"b\":1}}").unwrap();
    let value: serde_json::Value = serde_json::from_str(balanced).expect("parses");
    assert_eq!(value["a"]["b"], 1);
}

#[test]
fn aggressive_candidates_are_sorted_and_unique() {
    let input = "```json\n{\"k\":1}\n``` and again {\"k\":1} plus {\"z\":2}";
    let candidates = extract_json_aggressively(input);
    for pair in candidates.windows(2) {
        assert!(pair[0] < pair[1]);
    }
    assert!(candidates.iter().any(|c| c == "{\"k\":1}"));
}

#[test]
fn no_candidates_on_plain_text() {
    let candidates = extract_json_aggressively("no braces here at all");
    assert!(candidates.is_empty());
    assert_eq!(extract_json_from_response("no braces here at all"), None);
}

#[test]
fn candidate_list_has_three_strategies() {
    let input = "  {\"a\":1}  ";
    let candidates = json_candidates(input);
    assert_eq!(candidates.len(), 3);
    assert_eq!(candidates[0].as_deref(), Some("{\"a\":1}"));
    assert_eq!(candidates[1].as_deref(), Some("{\"a\":1}"));
    assert_eq!(candidates[2].as_deref(), Some("{\"a\":1}"));
}

#[test]
fn trimming_is_the_first_strategy() {
    let candidates = json_candidates("\n\t  {\"only\": true}\r\n ");
    assert_eq!(candidates[0].as_deref(), Some("{\"only\": true}"));
}

#[test]
fn unbalanced_braces_give_no_balanced_candidate() {
    let candidates = extract_json_aggressively("{\"open\": {\"still\":");
    assert!(candidates.is_empty());
}
