use openrouter_client::{JsonValue, OpenRouterParamsFull, OpenRouterParamsSimple};

fn parse(body: &str) -> serde_json::Map<String, serde_json::Value> {
    match serde_json::from_str::<serde_json::Value>(body) {
        Ok(serde_json::Value::Object(m)) => m,
        other => panic!("request body is not a JSON object: {:?}", other),
    }
}

#[test]
fn build_leaves_optional_fields_unset() {
    let params = OpenRouterParamsFull::build("m".to_string(), JsonValue::Null);
    assert_eq!(params.temperature, None);
    assert_eq!(params.response_schema, None);
}

#[test]
fn absent_optionals_are_omitted_entirely() {
    let params = OpenRouterParamsFull::build("m".to_string(), JsonValue::Null);
    let body = params.request_body();
    let obj = parse(&body);
    assert_eq!(obj.len(), 2);
    assert!(obj.contains_key("model"));
    assert!(obj.contains_key("messages"));
    assert!(!obj.contains_key("temperature"));
    assert!(!obj.contains_key("response_schema"));
    // A round trip through a real JSON parser introduces no null for the
    // unset optional fields: the keys are simply not there.
    assert_eq!(obj.get("temperature"), None);
    assert_eq!(obj.get("response_schema"), None);
}

#[test]
fn with_temperature_serializes_expected_object() {
    let messages = JsonValue::Arr(vec![JsonValue::Str("hi".to_string())]);
    let params = OpenRouterParamsFull::build("m".to_string(), messages)
        .with_temperature("0.7".to_string());
    let body = params.request_body();
    let obj = parse(&body);
    assert_eq!(obj.get("model"), Some(&serde_json::Value::String("m".to_string())));
    let expected_messages: serde_json::Value = serde_json::from_str("[\"hi\"]").unwrap();
    assert_eq!(obj.get("messages"), Some(&expected_messages));
    let expected_temperature: serde_json::Value = serde_json::from_str("0.7").unwrap();
    assert_eq!(obj.get("temperature"), Some(&expected_temperature));
    assert!(!obj.contains_key("response_schema"));
}

#[test]
fn with_response_schema_changes_only_the_schema() {
    let params = OpenRouterParamsFull::build("m".to_string(), JsonValue::Null)
        .with_response_schema(JsonValue::Bool(true));
    assert_eq!(params.model, "m");
    assert_eq!(params.temperature, None);
    assert_eq!(params.response_schema, Some(JsonValue::Bool(true)));
    let body = params.request_body();
    let obj = parse(&body);
    assert_eq!(obj.get("response_schema"), Some(&serde_json::Value::Bool(true)));
    assert!(!obj.contains_key("temperature"));
}

#[test]
fn request_body_exact_text() {
    let params = OpenRouterParamsFull::build("m".to_string(), JsonValue::Null);
    let body = params.request_body();
    assert_eq!(body, "{\"model\":\"m\",\"messages\":null}");
}

#[test]
fn from_prompt_synthesizes_single_user_message() {
    let params = OpenRouterParamsFull::from_prompt(
        "model-x".to_string(),
        "What is 2+2?".to_string(),
        None,
    );
    assert_eq!(params.temperature, None);
    assert_eq!(params.response_schema, None);
    let body = params.request_body();
    let obj = parse(&body);
    let expected: serde_json::Value = serde_json::from_str(
        "[{\"role\":\"user\",\"content\":[{\"type\":\"text\",\"text\":\"What is 2+2?\"}]}]",
    )
    .unwrap();
    assert_eq!(obj.get("messages"), Some(&expected));
    assert!(!obj.contains_key("temperature"));
    assert!(!obj.contains_key("response_schema"));
}

#[test]
fn from_prompt_accepts_an_empty_prompt() {
    let params = OpenRouterParamsFull::from_prompt("m".to_string(), "".to_string(), None);
    let body = params.request_body();
    let obj = parse(&body);
    let expected: serde_json::Value = serde_json::from_str(
        "[{\"role\":\"user\",\"content\":[{\"type\":\"text\",\"text\":\"\"}]}]",
    )
    .unwrap();
    assert_eq!(obj.get("messages"), Some(&expected));
}

#[test]
fn from_prompt_copies_the_simple_tail() {
    let simple = OpenRouterParamsSimple {
        temperature: Some("0.5".to_string()),
        response_schema: Some(JsonValue::Null),
    };
    let params = OpenRouterParamsFull::from_prompt(
        "model-x".to_string(),
        "hello".to_string(),
        Some(simple),
    );
    assert_eq!(params.temperature, Some("0.5".to_string()));
    assert_eq!(params.response_schema, Some(JsonValue::Null));
    let body = params.request_body();
    let obj = parse(&body);
    let expected_temperature: serde_json::Value = serde_json::from_str("0.5").unwrap();
    assert_eq!(obj.get("temperature"), Some(&expected_temperature));
    assert_eq!(obj.get("response_schema"), Some(&serde_json::Value::Null));
}
