use openrouter_client::{clean_string, decode_envelope, JsonValue, OpenRouterError, OpenRouterResponse};

fn envelope(text: &str) -> OpenRouterResponse {
    decode_envelope(text).expect("the envelope text should decode as a JSON object")
}

#[test]
fn get_response_returns_plain_content() {
    let resp = envelope("{\"choices\": [{\"message\": {\"content\": \"Hello\"}}]}");
    assert_eq!(resp.get_response(), Ok("Hello".to_string()));
}

#[test]
fn get_response_strips_outer_quotes() {
    // The content is the seven-character string quote-Hello-quote; the
    // serializer's pair and the content's own surrounding pair both go.
    let resp = envelope("{\"choices\": [{\"message\": {\"content\": \"\\\"Hello\\\"\"}}]}");
    assert_eq!(resp.get_response(), Ok("Hello".to_string()));
}

#[test]
fn get_response_keeps_quotes_inside_the_content() {
    // A quote pair that does not surround the whole content stays.
    let resp = envelope("{\"choices\": [{\"message\": {\"content\": \"a \\\"b\\\" c\"}}]}");
    assert_eq!(resp.get_response(), Ok("a \"b\" c".to_string()));
}

#[test]
fn get_response_of_a_quote_pair_alone_is_empty() {
    let resp = envelope("{\"choices\": [{\"message\": {\"content\": \"\\\"\\\"\"}}]}");
    assert_eq!(resp.get_response(), Ok("".to_string()));
}

#[test]
fn get_response_unescapes_inner_quotes() {
    let resp = envelope("{\"choices\": [{\"message\": {\"content\": \"say \\\"hi\\\"\"}}]}");
    assert_eq!(resp.get_response(), Ok("say \"hi\"".to_string()));
}

#[test]
fn get_response_fails_on_empty_choices() {
    let resp = envelope("{\"choices\": []}");
    assert_eq!(resp.get_response(), Err(OpenRouterError::NoResponseError));
}

#[test]
fn get_response_fails_without_choices() {
    let resp = envelope("{}");
    assert_eq!(resp.get_response(), Err(OpenRouterError::NoResponseError));
}

#[test]
fn get_response_fails_without_content() {
    let resp = envelope("{\"choices\": [{\"message\": {}}]}");
    assert_eq!(resp.get_response(), Err(OpenRouterError::NoResponseError));
}

#[test]
fn get_response_reads_the_first_choice() {
    let resp = envelope(
        "{\"choices\": [{\"message\": {\"content\": \"first\"}}, {\"message\": {\"content\": \"second\"}}]}",
    );
    assert_eq!(resp.get_response(), Ok("first".to_string()));
}

#[test]
fn get_response_serializes_non_string_content() {
    let resp = envelope("{\"choices\": [{\"message\": {\"content\": 42}}]}");
    assert_eq!(resp.get_response(), Ok("42".to_string()));
}

#[test]
fn get_response_keeps_control_escapes_as_text() {
    // A control character inside the content is escaped by the serializer,
    // so it reaches the cleaned result as the two-character escape, never
    // as a raw control character.
    let resp = envelope("{\"choices\": [{\"message\": {\"content\": \"a\\nb\\tc\"}}]}");
    assert_eq!(resp.get_response(), Ok("a\\nb\\tc".to_string()));
}

#[test]
fn decode_envelope_rejects_invalid_json() {
    assert_eq!(decode_envelope("not json"), Err(OpenRouterError::SerializationError));
}

#[test]
fn decode_envelope_rejects_non_object_reply() {
    assert_eq!(decode_envelope("[1,2]"), Err(OpenRouterError::SerializationError));
    assert_eq!(decode_envelope("\"text\""), Err(OpenRouterError::SerializationError));
}

#[test]
fn decode_envelope_keeps_the_decoded_members() {
    let resp = envelope("{\"choices\": [], \"id\": \"abc\"}");
    assert_eq!(resp.response_map.len(), 2);
    assert!(resp.response_map.iter().any(|(k, _)| k == "id"));
    assert!(resp
        .response_map
        .iter()
        .any(|(k, v)| k == "choices" && *v == JsonValue::Arr(vec![])));
}

#[test]
fn new_keeps_the_map() {
    let map = vec![("k".to_string(), JsonValue::Bool(false))];
    let resp = OpenRouterResponse::new(vec![("k".to_string(), JsonValue::Bool(false))]);
    assert_eq!(resp.response_map, map);
}

#[test]
fn clean_string_trims_all_matching_end_characters() {
    assert_eq!(clean_string("\"\"abc\"\"", '"'), "abc");
    assert_eq!(clean_string("xxayxx", 'x'), "ay");
    assert_eq!(clean_string("aaa", 'a'), "");
}

#[test]
fn clean_string_removes_control_characters() {
    assert_eq!(clean_string("\"a\u{7}b\nc\"", '"'), "abc");
    assert_eq!(clean_string("\u{1}", '"'), "");
}

#[test]
fn clean_string_leaves_inner_characters_alone() {
    assert_eq!(clean_string("say \"hi\"", 'x'), "say \"hi\"");
}

#[test]
fn error_messages_name_the_failure() {
    assert_eq!(
        OpenRouterError::NoResponseError.message(),
        "expected at least one result for the call"
    );
    assert_eq!(
        OpenRouterError::SerializationError.message(),
        "the reply could not be parsed as a JSON object"
    );
    assert_eq!(
        OpenRouterError::TransportError.message(),
        "the network request could not be completed"
    );
}
