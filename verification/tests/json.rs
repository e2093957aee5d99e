use openrouter_client::{bearer_token, decode_envelope, json_text, JsonValue, API_URL};

#[test]
fn json_text_of_scalars() {
    assert_eq!(json_text(&JsonValue::Null), "null");
    assert_eq!(json_text(&JsonValue::Bool(true)), "true");
    assert_eq!(json_text(&JsonValue::Bool(false)), "false");
    assert_eq!(json_text(&JsonValue::Num("1.5".to_string())), "1.5");
    assert_eq!(json_text(&JsonValue::Str("x".to_string())), "\"x\"");
}

#[test]
fn json_text_of_nested_structure() {
    let v = JsonValue::Obj(vec![
        (
            "a".to_string(),
            JsonValue::Arr(vec![
                JsonValue::Null,
                JsonValue::Bool(true),
                JsonValue::Num("1.5".to_string()),
            ]),
        ),
        ("b".to_string(), JsonValue::Str("x\"y".to_string())),
    ]);
    assert_eq!(json_text(&v), "{\"a\":[null,true,1.5],\"b\":\"x\\\"y\"}");
}

#[test]
fn json_text_escapes_controls_backslashes_and_quotes() {
    let v = JsonValue::Str("a\nb\\c\"d\u{1f}\te\u{8}f\u{c}g\r".to_string());
    assert_eq!(json_text(&v), "\"a\\nb\\\\c\\\"d\\u001f\\te\\bf\\fg\\r\"");
}

#[test]
fn json_text_round_trips_through_a_real_parser() {
    let v = JsonValue::Obj(vec![
        ("text".to_string(), JsonValue::Str("line one\nline \"two\" \\ end".to_string())),
        ("empty".to_string(), JsonValue::Arr(vec![])),
    ]);
    let text = json_text(&v);
    let resp = decode_envelope(&text).expect("the emitted text should parse as an object");
    assert_eq!(resp.response_map, vec![
        ("empty".to_string(), JsonValue::Arr(vec![])),
        ("text".to_string(), JsonValue::Str("line one\nline \"two\" \\ end".to_string())),
    ]);
}

#[test]
fn bearer_token_prefixes_the_key() {
    assert_eq!(bearer_token("k"), "Bearer k");
    assert_eq!(bearer_token(""), "Bearer ");
}

#[test]
fn api_url_is_the_chat_completions_endpoint() {
    assert_eq!(API_URL, "https://openrouter.ai/api/v1/chat/completions");
}
