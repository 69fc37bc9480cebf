use quizpal::llm::{
    compare_request, compose_prompt, extract_answer, translate_request, Actions, ExtractError,
    JsonValue,
};

fn obj(members: Vec<(&str, JsonValue)>) -> JsonValue {
    JsonValue::Object(members.into_iter().map(|(k, v)| (k.to_string(), v)).collect())
}

fn s(text: &str) -> JsonValue {
    JsonValue::Str(text.to_string())
}

fn response(content: JsonValue) -> JsonValue {
    obj(vec![
        ("id", s("chatcmpl-1")),
        ("object", s("chat.completion")),
        (
            "choices",
            JsonValue::Array(vec![obj(vec![
                ("index", JsonValue::Number("0".to_string())),
                ("message", obj(vec![("role", s("assistant")), ("content", content)])),
            ])]),
        ),
    ])
}

#[test]
fn answer_is_read_from_first_choice() {
    let a = extract_answer(&response(s("Photosynthesis is..."))).unwrap();
    assert_eq!(a.id, "chatcmpl-1");
    assert_eq!(a.content, "Photosynthesis is...");
}

#[test]
fn missing_or_mistyped_fields_are_reported() {
    assert!(matches!(
        extract_answer(&response(JsonValue::Null)),
        Err(ExtractError::MissingField)
    ));
    assert!(matches!(
        extract_answer(&obj(vec![("id", s("x")), ("choices", JsonValue::Array(vec![]))])),
        Err(ExtractError::MissingField)
    ));
    assert!(matches!(
        extract_answer(&obj(vec![("choices", JsonValue::Bool(true))])),
        Err(ExtractError::MissingField)
    ));
}

#[test]
fn prompts_are_composed() {
    assert_eq!(compose_prompt("cells", Actions::Summarize), "Summarize the below text:\ncells");
    assert_eq!(compose_prompt("x", Actions::Explain), "Explain the following concept:\nx");
    assert_eq!(translate_request("German", "hi"), "Translate text in German\nText: hi\n");
    assert_eq!(compare_request("a", "b"), "First concept a\nSecond concept: b\n");
}
