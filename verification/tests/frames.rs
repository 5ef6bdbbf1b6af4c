use dynamo_protocols::types::{
    ChatChoiceStream, ChatCompletionStreamResponseDelta, CreateChatCompletionStreamResponse,
};
use serde_json::Value;
use sglang_openai::frames::{
    fill_reasoning_column, serialize_chat_stream_response, stream_frame, Frame, StreamItem,
};

fn parse(text: &str) -> Value {
    serde_json::from_str(text).unwrap()
}

fn filled(text: &str) -> Value {
    let mut value = parse(text);
    fill_reasoning_column(&mut value);
    value
}

#[allow(deprecated)]
fn chunk(reasoning_content: Option<&str>) -> CreateChatCompletionStreamResponse {
    CreateChatCompletionStreamResponse {
        id: "id".into(),
        choices: vec![ChatChoiceStream {
            index: 0,
            delta: ChatCompletionStreamResponseDelta {
                content: None,
                function_call: None,
                tool_calls: None,
                role: None,
                refusal: None,
                reasoning_content: reasoning_content.map(|text| text.to_string()),
            },
            finish_reason: None,
            logprobs: None,
        }],
        created: 1,
        model: "model".into(),
        service_tier: None,
        system_fingerprint: None,
        object: "chat.completion.chunk".into(),
        usage: None,
    }
}

#[test]
fn a_delta_without_reasoning_gets_a_null() {
    assert_eq!(
        filled(r#"{"id": "x", "choices": [{"delta": {"content": "a"}}]}"#),
        parse(
            r#"{"id": "x", "choices": [{"delta": {"content": "a", "reasoning_content": null}}]}"#
        )
    );
}

#[test]
fn reasoning_that_is_there_stays() {
    let text = r#"{"choices": [{"delta": {"reasoning_content": "why"}}]}"#;
    assert_eq!(filled(text), parse(text));
}

#[test]
fn only_the_first_choice_is_filled() {
    assert_eq!(
        filled(r#"{"choices": [{"delta": {}}, {"delta": {}}]}"#),
        parse(r#"{"choices": [{"delta": {"reasoning_content": null}}, {"delta": {}}]}"#)
    );
}

#[test]
fn a_chunk_without_a_delta_stays() {
    for text in [
        r#"{"choices": []}"#,
        r#"{"choices": [{}]}"#,
        r#"{"choices": [{"delta": 1}]}"#,
        r#"{"usage": {}}"#,
        "[]",
        "null",
    ] {
        assert_eq!(filled(text), parse(text));
    }
}

#[test]
fn filling_twice_is_filling_once() {
    let mut value = filled(r#"{"choices": [{"delta": {"content": "a"}}]}"#);
    let once = value.clone();
    fill_reasoning_column(&mut value);
    assert_eq!(value, once);
}

#[test]
fn a_chunk_becomes_its_json_text() {
    let text = serialize_chat_stream_response(chunk(None)).unwrap();
    let value = parse(&text);
    assert_eq!(value["id"], "id");
    assert_eq!(value["object"], "chat.completion.chunk");
    assert_eq!(value["created"], 1);
    let delta = value["choices"][0]["delta"].as_object().unwrap();
    assert!(delta.contains_key("reasoning_content"));
    assert!(delta["reasoning_content"].is_null());
    assert!(!delta.contains_key("content"));
    let text = serialize_chat_stream_response(chunk(Some("why"))).unwrap();
    assert_eq!(
        parse(&text)["choices"][0]["delta"]["reasoning_content"],
        "why"
    );
}

fn item(data: Option<CreateChatCompletionStreamResponse>, error: Option<&str>) -> Frame {
    stream_frame(Some(StreamItem {
        data,
        error: error.map(|error| error.to_string()),
    }))
}

#[test]
fn a_stream_item_is_its_chunk_or_its_error() {
    let text = serialize_chat_stream_response(chunk(None)).unwrap();
    assert!(text.starts_with('{'));
    assert_eq!(item(Some(chunk(None)), None), Frame::Text(text.clone()));
    assert_eq!(item(Some(chunk(None)), Some("late")), Frame::Text(text));
    assert_eq!(item(None, Some("gone")), Frame::Text("gone".into()));
    assert_eq!(item(None, None), Frame::Skipped);
}

#[test]
fn the_end_of_a_stream_has_its_own_frame() {
    assert_eq!(stream_frame(None), Frame::Last("[DONE]".into()));
}
