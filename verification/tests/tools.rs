use sglang_openai::response::{ChunkEvent, SchedulerFinish};
use sglang_openai::tools::{
    chat_delta, chat_finish_reason, dynamo_parser_name, parse_chat_tool_calls, parser_to_run,
    ChoiceToolCalls, ParsedToolCall, ToolCallLimiter, ToolParse,
};
use sglang_openai::wire::{
    ChatCompletionMessageContent, ChatCompletionMessageToolCallChunk, FinishReason,
    FunctionCallStream, FunctionType, Role,
};

fn run_parser(content: &str, parser: &str) -> Option<ToolParse> {
    let runtime = tokio::runtime::Builder::new_current_thread()
        .build()
        .unwrap();
    let (calls, normal) = runtime
        .block_on(dynamo_parsers::try_tool_call_parse_aggregate_finalize(
            content,
            Some(dynamo_parser_name(parser)),
            None,
        ))
        .ok()?;
    Some(ToolParse {
        calls: calls
            .into_iter()
            .map(|call| ParsedToolCall {
                id: call.id,
                name: call.function.name,
                arguments: call.function.arguments,
            })
            .collect(),
        normal,
    })
}

fn call(name: &str) -> ParsedToolCall {
    ParsedToolCall {
        id: format!("call_{name}"),
        name: name.into(),
        arguments: "{}".into(),
    }
}

#[test]
fn canonical_qwen_parser_name_uses_dynamo_qwen25() {
    let content =
        r#"<tool_call>{"name":"get_weather","arguments":{"city":"Paris"}}</tool_call>"#;
    let (content, calls) =
        parse_chat_tool_calls(content.into(), run_parser(content, "qwen"), true);
    assert!(content.is_empty());
    assert_eq!(calls.unwrap()[0].function.name, "get_weather");
}

#[test]
fn unary_parse_without_a_parser_passes_content_through() {
    let (content, calls) = parse_chat_tool_calls("<|python_tag|>call".into(), None, true);
    assert_eq!(content, "<|python_tag|>call");
    assert!(calls.is_none());
}

#[test]
fn chat_finish_reason_maps_scheduler_kinds() {
    let output = |kind: &str| ChunkEvent::<f32> {
        rid: "r".into(),
        text: "x".into(),
        token_ids: vec![1],
        prompt_tokens: 1,
        completion_tokens: 1,
        finish_reason: Some(SchedulerFinish {
            kind: Some(kind.into()),
            abort: None,
        }),
        ..Default::default()
    };
    assert_eq!(
        chat_finish_reason(&output("stop")),
        Some(FinishReason::Stop)
    );
    assert_eq!(
        chat_finish_reason(&output("length")),
        Some(FinishReason::Length)
    );
    assert_eq!(
        chat_finish_reason(&output("content_filter")),
        Some(FinishReason::ContentFilter)
    );
    // Unknown kinds (including a bare abort) fall back to `stop`.
    assert_eq!(
        chat_finish_reason(&output("abort")),
        Some(FinishReason::Stop)
    );
    assert_eq!(
        chat_finish_reason(&ChunkEvent::<f32> {
            finish_reason: None,
            ..Default::default()
        }),
        None
    );
}

#[test]
fn chat_delta_carries_the_optional_columns() {
    let delta = chat_delta(
        Some("hi".into()),
        Some(Role::Assistant),
        Some(vec![ChatCompletionMessageToolCallChunk {
            index: 0,
            id: Some("call_1".into()),
            kind: Some(FunctionType::Function),
            function: Some(FunctionCallStream {
                name: Some("get_weather".into()),
                arguments: Some("{}".into()),
            }),
        }]),
        Some("thinking".into()),
    );
    assert_eq!(
        delta.content,
        Some(ChatCompletionMessageContent::Text("hi".into()))
    );
    assert_eq!(delta.role, Some(Role::Assistant));
    assert_eq!(delta.reasoning_content, Some("thinking".into()));
    assert_eq!(
        delta.tool_calls.as_ref().unwrap()[0]
            .function
            .as_ref()
            .unwrap()
            .name,
        Some("get_weather".into())
    );
    assert!(chat_delta(None, None, None, None).content.is_none());
}

#[test]
fn a_finish_without_a_kind_is_no_finish_reason() {
    let output = ChunkEvent::<f32> {
        finish_reason: Some(SchedulerFinish {
            kind: None,
            abort: None,
        }),
        ..Default::default()
    };
    assert_eq!(chat_finish_reason(&output), None);
}

#[test]
fn other_parser_names_stand_for_themselves() {
    assert_eq!(dynamo_parser_name("qwen"), "qwen25");
    assert_eq!(dynamo_parser_name("qwen25"), "qwen25");
    assert_eq!(dynamo_parser_name("llama3_json"), "llama3_json");
    assert_eq!(dynamo_parser_name(""), "");
    assert_eq!(parser_to_run(Some("qwen")), Some("qwen25"));
    assert_eq!(parser_to_run(None), None);
}

#[test]
fn text_without_a_call_passes_through() {
    let (content, calls) =
        parse_chat_tool_calls("hello".into(), run_parser("hello", "qwen"), true);
    assert_eq!(content, "hello");
    assert!(calls.is_none());
    let parsed = Some(ToolParse {
        calls: vec![],
        normal: Some("rest".into()),
    });
    assert_eq!(
        parse_chat_tool_calls("whole".into(), parsed, false),
        ("whole".to_string(), None)
    );
}

#[test]
fn calls_come_with_the_leftover_text() {
    let parsed = Some(ToolParse {
        calls: vec![call("a"), call("b")],
        normal: Some("before".into()),
    });
    let (content, calls) = parse_chat_tool_calls("whole".into(), parsed, true);
    assert_eq!(content, "before");
    let calls = calls.unwrap();
    assert_eq!(calls.len(), 2);
    assert_eq!(calls[1].id, "call_b");
    assert_eq!(calls[1].kind, FunctionType::Function);
    assert_eq!(calls[1].function.name, "b");
    assert_eq!(calls[1].function.arguments, "{}");
}

#[test]
fn without_parallel_calls_the_first_one_stays() {
    let parsed = Some(ToolParse {
        calls: vec![call("a"), call("b")],
        normal: None,
    });
    let (content, calls) = parse_chat_tool_calls("whole".into(), parsed, false);
    assert_eq!(content, "");
    let calls = calls.unwrap();
    assert_eq!(calls.len(), 1);
    assert_eq!(calls[0].function.name, "a");
}

fn offered(index: u32, calls: &[&'static str]) -> ChoiceToolCalls<&'static str> {
    ChoiceToolCalls {
        index,
        calls: Some(calls.to_vec()),
    }
}

#[test]
fn each_choice_of_a_stream_gets_its_first_call_only() {
    let mut limiter = ToolCallLimiter::new(2, false);
    let mut chunk = vec![offered(0, &["a", "b"]), offered(1, &[])];
    limiter.limit(&mut chunk);
    assert_eq!(chunk[0].calls, Some(vec!["a"]));
    assert_eq!(chunk[1].calls, None);

    let mut chunk = vec![offered(0, &["c"]), offered(1, &["d", "e"])];
    limiter.limit(&mut chunk);
    assert_eq!(chunk[0].calls, None);
    assert_eq!(chunk[1].calls, Some(vec!["d"]));

    let mut chunk = vec![offered(1, &["f"]), offered(0, &["g"])];
    limiter.limit(&mut chunk);
    assert_eq!(chunk[0].calls, None);
    assert_eq!(chunk[1].calls, None);
}

#[test]
fn a_chunk_without_calls_uses_nothing_up() {
    let mut limiter = ToolCallLimiter::new(1, false);
    let mut chunk = vec![ChoiceToolCalls::<&str> {
        index: 0,
        calls: None,
    }];
    limiter.limit(&mut chunk);
    assert_eq!(chunk[0].calls, None);
    assert_eq!(limiter.seen, vec![false]);
}

#[test]
fn a_choice_that_was_never_submitted_is_cut_each_time() {
    let mut limiter = ToolCallLimiter::new(1, false);
    for _ in 0..2 {
        let mut chunk = vec![offered(7, &["a", "b"])];
        limiter.limit(&mut chunk);
        assert_eq!(chunk[0].calls, Some(vec!["a"]));
    }
}

#[test]
fn parallel_calls_pass_untouched() {
    let mut limiter = ToolCallLimiter::new(1, true);
    let mut chunk = vec![offered(0, &["a", "b"]), offered(0, &[])];
    let before = chunk.clone();
    limiter.limit(&mut chunk);
    assert_eq!(chunk, before);
}
