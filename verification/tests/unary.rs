use dynamo_parsers::{ReasoningParser, ReasoningParserType, ReasoningParserWrapper};
use sglang_openai::response::{ChunkEvent, ChunkExtras, SchedulerFinish};
use sglang_openai::status::{failure_status, Failure};
use sglang_openai::tools::{ParsedToolCall, ToolParse};
use sglang_openai::unary::{choice_index, unary_chat, CompletedChoice};
use sglang_openai::usage::TokenCount;
use sglang_openai::wire::{
    ChatCompletionMessageContent, CreateChatCompletionResponse, FinishReason, Role, ServiceTier,
    Usage,
};

fn completed(index: usize, text: &str, reasoning_text: &str) -> CompletedChoice<f32> {
    CompletedChoice {
        index,
        output: ChunkEvent {
            text: text.into(),
            prompt_tokens: 5,
            completion_tokens: 1,
            finish_reason: Some(SchedulerFinish {
                kind: Some("stop".into()),
                abort: None,
            }),
            ..Default::default()
        },
        reasoning_text: reasoning_text.into(),
        text: text.into(),
        parsed: None,
    }
}

fn reasoning_parser(name: &str) -> ReasoningParserWrapper {
    ReasoningParserType::get_reasoning_parser_from_name(&name.replace('-', "_"))
}

fn failure(status: u16, message: &str) -> Failure {
    Failure {
        status,
        message: message.into(),
    }
}

fn answer(
    collected: Vec<Result<CompletedChoice<f32>, Failure>>,
) -> Result<CreateChatCompletionResponse<f32>, Failure> {
    unary_chat(
        collected,
        "chatcmpl-test".into(),
        "model".into(),
        1,
        false,
        true,
        None,
    )
}

fn text(text: &str) -> Option<ChatCompletionMessageContent> {
    Some(ChatCompletionMessageContent::Text(text.into()))
}

#[test]
fn unary_chat_fans_in_choices_and_usage() {
    let response = answer(vec![
        Ok(completed(0, "Paris", "")),
        Ok(completed(1, "Paris", "")),
    ])
    .unwrap();
    assert_eq!(response.choices[0].message.role, Role::Assistant);
    assert_eq!(response.choices[0].message.content, text("Paris"));
    assert_eq!(response.choices[1].index, 1);
    let usage = response.usage.unwrap();
    assert_eq!(usage.prompt_tokens, 5);
    assert_eq!(usage.completion_tokens, 2);
}

#[test]
fn unary_chat_separates_reasoning_content_with_parser_configured() {
    let mut parser = reasoning_parser("deepseek-r1");
    let split =
        parser.detect_and_parse_reasoning("<think>because Paris is famous</think>Paris", &[]);
    let response = answer(vec![Ok(completed(
        0,
        &split.normal_text,
        &split.reasoning_text,
    ))])
    .unwrap();
    assert_eq!(
        response.choices[0].message.reasoning_content,
        Some("because Paris is famous".into())
    );
    assert_eq!(response.choices[0].message.content, text("Paris"));
}

#[test]
fn the_envelope_carries_what_the_request_named() {
    let response = unary_chat::<f32>(
        vec![],
        "id".into(),
        "model".into(),
        42,
        true,
        false,
        Some(ServiceTier::Priority),
    )
    .unwrap();
    assert_eq!(response.id, "id");
    assert_eq!(response.model, "model");
    assert_eq!(response.created, 42);
    assert_eq!(response.service_tier, Some(ServiceTier::Priority));
    assert_eq!(response.system_fingerprint, None);
    assert_eq!(response.object, "chat.completion");
    assert_eq!(response.choices, vec![]);
    assert_eq!(
        response.usage,
        Some(Usage {
            prompt_tokens: 0,
            completion_tokens: 0,
        })
    );
}

#[test]
fn empty_columns_are_absent() {
    let response = answer(vec![Ok(completed(0, "", ""))]).unwrap();
    assert_eq!(response.choices[0].message.content, None);
    assert_eq!(response.choices[0].message.reasoning_content, None);
    assert_eq!(response.choices[0].message.tool_calls, None);
    assert_eq!(response.choices[0].finish_reason, Some(FinishReason::Stop));
    assert_eq!(response.choices[0].logprobs, None);
}

#[test]
fn tool_calls_rewrite_the_finish_reason() {
    let mut choice = completed(0, "raw", "");
    choice.parsed = Some(ToolParse {
        calls: vec![
            ParsedToolCall {
                id: "call_1".into(),
                name: "get_weather".into(),
                arguments: "{}".into(),
            },
            ParsedToolCall {
                id: "call_2".into(),
                name: "get_time".into(),
                arguments: "{}".into(),
            },
        ],
        normal: None,
    });
    let response = answer(vec![Ok(choice.clone())]).unwrap();
    assert_eq!(
        response.choices[0].finish_reason,
        Some(FinishReason::ToolCalls)
    );
    assert_eq!(response.choices[0].message.content, None);
    let calls = response.choices[0].message.tool_calls.as_ref().unwrap();
    assert_eq!(calls.len(), 2);
    assert_eq!(calls[0].function.name, "get_weather");

    let response = unary_chat(
        vec![Ok(choice)],
        "id".into(),
        "model".into(),
        1,
        false,
        false,
        None,
    )
    .unwrap();
    assert_eq!(
        response.choices[0].message.tool_calls.as_ref().unwrap().len(),
        1
    );
}

#[test]
fn wanted_logprobs_come_with_the_choice() {
    let mut choice = completed(0, "x", "");
    choice.output.extras = Some(ChunkExtras {
        out_lp_val: vec![-0.25],
        out_lp_idx: vec![7],
        out_lp_txt: vec!["x".into()],
        ..Default::default()
    });
    let response = unary_chat(
        vec![Ok(choice)],
        "id".into(),
        "model".into(),
        1,
        true,
        true,
        None,
    )
    .unwrap();
    let logprobs = response.choices[0].logprobs.as_ref().unwrap();
    assert_eq!(logprobs.content.as_ref().unwrap()[0].logprob, -0.25);
}

#[test]
fn the_first_failure_is_the_answer() {
    assert_eq!(
        answer(vec![
            Ok(completed(0, "Paris", "")),
            Err(failure(503, "busy")),
            Err(failure(500, "gone")),
        ]),
        Err(failure(503, "busy"))
    );
}

#[test]
fn the_prompt_is_that_of_the_first_output_that_reports_one() {
    let mut first = completed(0, "a", "");
    first.output.prompt_tokens = 0;
    let mut second = completed(1, "b", "");
    second.output.prompt_tokens = 9;
    let third = completed(2, "c", "");
    let response = answer(vec![Ok(first), Ok(second), Ok(third)]).unwrap();
    assert_eq!(response.usage.unwrap().prompt_tokens, 9);
}

#[test]
fn the_completion_count_stops_at_the_largest_number() {
    let mut first = completed(0, "a", "");
    first.output.completion_tokens = u64::MAX;
    let response = answer(vec![Ok(first), Ok(completed(1, "b", ""))]).unwrap();
    assert_eq!(response.usage.unwrap().completion_tokens, u32::MAX);

    let mut count = TokenCount::new();
    let mut output = completed(0, "a", "").output;
    output.completion_tokens = 4294967294;
    count.count(&output);
    assert_eq!(count.usage().completion_tokens, 4294967294);
    output.completion_tokens = 2;
    count.count(&output);
    assert_eq!(count.completion_tokens, 4294967296);
    assert_eq!(count.usage().completion_tokens, u32::MAX);
}

#[test]
fn a_choice_index_stops_at_the_largest_number() {
    assert_eq!(choice_index(0), 0);
    assert_eq!(choice_index(4294967295), u32::MAX);
    assert_eq!(choice_index(4294967296), u32::MAX);
}

#[test]
fn a_status_that_http_lacks_is_an_internal_error() {
    assert_eq!(failure_status(0), 500);
    assert_eq!(failure_status(99), 500);
    assert_eq!(failure_status(100), 100);
    assert_eq!(failure_status(429), 429);
    assert_eq!(failure_status(999), 999);
    assert_eq!(failure_status(1000), 500);
    assert_eq!(failure_status(u16::MAX), 500);
}
