use dynamo_parsers::tool_calling::jail::{apply_tool_calling_jail, Annotated};
use dynamo_parsers::{ReasoningParser, ReasoningParserType, ReasoningParserWrapper};
use dynamo_protocols::types as dynamo;
use futures::{stream, StreamExt};
use sglang_openai::frames::{stream_frame, Frame, StreamItem};
use sglang_openai::response::{
    AbortStatus, ChunkEvent, ChunkExtras, EngineError, ResponseItem, SchedulerFinish,
};
use sglang_openai::status::Failure;
use sglang_openai::stream::{
    output_choices, receive, ChatStream, Emitted, Received, SplitText, TRUNCATED,
};
use sglang_openai::tools::{chat_delta, chat_finish_reason};
use sglang_openai::unary::{unary_chat, CompletedChoice};
use sglang_openai::wire::{
    ChatChoiceStream, ChatCompletionChunk, ChatCompletionMessageContent, FinishReason, Role,
    ServiceTier, Usage,
};

fn event(text: &str, done: bool) -> ChunkEvent<f32> {
    ChunkEvent {
        rid: "r0".into(),
        text: text.into(),
        token_ids: vec![1],
        prompt_tokens: 5,
        completion_tokens: 1,
        finish_reason: if done { Some(finish("stop")) } else { None },
        extras: None,
    }
}

fn finish(kind: &str) -> SchedulerFinish {
    SchedulerFinish {
        kind: Some(kind.into()),
        abort: None,
    }
}

fn item(text: &str, done: bool) -> ResponseItem<f32> {
    if done {
        ResponseItem::Done(event(text, true))
    } else {
        ResponseItem::Frame(event(text, false))
    }
}

fn split(reasoning: &str, normal: &str, reasoning_tail: &str, normal_tail: &str) -> SplitText {
    SplitText {
        reasoning: reasoning.into(),
        normal: normal.into(),
        reasoning_tail: reasoning_tail.into(),
        normal_tail: normal_tail.into(),
    }
}

fn content_text(choice: &ChatChoiceStream<f32>) -> Option<&str> {
    match &choice.delta.content {
        Some(ChatCompletionMessageContent::Text(text)) => Some(text),
        None => None,
    }
}

#[allow(deprecated)]
fn dynamo_choice(choice: ChatChoiceStream<f32>) -> dynamo::ChatChoiceStream {
    dynamo::ChatChoiceStream {
        index: choice.index,
        delta: dynamo::ChatCompletionStreamResponseDelta {
            content: choice.delta.content.map(|content| match content {
                ChatCompletionMessageContent::Text(text) => {
                    dynamo::ChatCompletionMessageContent::Text(text)
                }
            }),
            function_call: None,
            tool_calls: None,
            role: choice.delta.role.map(|role| match role {
                Role::System => dynamo::Role::System,
                Role::User => dynamo::Role::User,
                Role::Assistant => dynamo::Role::Assistant,
                Role::Tool => dynamo::Role::Tool,
                Role::Function => dynamo::Role::Function,
            }),
            refusal: choice.delta.refusal,
            reasoning_content: choice.delta.reasoning_content,
        },
        finish_reason: choice.finish_reason.map(|reason| match reason {
            FinishReason::Stop => dynamo::FinishReason::Stop,
            FinishReason::Length => dynamo::FinishReason::Length,
            FinishReason::ToolCalls => dynamo::FinishReason::ToolCalls,
            FinishReason::ContentFilter => dynamo::FinishReason::ContentFilter,
            FinishReason::FunctionCall => dynamo::FinishReason::FunctionCall,
        }),
        logprobs: None,
    }
}

fn dynamo_chunk(chunk: ChatCompletionChunk<f32>) -> dynamo::CreateChatCompletionStreamResponse {
    dynamo::CreateChatCompletionStreamResponse {
        id: chunk.id,
        choices: chunk.choices.into_iter().map(dynamo_choice).collect(),
        created: chunk.created,
        model: chunk.model,
        service_tier: None,
        system_fingerprint: chunk.system_fingerprint,
        object: chunk.object,
        usage: chunk.usage.map(|usage| dynamo::CompletionUsage {
            prompt_tokens: usage.prompt_tokens,
            completion_tokens: usage.completion_tokens,
            total_tokens: usage.prompt_tokens + usage.completion_tokens,
            prompt_tokens_details: None,
            completion_tokens_details: None,
        }),
    }
}

fn reasoning_parser(name: &str) -> ReasoningParserWrapper {
    ReasoningParserType::get_reasoning_parser_from_name(&name.replace('-', "_"))
}

fn stream(include_usage: bool) -> ChatStream<f32> {
    ChatStream::new(
        "chatcmpl-test".into(),
        "model".into(),
        1,
        None,
        false,
        include_usage,
    )
}

fn error_text(failure: Failure) -> String {
    format!(
        r#"{{"error": {{"code": {}, "message": "{}"}}}}"#,
        failure.status, failure.message
    )
}

/// Runs a whole stream: every item comes for the choice with the index before it.
fn run(
    indices: Vec<usize>,
    arrivals: Vec<(usize, Option<ResponseItem<f32>>)>,
    parser: Option<&str>,
    include_usage: bool,
) -> Vec<String> {
    let mut splitters: Vec<_> = indices
        .iter()
        .map(|_| parser.map(reasoning_parser))
        .collect();
    let mut stream = stream(include_usage);
    let mut emitted: Vec<Emitted<f32>> = stream
        .open_all(&indices)
        .into_iter()
        .map(Emitted::Chunk)
        .collect();
    for (index, item) in arrivals {
        let received = receive(item);
        let split = match (&received, &mut splitters[index]) {
            (Received::Output { output, .. }, Some(splitter)) => {
                let step = splitter.parse_reasoning_streaming_incremental(&output.text, &[]);
                let tail = if chat_finish_reason(output).is_some() {
                    splitter.finish_reasoning_stream()
                } else {
                    Default::default()
                };
                Some(split(
                    &step.reasoning_text,
                    &step.normal_text,
                    &tail.reasoning_text,
                    &tail.normal_text,
                ))
            }
            _ => None,
        };
        emitted.extend(stream.react(index, received, split));
    }
    emitted.extend(stream.close().map(Emitted::Chunk));
    let mut items: Vec<Option<StreamItem>> = emitted
        .into_iter()
        .map(|emitted| {
            Some(match emitted {
                Emitted::Chunk(chunk) => StreamItem {
                    data: Some(dynamo_chunk(chunk)),
                    error: None,
                },
                Emitted::Failure(failure) => StreamItem {
                    data: None,
                    error: Some(error_text(failure)),
                },
            })
        })
        .collect();
    items.push(None);
    items
        .into_iter()
        .filter_map(|item| match stream_frame(item) {
            Frame::Text(text) | Frame::Last(text) => Some(text),
            Frame::Skipped => None,
            Frame::Unserializable => panic!("a chunk must serialize"),
        })
        .collect()
}

fn frames_of(items: Vec<ResponseItem<f32>>, parser: Option<&str>) -> Vec<String> {
    let arrivals = items.into_iter().map(|item| (0, Some(item))).collect();
    run(vec![0], arrivals, parser, true)
}

fn parse(text: &str) -> serde_json::Value {
    serde_json::from_str(text).unwrap()
}

#[test]
fn streaming_chat_separates_reasoning_into_own_deltas() {
    let frames = frames_of(
        vec![
            item("<think>be", false),
            item("cause</think>Par", false),
            item("is", true),
        ],
        Some("deepseek-r1"),
    );
    let role: serde_json::Value = serde_json::from_str(&frames[0]).unwrap();
    let first_reasoning: serde_json::Value = serde_json::from_str(&frames[1]).unwrap();
    let second_reasoning: serde_json::Value = serde_json::from_str(&frames[2]).unwrap();
    let content: serde_json::Value = serde_json::from_str(&frames[3]).unwrap();
    let terminal: serde_json::Value = serde_json::from_str(&frames[4]).unwrap();
    assert_eq!(role["choices"][0]["delta"]["role"], "assistant");
    assert_eq!(
        first_reasoning["choices"][0]["delta"]["reasoning_content"],
        "be"
    );
    assert!(first_reasoning["choices"][0]["delta"]["content"].is_null());
    assert_eq!(
        second_reasoning["choices"][0]["delta"]["reasoning_content"],
        "cause"
    );
    assert_eq!(content["choices"][0]["delta"]["content"], "Par");
    assert!(content["choices"][0]["delta"]["reasoning_content"].is_null());
    assert_eq!(terminal["choices"][0]["delta"]["content"], "is");
    assert_eq!(terminal["choices"][0]["finish_reason"], "stop");
    assert_eq!(frames.len(), 7);
}

#[test]
fn streaming_chat_emits_role_deltas_usage_and_done() {
    let frames = frames_of(vec![item("Par", false), item("is", true)], None);
    assert_eq!(frames.len(), 5);
    let role: serde_json::Value = serde_json::from_str(&frames[0]).unwrap();
    let delta: serde_json::Value = serde_json::from_str(&frames[1]).unwrap();
    let terminal: serde_json::Value = serde_json::from_str(&frames[2]).unwrap();
    let usage: serde_json::Value = serde_json::from_str(&frames[3]).unwrap();
    assert_eq!(role["choices"][0]["delta"]["role"], "assistant");
    assert!(role["choices"][0]["delta"]["reasoning_content"].is_null());
    assert_eq!(delta["choices"][0]["delta"]["content"], "Par");
    assert!(delta["choices"][0]["delta"]["reasoning_content"].is_null());
    assert_eq!(terminal["choices"][0]["delta"]["content"], "is");
    assert!(terminal["choices"][0]["delta"]["reasoning_content"].is_null());
    assert_eq!(terminal["choices"][0]["finish_reason"], "stop");
    assert_eq!(usage["usage"]["completion_tokens"], 2);
    assert_eq!(frames[4], "[DONE]");
}

#[test]
fn a_channel_that_ends_early_is_a_failure() {
    assert_eq!(
        receive::<f32>(None),
        Received::Failure {
            status: 500,
            message: "response truncated before completion".into(),
            disarm: false,
        }
    );
    assert_eq!(TRUNCATED, "response truncated before completion");
}

#[test]
fn only_the_end_of_a_generation_disarms_it() {
    assert_eq!(
        receive(Some(item("a", false))),
        Received::Output {
            output: event("a", false),
            disarm: false,
        }
    );
    assert_eq!(
        receive(Some(item("a", true))),
        Received::Output {
            output: event("a", true),
            disarm: true,
        }
    );
    assert_eq!(
        receive::<f32>(Some(ResponseItem::Control)),
        Received::Ignored
    );
    assert_eq!(receive::<f32>(Some(ResponseItem::Data)), Received::Ignored);
}

#[test]
fn an_engine_error_is_a_failure_with_a_usable_status() {
    let failed = |status: u16| {
        receive::<f32>(Some(ResponseItem::Error(EngineError {
            http_status: status,
            message: "gone".into(),
        })))
    };
    for (status, answered) in [(99, 500), (100, 100), (503, 503), (999, 999), (1000, 500)] {
        assert_eq!(
            failed(status),
            Received::Failure {
                status: answered,
                message: "gone".into(),
                disarm: true,
            }
        );
    }
}

#[test]
fn an_abort_with_a_status_is_a_failure() {
    let mut output = event("late", true);
    output.finish_reason = Some(SchedulerFinish {
        kind: Some("abort".into()),
        abort: Some(AbortStatus {
            code: 400,
            message: "too long".into(),
        }),
    });
    assert_eq!(
        receive(Some(ResponseItem::Done(output.clone()))),
        Received::Failure {
            status: 400,
            message: "too long".into(),
            disarm: true,
        }
    );
    assert_eq!(
        receive(Some(ResponseItem::Frame(output))),
        Received::Failure {
            status: 400,
            message: "too long".into(),
            disarm: false,
        }
    );
}

#[test]
fn a_bare_abort_is_an_output() {
    let mut output = event("late", false);
    output.finish_reason = Some(finish("abort"));
    assert_eq!(
        receive(Some(ResponseItem::Frame(output.clone()))),
        Received::Output {
            output,
            disarm: false,
        }
    );
}

#[test]
fn every_choice_is_opened_in_order() {
    let stream = ChatStream::<f32>::new(
        "id".into(),
        "model".into(),
        7,
        Some(ServiceTier::Flex),
        false,
        false,
    );
    let opening = stream.open_all(&vec![0, 1]);
    assert_eq!(opening.len(), 2);
    for (index, chunk) in opening.iter().enumerate() {
        assert_eq!(chunk.id, "id");
        assert_eq!(chunk.model, "model");
        assert_eq!(chunk.created, 7);
        assert_eq!(chunk.service_tier, Some(ServiceTier::Flex));
        assert_eq!(chunk.system_fingerprint, None);
        assert_eq!(chunk.object, "chat.completion.chunk");
        assert_eq!(chunk.usage, None);
        assert_eq!(chunk.choices.len(), 1);
        assert_eq!(chunk.choices[0].index, index as u32);
        assert_eq!(
            chunk.choices[0].delta,
            chat_delta(None, Some(Role::Assistant), None, None)
        );
        assert_eq!(chunk.choices[0].finish_reason, None);
        assert_eq!(chunk.choices[0].logprobs, None);
    }
    assert_eq!(stream.close(), None);
}

#[test]
fn a_choice_is_opened_under_the_index_it_was_submitted_with() {
    let opening = stream(false).open_all(&vec![5, 2, 4294967296]);
    let indices: Vec<u32> = opening
        .iter()
        .map(|chunk| chunk.choices[0].index)
        .collect();
    assert_eq!(indices, [5, 2, u32::MAX]);
    assert_eq!(stream(false).open(7).choices[0].index, 7);
    assert_eq!(
        stream(false).open(7).choices[0].delta.role,
        Some(Role::Assistant)
    );
}

#[test]
fn reacting_sends_chunks_failures_or_nothing() {
    let mut stream = stream(true);
    assert_eq!(stream.react(0, Received::Ignored, None), vec![]);
    let failed = stream.react(0, receive(None), None);
    assert_eq!(
        failed,
        vec![Emitted::Failure(Failure {
            status: 500,
            message: TRUNCATED.into(),
        })]
    );
    let sent = stream.react(0, receive(Some(item("x", false))), None);
    assert_eq!(sent.len(), 1);
    assert!(matches!(
        &sent[0],
        Emitted::Chunk(chunk) if content_text(&chunk.choices[0]) == Some("x")
    ));
    assert_eq!(
        stream.close().unwrap().usage,
        Some(Usage {
            prompt_tokens: 5,
            completion_tokens: 1,
        })
    );
}

#[test]
fn an_item_disarms_the_generation_of_its_own_choice() {
    let rids = vec!["r0".to_string(), "r1".to_string()];
    let ended = receive(Some(item("x", true)));
    assert_eq!(ended.disarmed(&rids, 1), Some(&rids[1]));
    assert_eq!(ended.disarmed(&rids, 0), Some(&rids[0]));
    let failed = receive::<f32>(Some(ResponseItem::Error(EngineError {
        http_status: 500,
        message: "gone".into(),
    })));
    assert_eq!(failed.disarmed(&rids, 1), Some(&rids[1]));
    assert_eq!(receive(Some(item("x", false))).disarmed(&rids, 1), None);
    assert_eq!(receive::<f32>(None).disarmed(&rids, 1), None);
    assert_eq!(
        receive::<f32>(Some(ResponseItem::Control)).disarmed(&rids, 1),
        None
    );
}

#[test]
fn choices_that_alternate_keep_their_texts() {
    let frames = run(
        vec![0, 1],
        vec![
            (1, Some(item("Lon", false))),
            (0, Some(item("Par", false))),
            (0, Some(ResponseItem::Control)),
            (0, Some(item("is", true))),
            (1, Some(item("", false))),
            (1, Some(item("don", true))),
        ],
        None,
        true,
    );
    assert_eq!(frames.len(), 2 + 5 + 1 + 1);
    let mut texts = [String::new(), String::new()];
    for frame in &frames[..frames.len() - 2] {
        let choice = &parse(frame)["choices"][0];
        let content = &choice["delta"]["content"];
        assert_ne!(content, "");
        texts[choice["index"].as_u64().unwrap() as usize]
            .push_str(content.as_str().unwrap_or(""));
    }
    assert_eq!(texts, ["Paris", "London"]);
}

#[test]
fn a_stream_ends_once_with_the_usage_right_before() {
    let frames = run(vec![0], vec![(0, Some(item("x", true)))], None, true);
    let last = frames.len() - 1;
    for (i, frame) in frames.iter().enumerate() {
        assert_eq!(frame == "[DONE]", i == last);
        if i < last {
            assert_eq!(parse(frame)["usage"].is_object(), i == last - 1);
        }
    }
    assert_eq!(parse(&frames[last - 1])["choices"].as_array().unwrap().len(), 0);
    let frames = run(vec![0], vec![(0, Some(item("x", true)))], None, false);
    assert!(frames[..frames.len() - 1]
        .iter()
        .all(|frame| parse(frame)["usage"].is_null()));
}

#[test]
fn a_stream_without_choices_or_outputs_still_ends() {
    assert_eq!(run(vec![], vec![], None, false), ["[DONE]"]);
    let frames = run(vec![0, 1], vec![(1, None), (0, None)], None, true);
    assert_eq!(frames.len(), 6);
    assert_eq!(parse(&frames[2])["error"]["code"], 500);
    assert_eq!(parse(&frames[4])["usage"]["prompt_tokens"], 0);
    assert_eq!(frames[5], "[DONE]");
}

#[test]
fn usage_counts_every_output() {
    let mut stream =
        ChatStream::<f32>::new("id".into(), "model".into(), 7, None, false, true);
    let mut first = event("a", false);
    first.prompt_tokens = 0;
    first.completion_tokens = 3;
    let mut second = event("b", false);
    second.prompt_tokens = 11;
    second.completion_tokens = 4;
    stream.advance(0, first, None);
    stream.advance(1, second, None);
    stream.advance(0, event("c", true), None);
    let last = stream.close().unwrap();
    assert_eq!(last.choices, vec![]);
    assert_eq!(
        last.usage,
        Some(Usage {
            prompt_tokens: 11,
            completion_tokens: 8,
        })
    );
}

#[test]
fn an_empty_step_makes_an_empty_chunk() {
    let choices = output_choices(3, event("", false), None, false);
    assert_eq!(choices.len(), 1);
    assert_eq!(choices[0].index, 3);
    assert_eq!(choices[0].delta, chat_delta(None, None, None, None));
    assert_eq!(choices[0].finish_reason, None);
}

#[test]
fn reasoning_takes_the_logprobs() {
    let mut output = event("x", false);
    output.extras = Some(ChunkExtras {
        out_lp_val: vec![-0.5],
        out_lp_idx: vec![3],
        ..Default::default()
    });
    let choices = output_choices(0, output.clone(), Some(split("why", "so", "", "")), true);
    assert_eq!(choices.len(), 2);
    assert_eq!(choices[0].delta.reasoning_content, Some("why".into()));
    assert_eq!(content_text(&choices[0]), None);
    assert!(choices[0].logprobs.is_some());
    assert_eq!(content_text(&choices[1]), Some("so"));
    assert_eq!(choices[1].delta.reasoning_content, None);
    assert_eq!(choices[1].logprobs, None);

    let choices = output_choices(0, output.clone(), Some(split("", "so", "", "")), true);
    assert_eq!(choices.len(), 1);
    assert!(choices[0].logprobs.is_some());

    let choices = output_choices(0, output.clone(), Some(split("", "", "", "")), true);
    assert_eq!(choices[0].logprobs, None);

    let choices = output_choices(0, output, None, true);
    assert_eq!(
        choices[0].logprobs.as_ref().unwrap().content.as_ref().unwrap()[0].token,
        "token_id:3"
    );
}

#[test]
fn the_finish_reason_rides_the_last_chunk() {
    let choices = output_choices(0, event("x", true), Some(split("a", "b", "c", "d")), false);
    assert_eq!(choices.len(), 4);
    assert_eq!(choices[2].delta.reasoning_content, Some("c".into()));
    assert_eq!(content_text(&choices[3]), Some("d"));
    for choice in &choices[..3] {
        assert_eq!(choice.finish_reason, None);
    }
    assert_eq!(choices[3].finish_reason, Some(FinishReason::Stop));
}

#[test]
fn a_step_that_was_held_back_still_ends_the_choice() {
    let choices = output_choices(0, event("<th", true), Some(split("", "", "", "")), false);
    assert_eq!(choices.len(), 1);
    assert_eq!(choices[0].delta, chat_delta(None, None, None, None));
    assert_eq!(choices[0].finish_reason, Some(FinishReason::Stop));
}

#[test]
fn tails_wait_for_the_end_of_the_choice() {
    let choices = output_choices(0, event("x", false), Some(split("", "b", "c", "d")), false);
    assert_eq!(choices.len(), 1);
    assert_eq!(content_text(&choices[0]), Some("b"));
}

#[test]
fn a_stream_loses_no_text() {
    let mut stream = ChatStream::<f32>::new("id".into(), "m".into(), 1, None, false, false);
    let steps = vec![
        (event("1", false), Some(split("be", "", "", ""))),
        (event("2", false), Some(split("cause", "Par", "", ""))),
        (event("3", true), Some(split("", "is", "", "!"))),
    ];
    let mut answer = String::new();
    let mut reasoning = String::new();
    for (output, split) in steps {
        for chunk in stream.advance(0, output, split) {
            answer.push_str(content_text(&chunk.choices[0]).unwrap_or(""));
            if let Some(text) = &chunk.choices[0].delta.reasoning_content {
                reasoning.push_str(text);
            }
        }
    }
    assert_eq!(answer, "Paris!");
    assert_eq!(reasoning, "because");
}

#[test]
fn a_step_reads_the_same_streamed_and_whole() {
    let choices = output_choices(2, event("x", true), Some(split("why", "so", "", "!")), false);
    let whole = unary_chat(
        vec![Ok(CompletedChoice {
            index: 2,
            output: event("x", true),
            reasoning_text: "why".into(),
            text: "so!".into(),
            parsed: None,
        })],
        "id".into(),
        "model".into(),
        1,
        false,
        true,
        None,
    )
    .unwrap();
    let whole = &whole.choices[0];
    let answer: String = choices.iter().filter_map(content_text).collect();
    let reasoning: String = choices
        .iter()
        .filter_map(|choice| choice.delta.reasoning_content.clone())
        .collect();
    assert_eq!(
        whole.message.content,
        Some(ChatCompletionMessageContent::Text(answer))
    );
    assert_eq!(whole.message.reasoning_content, Some(reasoning));
    assert_eq!(whole.finish_reason, choices.last().unwrap().finish_reason);
    assert!(choices.iter().all(|choice| choice.index == whole.index));
}

#[test]
fn usage_does_not_depend_on_how_choices_alternate() {
    let usage = |order: [usize; 4]| {
        let mut stream = ChatStream::<f32>::new("id".into(), "m".into(), 1, None, false, true);
        for index in order {
            let mut output = event("x", false);
            output.completion_tokens = 1 + index as u64;
            stream.advance(index, output, None);
        }
        stream.close().unwrap().usage
    };
    assert_eq!(usage([0, 0, 1, 1]), usage([1, 0, 1, 0]));
    assert_eq!(usage([0, 0, 1, 1]).unwrap().completion_tokens, 6);
}

fn stream_item(
    text: Option<&str>,
    finish_reason: Option<FinishReason>,
) -> Annotated<dynamo::CreateChatCompletionStreamResponse> {
    let choice = ChatChoiceStream {
        index: 0,
        delta: chat_delta(
            text.map(|text| text.to_string()),
            Some(Role::Assistant),
            None,
            None,
        ),
        finish_reason,
        logprobs: None,
    };
    Annotated {
        data: Some(dynamo_chunk(ChatCompletionChunk {
            id: "chatcmpl-test".into(),
            choices: vec![choice],
            created: 1,
            model: "model".into(),
            service_tier: None,
            system_fingerprint: None,
            object: "chat.completion.chunk".into(),
            usage: None,
        })),
        id: None,
        event: None,
        comment: None,
        error: None,
    }
}

fn choice(
    item: &Annotated<dynamo::CreateChatCompletionStreamResponse>,
) -> &dynamo::ChatChoiceStream {
    item.data.as_ref().unwrap().choices.first().unwrap()
}

fn delta_text(item: &Annotated<dynamo::CreateChatCompletionStreamResponse>) -> String {
    match choice(item).delta.content.as_ref().unwrap() {
        dynamo::ChatCompletionMessageContent::Text(text) => text.clone(),
        _ => panic!("expected a text delta"),
    }
}

fn apply_jail(
    items: Vec<Annotated<dynamo::CreateChatCompletionStreamResponse>>,
    parser: &str,
) -> Vec<Annotated<dynamo::CreateChatCompletionStreamResponse>> {
    let runtime = tokio::runtime::Builder::new_current_thread()
        .build()
        .unwrap();
    runtime.block_on(
        apply_tool_calling_jail(
            Some(parser.into()),
            Some(dynamo::ChatCompletionToolChoiceOption::Auto),
            None,
            false,
            stream::iter(items),
        )
        .collect(),
    )
}

fn first_call_name(choice: &dynamo::ChatChoiceStream) -> Option<String> {
    choice.delta.tool_calls.as_ref().unwrap()[0]
        .function
        .as_ref()
        .unwrap()
        .name
        .clone()
}

#[test]
fn streaming_jail_emits_plain_text_without_buffering() {
    let items = apply_jail(
        vec![
            stream_item(Some("Par"), None),
            stream_item(Some("is"), Some(FinishReason::Stop)),
        ],
        "llama3_json",
    );
    assert_eq!(items.len(), 2);
    assert_eq!(delta_text(&items[0]), "Par");
    assert_eq!(choice(&items[0]).finish_reason, None);
    assert_eq!(delta_text(&items[1]), "is");
    assert_eq!(
        choice(&items[1]).finish_reason,
        Some(dynamo::FinishReason::Stop)
    );
}

#[test]
fn streaming_jail_buffers_a_whole_call_until_done() {
    let items = apply_jail(
        vec![stream_item(
            Some(r#"<|python_tag|>{"name":"get_weather","parameters":{"city":"Paris"}}"#),
            Some(FinishReason::Stop),
        )],
        "llama3_json",
    );
    assert_eq!(items.len(), 1);
    let terminal = choice(&items[0]);
    assert!(matches!(
        terminal.delta.content.as_ref(),
        Some(dynamo::ChatCompletionMessageContent::Text(text)) if text.is_empty()
    ));
    assert_eq!(first_call_name(terminal), Some("get_weather".into()));
    // The terminal reason is rewritten: calls were emitted.
    assert_eq!(
        terminal.finish_reason,
        Some(dynamo::FinishReason::ToolCalls)
    );
}

#[test]
fn streaming_jail_detects_bare_json_without_a_start_marker() {
    let items = apply_jail(
        vec![
            stream_item(Some(r#"{"name":"get_weather","parameters":{"#), None),
            stream_item(Some(r#""city":"Paris"}}"#), Some(FinishReason::Stop)),
        ],
        "llama3_json",
    );
    assert_eq!(items.len(), 1);
    let terminal = choice(&items[0]);
    assert!(matches!(
        terminal.delta.content.as_ref(),
        Some(dynamo::ChatCompletionMessageContent::Text(text)) if text.is_empty()
    ));
    assert_eq!(first_call_name(terminal), Some("get_weather".into()));
    assert_eq!(
        terminal.finish_reason,
        Some(dynamo::FinishReason::ToolCalls)
    );
}

#[test]
fn streaming_jail_holds_only_a_split_marker() {
    let items = apply_jail(
        vec![
            stream_item(Some("Before <|python_"), None),
            stream_item(
                Some(r#"tag|>{"name":"get_weather","parameters":{"city":"Paris"}}"#),
                Some(FinishReason::Stop),
            ),
        ],
        "llama3_json",
    );
    // The safe prefix streams immediately; the held marker suffix joins
    // the next chunk, which parses into a tool call.
    assert_eq!(delta_text(&items[0]), "Before ");
    let tool_call = choice(&items[1]);
    assert!(matches!(
        tool_call.delta.content.as_ref(),
        Some(dynamo::ChatCompletionMessageContent::Text(text)) if text.is_empty()
    ));
    assert_eq!(first_call_name(tool_call), Some("get_weather".into()));
    assert_eq!(
        tool_call.finish_reason,
        Some(dynamo::FinishReason::ToolCalls)
    );
}

#[test]
fn streaming_jail_releases_an_incomplete_marker_at_done() {
    let items = apply_jail(
        vec![
            stream_item(Some("Before <|python_"), None),
            stream_item(None, Some(FinishReason::Stop)),
        ],
        "llama3_json",
    );
    let text = items
        .iter()
        .filter_map(|item| choice(item).delta.content.as_ref())
        .filter_map(|content| match content {
            dynamo::ChatCompletionMessageContent::Text(text) => Some(text.clone()),
            _ => None,
        })
        .collect::<String>();
    assert_eq!(text, "Before <|python_");
    assert_eq!(
        choice(&items[1]).finish_reason,
        Some(dynamo::FinishReason::Stop)
    );
}

#[test]
fn streaming_jail_emits_a_complete_tool_call_before_done() {
    let items = apply_jail(
        vec![
            stream_item(
                Some(r#"<|python_tag|>{"name":"get_weather","parameters":{"city":"Paris"}}"#),
                None,
            ),
            stream_item(None, Some(FinishReason::Stop)),
        ],
        "llama3_json",
    );
    let tool_position = items
        .iter()
        .position(|item| choice(item).delta.tool_calls.is_some())
        .expect("tool call chunk");
    let terminal_position = items
        .iter()
        .position(|item| choice(item).finish_reason.is_some())
        .expect("terminal chunk");
    assert!(tool_position < terminal_position);
    // Calls were emitted, so the terminal reason is rewritten.
    assert_eq!(
        choice(&items[terminal_position]).finish_reason,
        Some(dynamo::FinishReason::ToolCalls)
    );
}
