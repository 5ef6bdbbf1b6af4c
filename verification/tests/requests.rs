use serde_json::Value;
use sglang_openai::chat::{
    admit_chat, chat_response_id, new_chat_response_id, plan_chat, refused, ChatPlan,
    ChatRequestOptions,
};
use sglang_openai::config::{RendererConfig, SamplingDefaults};
use sglang_openai::error::RendererError;
use sglang_openai::lowerer::{LoweredChat, OpenAIRequestLowerer};
use sglang_openai::request::{GenerationInput, GenerationOptions, TextRequest, TokenIdsRequest};
use sglang_openai::sampling::SamplingParams;
use sglang_openai::status::Failure;
use sglang_openai::text::{decimal_text, nonempty_text, same_text};

#[derive(Debug, Clone, PartialEq, Default)]
struct Params {
    structural_tag: Option<String>,
}

impl SamplingParams for Params {
    fn from_value(_value: Value) -> Result<Self, String> {
        Ok(Params::default())
    }

    fn to_value(&self) -> Result<Value, String> {
        Ok(Value::Null)
    }

    fn has_structural_tag(&self) -> bool {
        self.structural_tag.is_some()
    }
}

fn text_input(tag: Option<&str>) -> GenerationInput<Params> {
    GenerationInput::Text(TextRequest {
        rid: "r".into(),
        text: "hello".into(),
        skip_special_tokens: true,
        options: GenerationOptions {
            sampling_params: Params {
                structural_tag: tag.map(|tag| tag.to_string()),
            },
            ..Default::default()
        },
    })
}

fn ids_input() -> GenerationInput<Params> {
    GenerationInput::TokenIds(TokenIdsRequest {
        rid: "r".into(),
        input_ids: vec![11, 12, 13],
        options: GenerationOptions {
            stream: true,
            logprob_start_len: -1,
            ..Default::default()
        },
    })
}

fn unset() -> ChatRequestOptions {
    ChatRequestOptions {
        stream: None,
        n: None,
        logprobs: None,
        parallel_tool_calls: None,
        include_usage: None,
    }
}

fn config() -> RendererConfig<f64> {
    RendererConfig {
        served_model_name: "model".into(),
        tool_call_parser: None,
        default_sampling_params: SamplingDefaults::default(),
    }
}

#[test]
fn options_are_those_of_the_request() {
    assert_eq!(
        text_input(Some("tag")).options().sampling_params.structural_tag,
        Some("tag".into())
    );
    assert!(ids_input().options().stream);
    assert_eq!(ids_input().options().logprob_start_len, -1);
}

#[test]
fn default_options_ask_for_nothing() {
    let options = GenerationOptions::<Params>::default();
    assert_eq!(options.sampling_params, Params::default());
    assert!(!options.stream);
    assert!(!options.return_logprob);
    assert_eq!(options.logprob_start_len, 0);
    assert_eq!(options.top_logprobs_num, 0);
    assert_eq!(options.token_ids_logprob, None);
    assert!(!options.return_hidden_states);
    assert_eq!(options.return_text_in_logprobs, None);
    assert_eq!(config().default_sampling_params.temperature, None);
    assert_eq!(config().default_sampling_params.top_p, None);
}

#[test]
fn a_request_that_sets_nothing_gets_the_defaults() {
    assert_eq!(
        plan_chat(&unset(), &vec![text_input(None)], false),
        ChatPlan {
            stream: false,
            n: 1,
            want_logprobs: false,
            parallel_tool_calls: true,
            include_usage: false,
            uses_tool_call_structural_tag: false,
        }
    );
}

#[test]
fn what_a_request_sets_is_kept() {
    let request = ChatRequestOptions {
        stream: Some(true),
        n: Some(3),
        logprobs: Some(true),
        parallel_tool_calls: Some(false),
        include_usage: Some(true),
    };
    assert_eq!(
        plan_chat(&request, &vec![text_input(Some("tag")), text_input(None)], false),
        ChatPlan {
            stream: true,
            n: 3,
            want_logprobs: true,
            parallel_tool_calls: false,
            include_usage: true,
            uses_tool_call_structural_tag: true,
        }
    );
}

#[test]
fn only_the_first_generation_decides_on_the_tag() {
    let plan = plan_chat(&unset(), &vec![text_input(None), text_input(Some("tag"))], false);
    assert!(!plan.uses_tool_call_structural_tag);
    let plan = plan_chat::<Params>(&unset(), &vec![], false);
    assert!(!plan.uses_tool_call_structural_tag);
}

#[test]
fn the_server_can_stream_usage_by_default() {
    let mut request = unset();
    assert!(plan_chat(&request, &vec![ids_input()], true).include_usage);
    request.include_usage = Some(false);
    assert!(plan_chat(&request, &vec![ids_input()], true).include_usage);
    assert!(!plan_chat(&request, &vec![ids_input()], false).include_usage);
}

#[test]
fn a_lowered_request_is_admitted() {
    let lowered = LoweredChat::<Params, String> {
        generation_inputs: vec![ids_input()],
        tool_parser: Some("qwen".into()),
        tools: None,
    };
    let (admitted, plan) = admit_chat(&unset(), Ok(lowered.clone()), true).unwrap();
    assert_eq!(admitted, lowered);
    assert!(plan.include_usage);
}

#[test]
fn a_request_that_cannot_be_lowered_is_a_bad_one() {
    let lowered: Result<LoweredChat<Params, String>, RendererError> =
        Err(RendererError::from("no messages"));
    assert_eq!(
        admit_chat(&unset(), lowered, false),
        Err(Failure {
            status: 400,
            message: "no messages".into(),
        })
    );
    assert_eq!(
        refused("bad body".into()),
        Failure {
            status: 400,
            message: "bad body".into(),
        }
    );
}

#[test]
fn a_response_id_names_the_kind_of_response() {
    assert_eq!(chat_response_id("test"), "chatcmpl-test");
    assert_eq!(chat_response_id(""), "chatcmpl-");
}

#[test]
fn a_fresh_id_is_a_random_uuid() {
    let id = new_chat_response_id();
    let digits = id.strip_prefix("chatcmpl-").unwrap();
    assert_eq!(digits.len(), 32);
    assert!(digits
        .chars()
        .all(|c| c.is_ascii_digit() || ('a'..='f').contains(&c)));
    assert_eq!(digits.as_bytes()[12], b'4');
    assert!(matches!(digits.as_bytes()[16], b'8' | b'9' | b'a' | b'b'));
    assert_ne!(id, new_chat_response_id());
}

#[test]
fn an_error_says_what_went_wrong() {
    assert_eq!(
        RendererError::from("missing".to_string()).to_string(),
        "missing"
    );
    assert_eq!(RendererError::from("missing").to_string(), "missing");
    assert!(matches!(
        RendererError::from("x"),
        RendererError::Validation(message) if message == "x"
    ));
}

#[test]
fn lowering_gets_the_configuration_and_the_formatter() {
    let lowerer = OpenAIRequestLowerer::new(config(), Some("chatml".to_string()));
    let mut request = vec!["hello".to_string()];
    let lowered = lowerer
        .lower_chat(
            &mut request,
            "chatcmpl-test",
            |config: &RendererConfig<f64>,
             formatter: Option<String>,
             request: &mut Vec<String>,
             response_id: &str| {
                request.push(response_id.to_string());
                Ok(LoweredChat::<Params, String> {
                    generation_inputs: vec![text_input(None)],
                    tool_parser: Some(config.served_model_name.clone()),
                    tools: formatter.map(|formatter| vec![formatter]),
                })
            },
        )
        .unwrap();
    assert_eq!(lowered.tool_parser, Some("model".into()));
    assert_eq!(lowered.tools, Some(vec!["chatml".into()]));
    assert_eq!(request, ["hello", "chatcmpl-test"]);
}

#[test]
fn completions_are_lowered_under_the_configuration() {
    let lowerer = OpenAIRequestLowerer::<f64, String>::new(config(), None);
    let inputs = lowerer
        .lower_completions(
            &vec![11i64, 12, 13],
            "cmpl-tokens",
            |_config: &RendererConfig<f64>, request: &Vec<i64>, response_id: &str| {
                Ok(vec![GenerationInput::TokenIds(TokenIdsRequest {
                    rid: response_id.to_string(),
                    input_ids: request.clone(),
                    options: GenerationOptions::<Params>::default(),
                })])
            },
        )
        .unwrap();
    assert!(matches!(
        &inputs[0],
        GenerationInput::TokenIds(request)
            if request.input_ids == [11, 12, 13] && request.rid == "cmpl-tokens"
    ));
    let refused = lowerer.lower_completions(
        &(),
        "cmpl",
        |_config: &RendererConfig<f64>, _request: &(), _response_id: &str| {
            Err::<Vec<GenerationInput<Params>>, RendererError>(RendererError::from("no prompt"))
        },
    );
    assert_eq!(refused.unwrap_err().to_string(), "no prompt");
}

#[test]
fn numbers_are_written_in_decimal() {
    for n in [0, 7, 10, -1, 99, 100, -4096, i64::MAX, i64::MIN] {
        assert_eq!(decimal_text(n), format!("{n}"));
    }
    assert_ne!(decimal_text(11), decimal_text(1));
}

#[test]
fn texts_are_told_apart_by_their_characters() {
    assert!(same_text("", ""));
    assert!(same_text("qwen", "qwen"));
    assert!(!same_text("qwen", "qwen25"));
    assert_eq!(nonempty_text("".into()), None);
    assert_eq!(nonempty_text(" ".into()), Some(" ".into()));
}
