//! What a chat request asks of the server, and whether it is served.
use crate::error::RendererError;
use crate::lowerer::LoweredChat;
use crate::request::{input_options, GenerationInput};
use crate::sampling::SamplingParams;
use crate::status::{Failure, BAD_REQUEST};
use vstd::prelude::*;
use vstd::string::StringExecFns;

verus! {

/// The options of a chat request that shape its response, each as the client sent it.
/// `include_usage` is that of the stream options, where the request has such.
#[derive(Debug, Clone, Copy, PartialEq, Eq, Structural)]
pub struct ChatRequestOptions {
    pub stream: Option<bool>,
    pub n: Option<u8>,
    pub logprobs: Option<bool>,
    pub parallel_tool_calls: Option<bool>,
    pub include_usage: Option<bool>,
}

/// How a chat request is answered.
#[derive(Debug, Clone, Copy, PartialEq, Eq, Structural)]
pub struct ChatPlan {
    pub stream: bool,
    pub n: usize,
    pub want_logprobs: bool,
    pub parallel_tool_calls: bool,
    pub include_usage: bool,
    pub uses_tool_call_structural_tag: bool,
}

/// The option, or what stands for it where the client did not set it.
pub open spec fn option_or<T>(option: Option<T>, default: T) -> T {
    match option {
        Some(value) => value,
        None => default,
    }
}

/// `answer` is one that the first generation may give when asked for a structural tag;
/// without a generation there is none.
pub open spec fn first_has_structural_tag<S: SamplingParams>(
    generation_inputs: Seq<GenerationInput<S>>,
    answer: bool,
) -> bool {
    if generation_inputs.len() == 0 {
        !answer
    } else {
        call_ensures(
            S::has_structural_tag,
            (&input_options(generation_inputs[0]).sampling_params,),
            answer,
        )
    }
}

/// The plan is one for a request with these options and these generations.
pub open spec fn is_plan<S: SamplingParams>(
    plan: ChatPlan,
    request: ChatRequestOptions,
    generation_inputs: Seq<GenerationInput<S>>,
    usage_by_default: bool,
) -> bool {
    &&& plan.stream == option_or(request.stream, false)
    &&& plan.n == option_or(request.n, 1)
    &&& plan.want_logprobs == option_or(request.logprobs, false)
    &&& plan.parallel_tool_calls == option_or(request.parallel_tool_calls, true)
    &&& plan.include_usage == (option_or(request.include_usage, false) || usage_by_default)
    &&& first_has_structural_tag(generation_inputs, plan.uses_tool_call_structural_tag)
}

/// Plans the answer to a chat request. One choice, no stream, no log probabilities and
/// parallel tool calls are the defaults; usage is streamed where the client or the
/// server asks for it.
pub fn plan_chat<S: SamplingParams>(
    request: &ChatRequestOptions,
    generation_inputs: &Vec<GenerationInput<S>>,
    usage_by_default: bool,
) -> (r: ChatPlan)
    ensures
        is_plan(r, *request, generation_inputs@, usage_by_default),
{
    let uses_tool_call_structural_tag = if generation_inputs.len() == 0 {
        false
    } else {
        generation_inputs[0].options().sampling_params.has_structural_tag()
    };
    ChatPlan {
        stream: request.stream.unwrap_or(false),
        n: request.n.unwrap_or(1) as usize,
        want_logprobs: request.logprobs.unwrap_or(false),
        parallel_tool_calls: request.parallel_tool_calls.unwrap_or(true),
        include_usage: request.include_usage.unwrap_or(false) || usage_by_default,
        uses_tool_call_structural_tag,
    }
}

/// What a request is answered that cannot be read or lowered.
pub fn refused(message: String) -> (r: Failure)
    ensures
        r.status == BAD_REQUEST,
        r.message == message,
{
    Failure { status: BAD_REQUEST, message }
}

/// Admits a chat request that was lowered, with the plan of its answer. One that could
/// not be lowered is refused, with the message of the error.
pub fn admit_chat<S: SamplingParams, T>(
    request: &ChatRequestOptions,
    lowered: Result<LoweredChat<S, T>, RendererError>,
    usage_by_default: bool,
) -> (r: Result<(LoweredChat<S, T>, ChatPlan), Failure>)
    ensures
        match (lowered, r) {
            (Ok(lowered), Ok((admitted, plan))) => admitted == lowered && is_plan(
                plan,
                *request,
                lowered.generation_inputs@,
                usage_by_default,
            ),
            (Err(error), Err(failure)) => failure.status == BAD_REQUEST && failure.message@
                == error.message(),
            _ => false,
        },
{
    match lowered {
        Ok(lowered) => {
            let plan = plan_chat(request, &lowered.generation_inputs, usage_by_default);
            Ok((lowered, plan))
        },
        Err(error) => Err(refused(error.to_string())),
    }
}

/// A lowercase hexadecimal digit.
pub open spec fn is_hex_digit(c: char) -> bool {
    '0' <= c <= '9' || 'a' <= c <= 'f'
}

/// The digits of a random UUID: 32 of them, with the version at the thirteenth and the
/// variant at the seventeenth.
pub open spec fn is_random_uuid(digits: Seq<char>) -> bool {
    &&& digits.len() == 32
    &&& forall|i: int| 0 <= i < 32 ==> is_hex_digit(#[trigger] digits[i])
    &&& digits[12] == '4'
    &&& digits[16] == '8' || digits[16] == '9' || digits[16] == 'a' || digits[16] == 'b'
}

/// `Uuid::new_v4`, in the format of `Uuid::simple`: 32 lowercase hexadecimal digits with
/// the version and the variant of a random UUID. The other digits come from the operating
/// system's random numbers, so nothing more is said of them; without such numbers the
/// call panics.
#[verifier::external_body]
fn random_uuid() -> (r: String)
    ensures
        is_random_uuid(r@),
{
    uuid::Uuid::new_v4().simple().to_string()
}

/// The id of a chat response, made of what tells it from others.
pub fn chat_response_id(unique: &str) -> (r: String)
    ensures
        r@ == "chatcmpl-"@ + unique@,
{
    let mut id = "chatcmpl-".to_owned();
    id.append(unique);
    id
}

/// A fresh id for a chat response.
pub fn new_chat_response_id() -> (r: String)
    ensures
        exists|unique: Seq<char>| #[trigger]
            is_random_uuid(unique) && r@ == "chatcmpl-"@ + unique,
{
    let unique = random_uuid();
    chat_response_id(unique.as_str())
}

/// Each option of a plan depends on its own option of the request, and on nothing else in
/// it: what the request sets is taken, what it leaves open is no stream, one choice, no log
/// probabilities and parallel tool calls. Usage is streamed where the request asks for it
/// or the server does so by default.
pub proof fn law_each_option_is_its_own<S: SamplingParams>(
    request: ChatRequestOptions,
    generation_inputs: Vec<GenerationInput<S>>,
    usage_by_default: bool,
    plan: ChatPlan,
)
    requires
        call_ensures(plan_chat::<S>, (&request, &generation_inputs, usage_by_default), plan),
    ensures
        request.stream matches Some(stream) ==> plan.stream == stream,
        request.stream is None ==> !plan.stream,
        request.n matches Some(n) ==> plan.n == n,
        request.n is None ==> plan.n == 1,
        request.logprobs matches Some(logprobs) ==> plan.want_logprobs == logprobs,
        request.logprobs is None ==> !plan.want_logprobs,
        request.parallel_tool_calls matches Some(parallel) ==> plan.parallel_tool_calls == parallel,
        request.parallel_tool_calls is None ==> plan.parallel_tool_calls,
        usage_by_default ==> plan.include_usage,
        !usage_by_default ==> plan.include_usage == (request.include_usage == Some(true)),
{
}

/// Two requests that agree on an option have plans that agree on it, whatever else they ask
/// for and whatever they were lowered to.
pub proof fn law_options_do_not_mix<S: SamplingParams>(
    left: ChatRequestOptions,
    left_inputs: Vec<GenerationInput<S>>,
    left_plan: ChatPlan,
    right: ChatRequestOptions,
    right_inputs: Vec<GenerationInput<S>>,
    right_plan: ChatPlan,
    usage_by_default: bool,
)
    requires
        call_ensures(plan_chat::<S>, (&left, &left_inputs, usage_by_default), left_plan),
        call_ensures(plan_chat::<S>, (&right, &right_inputs, usage_by_default), right_plan),
    ensures
        left.stream == right.stream ==> left_plan.stream == right_plan.stream,
        left.n == right.n ==> left_plan.n == right_plan.n,
        left.logprobs == right.logprobs ==> left_plan.want_logprobs == right_plan.want_logprobs,
        left.parallel_tool_calls == right.parallel_tool_calls ==> left_plan.parallel_tool_calls
            == right_plan.parallel_tool_calls,
        left.include_usage == right.include_usage ==> left_plan.include_usage
            == right_plan.include_usage,
{
}

/// Whether a structural tag is used is what the parameters of the first generation say,
/// whatever its prompt is made of and whatever the request asks for; without a generation
/// none is.
pub proof fn law_the_first_generation_decides_on_the_tag<S: SamplingParams>(
    request: ChatRequestOptions,
    generation_inputs: Vec<GenerationInput<S>>,
    usage_by_default: bool,
    plan: ChatPlan,
)
    requires
        call_ensures(plan_chat::<S>, (&request, &generation_inputs, usage_by_default), plan),
    ensures
        generation_inputs@.len() == 0 ==> !plan.uses_tool_call_structural_tag,
        generation_inputs@.len() > 0 ==> match generation_inputs@[0] {
            GenerationInput::Text(text) => call_ensures(
                S::has_structural_tag,
                (&text.options.sampling_params,),
                plan.uses_tool_call_structural_tag,
            ),
            GenerationInput::TokenIds(ids) => call_ensures(
                S::has_structural_tag,
                (&ids.options.sampling_params,),
                plan.uses_tool_call_structural_tag,
            ),
        },
{
}

/// A request that was lowered is admitted as it was lowered, with the plan that planning it
/// would give; one that was not is refused as a bad request, with the error's own words.
pub proof fn law_lowered_requests_are_admitted<S: SamplingParams, T>(
    request: ChatRequestOptions,
    lowered: Result<LoweredChat<S, T>, RendererError>,
    usage_by_default: bool,
    answer: Result<(LoweredChat<S, T>, ChatPlan), Failure>,
)
    requires
        call_ensures(admit_chat::<S, T>, (&request, lowered, usage_by_default), answer),
    ensures
        lowered is Ok <==> answer is Ok,
        lowered matches Ok(chat) ==> {
            let plan = answer->Ok_0.1;
            &&& answer->Ok_0.0 == chat
            &&& plan.stream == (request.stream == Some(true))
            &&& plan.want_logprobs == (request.logprobs == Some(true))
            &&& plan.parallel_tool_calls == (request.parallel_tool_calls != Some(false))
            &&& plan.include_usage == (usage_by_default || request.include_usage == Some(true))
            &&& request.n matches Some(n) ==> plan.n == n
            &&& request.n is None ==> plan.n == 1
            &&& chat.generation_inputs@.len() == 0 ==> !plan.uses_tool_call_structural_tag
            &&& chat.generation_inputs@.len() > 0 ==> call_ensures(
                S::has_structural_tag,
                (&(match chat.generation_inputs@[0] {
                    GenerationInput::Text(text) => text.options,
                    GenerationInput::TokenIds(ids) => ids.options,
                }).sampling_params,),
                plan.uses_tool_call_structural_tag,
            )
        },
        lowered matches Err(RendererError::Validation(message)) ==> answer->Err_0.status == 400
            && answer->Err_0.message@ == message@,
{
}

/// A refusal is a bad request with the message it was given.
pub proof fn law_refusals_keep_their_message(message: String, failure: Failure)
    requires
        call_ensures(refused, (message,), failure),
    ensures
        failure.status == 400,
        failure.message@ == message@,
{
}

/// The id of a response is the text that tells it from others behind `chatcmpl-`, so that
/// different texts give different ids.
pub proof fn law_ids_differ_where_their_texts_do(
    left: &str,
    left_id: String,
    right: &str,
    right_id: String,
)
    requires
        call_ensures(chat_response_id, (left,), left_id),
        call_ensures(chat_response_id, (right,), right_id),
    ensures
        left_id@ == right_id@ <==> left@ == right@,
        left_id@.len() == 9 + left@.len(),
        left_id@.take(9) == seq!['c', 'h', 'a', 't', 'c', 'm', 'p', 'l', '-'],
        left_id@.skip(9) == left@,
{
    reveal_strlit("chatcmpl-");
    assert("chatcmpl-"@.len() == 9);
    assert(left_id@.take(9) =~= seq!['c', 'h', 'a', 't', 'c', 'm', 'p', 'l', '-']);
    assert(left_id@.skip(9) =~= left@);
    assert(right_id@.skip(9) =~= right@);
}

/// A fresh id is `chatcmpl-` and 32 lowercase hexadecimal digits, with the version and the
/// variant of a random UUID among them.
pub proof fn law_fresh_ids_are_well_shaped(id: String)
    requires
        call_ensures(new_chat_response_id, (), id),
    ensures
        id@.len() == 41,
        id@.take(9) == seq!['c', 'h', 'a', 't', 'c', 'm', 'p', 'l', '-'],
        forall|i: int|
            9 <= i < 41 ==> '0' <= #[trigger] id@[i] <= '9' || 'a' <= id@[i] <= 'f',
        id@[21] == '4',
        id@[25] == '8' || id@[25] == '9' || id@[25] == 'a' || id@[25] == 'b',
{
    reveal_strlit("chatcmpl-");
    assert("chatcmpl-"@.len() == 9);
    let unique = choose|unique: Seq<char>| #[trigger]
        is_random_uuid(unique) && id@ == "chatcmpl-"@ + unique;
    assert(is_random_uuid(unique) && id@ == "chatcmpl-"@ + unique);
    assert(id@.take(9) =~= seq!['c', 'h', 'a', 't', 'c', 'm', 'p', 'l', '-']);
    assert forall|i: int| 9 <= i < 41 implies '0' <= #[trigger] id@[i] <= '9' || 'a' <= id@[i]
        <= 'f' by {
        assert(id@[i] == unique[i - 9]);
        assert(is_hex_digit(unique[i - 9]));
    }
    assert(id@[21] == unique[12]);
    assert(id@[25] == unique[16]);
}

} // verus!
